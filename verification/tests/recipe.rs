use recipe_store::recipe::{assemble, conclude_creation, conclude_update, Recipe, StoreError};

fn soup() -> Recipe {
    Recipe {
        title: "Soup".to_string(),
        ingredients: vec!["leek".to_string(), "carrot".to_string()],
        instructions: "boil".to_string(),
    }
}

#[test]
fn assemble_takes_the_title_first_and_the_instructions_second() {
    let row = ("Soup".to_string(), "boil".to_string());
    assert_eq!(assemble(row, vec!["leek".to_string(), "carrot".to_string()]), soup());
}

#[test]
fn assemble_without_lines_has_no_ingredients() {
    let recipe = assemble(("T".to_string(), "".to_string()), vec![]);
    assert_eq!(recipe.title, "T");
    assert_eq!(recipe.instructions, "");
    assert!(recipe.ingredients.is_empty());
}

#[test]
fn an_update_returns_the_recipe_that_is_read() {
    assert_eq!(conclude_update(Ok(()), Ok(Some(soup()))), Ok(soup()));
}

#[test]
fn an_update_that_finds_nothing_is_an_invariant_violation() {
    assert_eq!(conclude_update(Ok(()), Ok(None)), Err(StoreError::InvariantViolation));
}

#[test]
fn an_update_hands_on_a_failed_reading() {
    assert_eq!(
        conclude_update(Ok(()), Err(StoreError::StoreUnavailable)),
        Err(StoreError::StoreUnavailable)
    );
}

#[test]
fn an_update_hands_on_a_failed_write() {
    assert_eq!(
        conclude_update(Err(StoreError::InvariantViolation), Ok(Some(soup()))),
        Err(StoreError::InvariantViolation)
    );
    assert_eq!(
        conclude_update(Err(StoreError::StoreUnavailable), Ok(None)),
        Err(StoreError::StoreUnavailable)
    );
}

#[test]
fn a_creation_returns_the_id_after_success_only() {
    assert_eq!(conclude_creation(7, Ok(())), Ok(7));
    assert_eq!(conclude_creation(-1, Ok(())), Ok(-1));
    assert_eq!(conclude_creation(7, Err(StoreError::InvariantViolation)), Err(StoreError::InvariantViolation));
    assert_eq!(conclude_creation(7, Err(StoreError::StoreUnavailable)), Err(StoreError::StoreUnavailable));
}
