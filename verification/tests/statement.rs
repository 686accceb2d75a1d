use recipe_store::recipe::{listed, ListedRecipe, RawRecipe, StoreError};
use recipe_store::statement::{
    available, ending, judge, plan_deletion, plan_insertions, plan_update, Ending, Param,
    Statement, DELETE_INGREDIENTS, DELETE_RECIPE, INSERT_INGREDIENT, INSERT_RECIPE, UPDATE_RECIPE,
};
use rusqlite::Error;

fn insert(recipe: i64, ingredient: &str) -> Statement {
    Statement::InsertIngredient { recipe, ingredient: ingredient.to_string() }
}

fn text(s: &str) -> Param {
    Param::Text(s.to_string())
}

#[test]
fn insert_recipe_binds_title_then_instructions() {
    let statement = Statement::InsertRecipe {
        title: "Soup".to_string(),
        instructions: "boil".to_string(),
    };
    assert_eq!(statement.sql(), INSERT_RECIPE);
    assert_eq!(statement.sql(), "INSERT INTO recipes (title, instructions) VALUES (?1, ?2);");
    assert_eq!(statement.params(), vec![text("Soup"), text("boil")]);
    assert!(statement.exactly_one());
}

#[test]
fn a_transaction_is_committed_only_after_success() {
    assert_eq!(ending(&Ok(())), Ending::Commit);
    assert_eq!(ending(&Err(StoreError::InvariantViolation)), Ending::Rollback);
    assert_eq!(ending(&Err(StoreError::StoreUnavailable)), Ending::Rollback);
}

#[test]
fn insert_ingredient_binds_recipe_then_text() {
    let statement = insert(4, "leek");
    assert_eq!(statement.sql(), INSERT_INGREDIENT);
    assert_eq!(statement.sql(), "INSERT INTO ingredients (recipe, ingredient) VALUES (?1, ?2);");
    assert_eq!(statement.params(), vec![Param::Integer(4), text("leek")]);
    assert!(statement.exactly_one());
}

#[test]
fn delete_ingredients_binds_the_recipe() {
    let statement = Statement::DeleteIngredients { recipe: -2 };
    assert_eq!(statement.sql(), DELETE_INGREDIENTS);
    assert_eq!(statement.sql(), "DELETE FROM ingredients WHERE recipe = (?1);");
    assert_eq!(statement.params(), vec![Param::Integer(-2)]);
    assert!(!statement.exactly_one());
}

#[test]
fn update_recipe_binds_title_instructions_id() {
    let statement = Statement::UpdateRecipe {
        id: 9,
        title: "Soup".to_string(),
        instructions: "boil".to_string(),
    };
    assert_eq!(statement.sql(), UPDATE_RECIPE);
    assert_eq!(statement.sql(), "UPDATE recipes SET title = ?1, instructions = ?2 WHERE id = ?3;");
    assert_eq!(statement.params(), vec![text("Soup"), text("boil"), Param::Integer(9)]);
    assert!(statement.exactly_one());
}

#[test]
fn delete_recipe_binds_the_id() {
    let statement = Statement::DeleteRecipe { id: i64::MAX };
    assert_eq!(statement.sql(), DELETE_RECIPE);
    assert_eq!(statement.sql(), "DELETE FROM recipes WHERE id = (?1);");
    assert_eq!(statement.params(), vec![Param::Integer(i64::MAX)]);
    assert!(statement.exactly_one());
}

#[test]
fn judge_wants_one_row_where_one_is_due() {
    assert_eq!(judge(true, Ok(1)), Ok(()));
    assert_eq!(judge(true, Ok(0)), Err(StoreError::InvariantViolation));
    assert_eq!(judge(true, Ok(2)), Err(StoreError::InvariantViolation));
    assert_eq!(judge(true, Ok(usize::MAX)), Err(StoreError::InvariantViolation));
}

#[test]
fn judge_takes_any_count_where_none_is_due() {
    assert_eq!(judge(false, Ok(0)), Ok(()));
    assert_eq!(judge(false, Ok(1)), Ok(()));
    assert_eq!(judge(false, Ok(17)), Ok(()));
}

#[test]
fn judge_reports_an_engine_failure_as_unavailable() {
    assert_eq!(judge(true, Err(Error::QueryReturnedNoRows)), Err(StoreError::StoreUnavailable));
    assert_eq!(judge(false, Err(Error::InvalidQuery)), Err(StoreError::StoreUnavailable));
}

#[test]
fn available_keeps_answers_and_maps_failures() {
    assert_eq!(available(Ok(Some(5_i64))), Ok(Some(5)));
    assert_eq!(available(Ok("x".to_string())), Ok("x".to_string()));
    assert_eq!(available::<i64>(Err(Error::ExecuteReturnedResults)), Err(StoreError::StoreUnavailable));
}

#[test]
fn insertions_follow_the_lines() {
    let lines = vec!["leek".to_string(), "carrot".to_string(), "leek".to_string()];
    assert_eq!(plan_insertions(3, &lines), vec![insert(3, "leek"), insert(3, "carrot"), insert(3, "leek")]);
    assert_eq!(plan_insertions(3, &vec![]), vec![]);
}

#[test]
fn update_changes_the_row_then_clears_and_inserts() {
    let raw = RawRecipe {
        title: "Soup v2".to_string(),
        ingredients: " leek \n\ncarrot".to_string(),
        instructions: "simmer".to_string(),
    };
    assert_eq!(
        plan_update(8, &raw),
        vec![
            Statement::UpdateRecipe {
                id: 8,
                title: "Soup v2".to_string(),
                instructions: "simmer".to_string(),
            },
            Statement::DeleteIngredients { recipe: 8 },
            insert(8, "leek"),
            insert(8, "carrot"),
        ]
    );
}

#[test]
fn update_without_ingredients_still_changes_and_clears() {
    let raw = RawRecipe { title: "T".to_string(), ingredients: "\n".to_string(), instructions: "".to_string() };
    assert_eq!(
        plan_update(1, &raw),
        vec![
            Statement::UpdateRecipe { id: 1, title: "T".to_string(), instructions: "".to_string() },
            Statement::DeleteIngredients { recipe: 1 },
        ]
    );
}

#[test]
fn deletion_clears_ingredients_before_the_recipe() {
    assert_eq!(
        plan_deletion(6),
        vec![Statement::DeleteIngredients { recipe: 6 }, Statement::DeleteRecipe { id: 6 }]
    );
}

#[test]
fn listed_keeps_rows_in_order() {
    let rows = vec![(2, "B".to_string()), (1, "A".to_string()), (3, "B".to_string())];
    assert_eq!(
        listed(rows),
        vec![
            ListedRecipe { id: 2, title: "B".to_string() },
            ListedRecipe { id: 1, title: "A".to_string() },
            ListedRecipe { id: 3, title: "B".to_string() },
        ]
    );
    assert_eq!(listed(vec![]), vec![]);
}
