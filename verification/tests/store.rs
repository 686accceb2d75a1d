use recipe_store::recipe::{
    delete_recipe, get_recipe, initialize, list_recipes, new_recipe, random_recipe, update_recipe,
    ListedRecipe, RawRecipe, Recipe, StoreError,
};
use rusqlite::Connection;

fn open() -> Connection {
    let conn = Connection::open_in_memory().unwrap();
    initialize(&conn).unwrap();
    conn
}

fn raw(title: &str, ingredients: &str, instructions: &str) -> RawRecipe {
    RawRecipe {
        title: title.to_string(),
        ingredients: ingredients.to_string(),
        instructions: instructions.to_string(),
    }
}

fn recipe(title: &str, ingredients: &[&str], instructions: &str) -> Recipe {
    Recipe {
        title: title.to_string(),
        ingredients: ingredients.iter().map(|line| line.to_string()).collect(),
        instructions: instructions.to_string(),
    }
}

fn soup() -> RawRecipe {
    raw("Soup", "leek\ncarrot", "boil")
}

fn count(conn: &Connection, table: &str) -> i64 {
    conn.query_row(&format!("SELECT COUNT(*) FROM {table}"), (), |row| row.get(0)).unwrap()
}

fn sorted(mut entries: Vec<ListedRecipe>) -> Vec<(i64, String)> {
    entries.sort_by_key(|entry| entry.id);
    entries.into_iter().map(|entry| (entry.id, entry.title)).collect()
}

#[test]
fn create_then_get_returns_the_recipe() {
    let mut conn = open();
    let id = new_recipe(&mut conn, soup()).unwrap();
    assert_eq!(get_recipe(&conn, id), Ok(Some(recipe("Soup", &["leek", "carrot"], "boil"))));
}

#[test]
fn create_trims_lines_and_drops_blank_ones() {
    let mut conn = open();
    let id = new_recipe(&mut conn, raw("Stew", "  beef \r\n\n\t\nonion\u{a0}\n", "")).unwrap();
    assert_eq!(get_recipe(&conn, id), Ok(Some(recipe("Stew", &["beef", "onion"], ""))));
    assert_eq!(count(&conn, "ingredients"), 2);
}

#[test]
fn create_without_ingredients_stores_none() {
    let mut conn = open();
    let id = new_recipe(&mut conn, raw("Water", "", "pour")).unwrap();
    assert_eq!(get_recipe(&conn, id), Ok(Some(recipe("Water", &[], "pour"))));
    assert_eq!(count(&conn, "ingredients"), 0);
}

#[test]
fn create_keeps_the_order_of_many_lines() {
    let mut conn = open();
    let lines: Vec<String> = (0..40).map(|n| format!("item {n}")).collect();
    let id = new_recipe(&mut conn, raw("Long", &lines.join("\n"), "mix")).unwrap();
    assert_eq!(get_recipe(&conn, id).unwrap().unwrap().ingredients, lines);
}

#[test]
fn recipes_do_not_share_ingredients() {
    let mut conn = open();
    let first = new_recipe(&mut conn, raw("A", "a1\na2", "x")).unwrap();
    let second = new_recipe(&mut conn, raw("B", "b1", "y")).unwrap();
    assert_ne!(first, second);
    assert_eq!(get_recipe(&conn, first), Ok(Some(recipe("A", &["a1", "a2"], "x"))));
    assert_eq!(get_recipe(&conn, second), Ok(Some(recipe("B", &["b1"], "y"))));
}

#[test]
fn get_unknown_id_is_none() {
    let mut conn = open();
    assert_eq!(get_recipe(&conn, 1), Ok(None));
    let id = new_recipe(&mut conn, soup()).unwrap();
    assert_eq!(get_recipe(&conn, id + 1), Ok(None));
    assert_eq!(get_recipe(&conn, -7), Ok(None));
}

#[test]
fn update_replaces_title_and_ingredients() {
    let mut conn = open();
    let id = new_recipe(&mut conn, soup()).unwrap();
    let expected = recipe("Soup v2", &["leek"], "simmer");
    assert_eq!(update_recipe(&mut conn, id, raw("Soup v2", "leek", "simmer")), Ok(expected.clone()));
    assert_eq!(get_recipe(&conn, id), Ok(Some(expected)));
    assert_eq!(count(&conn, "ingredients"), 1);
}

#[test]
fn update_leaves_other_recipes_alone() {
    let mut conn = open();
    let first = new_recipe(&mut conn, raw("A", "a1\na2", "x")).unwrap();
    let second = new_recipe(&mut conn, raw("B", "b1", "y")).unwrap();
    update_recipe(&mut conn, first, raw("A2", "a3", "x2")).unwrap();
    assert_eq!(get_recipe(&conn, first), Ok(Some(recipe("A2", &["a3"], "x2"))));
    assert_eq!(get_recipe(&conn, second), Ok(Some(recipe("B", &["b1"], "y"))));
}

#[test]
fn update_unknown_id_is_an_invariant_violation() {
    let mut conn = open();
    let id = new_recipe(&mut conn, soup()).unwrap();
    assert_eq!(
        update_recipe(&mut conn, id + 1, raw("Ghost", "salt\npepper", "none")),
        Err(StoreError::InvariantViolation)
    );
    assert_eq!(
        update_recipe(&mut conn, id + 1, raw("Ghost", "", "none")),
        Err(StoreError::InvariantViolation)
    );
    assert_eq!(count(&conn, "recipes"), 1);
    assert_eq!(count(&conn, "ingredients"), 2);
    assert_eq!(get_recipe(&conn, id), Ok(Some(recipe("Soup", &["leek", "carrot"], "boil"))));
    assert_eq!(get_recipe(&conn, id + 1), Ok(None));
    assert!(conn.is_autocommit());
}

#[test]
fn update_unknown_id_is_the_same_error_without_foreign_keys() {
    let mut conn = open();
    conn.execute_batch("PRAGMA foreign_keys = OFF;").unwrap();
    assert_eq!(
        update_recipe(&mut conn, 4, raw("Ghost", "salt\npepper", "none")),
        Err(StoreError::InvariantViolation)
    );
    assert_eq!(count(&conn, "recipes"), 0);
    assert_eq!(count(&conn, "ingredients"), 0);
}

#[test]
fn update_on_an_empty_store_is_an_invariant_violation() {
    let mut conn = open();
    assert_eq!(update_recipe(&mut conn, 1, soup()), Err(StoreError::InvariantViolation));
    assert_eq!(delete_recipe(&mut conn, 1), Err(StoreError::InvariantViolation));
}

#[test]
fn the_same_update_twice_gives_the_same_recipe() {
    let mut conn = open();
    let id = new_recipe(&mut conn, soup()).unwrap();
    let first = update_recipe(&mut conn, id, raw("Soup v2", "  leek  \n\n", "simmer"));
    let second = update_recipe(&mut conn, id, raw("Soup v2", "  leek  \n\n", "simmer"));
    assert_eq!(first, Ok(recipe("Soup v2", &["leek"], "simmer")));
    assert_eq!(second, first);
    assert_eq!(count(&conn, "ingredients"), 1);
}

#[test]
fn delete_removes_the_recipe_from_get_and_list() {
    let mut conn = open();
    let id = new_recipe(&mut conn, soup()).unwrap();
    assert_eq!(delete_recipe(&mut conn, id), Ok(()));
    assert_eq!(get_recipe(&conn, id), Ok(None));
    assert_eq!(list_recipes(&conn), Ok(vec![]));
    assert_eq!(count(&conn, "ingredients"), 0);
}

#[test]
fn second_delete_is_an_invariant_violation() {
    let mut conn = open();
    let id = new_recipe(&mut conn, soup()).unwrap();
    assert_eq!(delete_recipe(&mut conn, id), Ok(()));
    assert_eq!(delete_recipe(&mut conn, id), Err(StoreError::InvariantViolation));
}

#[test]
fn delete_unknown_id_changes_nothing() {
    let mut conn = open();
    let id = new_recipe(&mut conn, soup()).unwrap();
    assert_eq!(delete_recipe(&mut conn, id + 1), Err(StoreError::InvariantViolation));
    assert_eq!(get_recipe(&conn, id), Ok(Some(recipe("Soup", &["leek", "carrot"], "boil"))));
}

#[test]
fn deleted_id_is_not_given_out_again() {
    let mut conn = open();
    let first = new_recipe(&mut conn, soup()).unwrap();
    delete_recipe(&mut conn, first).unwrap();
    let second = new_recipe(&mut conn, raw("Bread", "flour", "bake")).unwrap();
    assert_ne!(first, second);
    assert_eq!(get_recipe(&conn, first), Ok(None));
}

#[test]
fn list_has_one_entry_for_each_recipe() {
    let mut conn = open();
    assert_eq!(list_recipes(&conn), Ok(vec![]));
    let a = new_recipe(&mut conn, raw("A", "a1", "x")).unwrap();
    let b = new_recipe(&mut conn, raw("B", "b1\nb2", "y")).unwrap();
    let c = new_recipe(&mut conn, raw("A", "", "z")).unwrap();
    delete_recipe(&mut conn, b).unwrap();
    update_recipe(&mut conn, c, raw("C", "c1", "z")).unwrap();
    let mut expected = vec![(a, "A".to_string()), (c, "C".to_string())];
    expected.sort();
    assert_eq!(sorted(list_recipes(&conn).unwrap()), expected);
}

#[test]
fn random_on_empty_store_is_none() {
    let conn = open();
    assert_eq!(random_recipe(&conn), Ok(None));
}

#[test]
fn random_gives_a_listed_id() {
    let mut conn = open();
    let a = new_recipe(&mut conn, raw("A", "a1", "x")).unwrap();
    let b = new_recipe(&mut conn, raw("B", "b1", "y")).unwrap();
    let c = new_recipe(&mut conn, raw("C", "c1", "z")).unwrap();
    delete_recipe(&mut conn, b).unwrap();
    for _ in 0..50 {
        let picked = random_recipe(&conn).unwrap().unwrap();
        assert!(picked == a || picked == c);
    }
    delete_recipe(&mut conn, a).unwrap();
    assert_eq!(random_recipe(&conn), Ok(Some(c)));
}

#[test]
fn initialize_twice_keeps_what_is_stored() {
    let mut conn = open();
    let id = new_recipe(&mut conn, soup()).unwrap();
    assert_eq!(initialize(&conn), Ok(()));
    assert_eq!(get_recipe(&conn, id), Ok(Some(recipe("Soup", &["leek", "carrot"], "boil"))));
}

#[test]
fn without_tables_every_operation_is_unavailable() {
    let mut conn = Connection::open_in_memory().unwrap();
    assert_eq!(new_recipe(&mut conn, soup()), Err(StoreError::StoreUnavailable));
    assert_eq!(update_recipe(&mut conn, 1, soup()), Err(StoreError::StoreUnavailable));
    assert_eq!(delete_recipe(&mut conn, 1), Err(StoreError::StoreUnavailable));
    assert_eq!(get_recipe(&conn, 1), Err(StoreError::StoreUnavailable));
    assert_eq!(list_recipes(&conn), Err(StoreError::StoreUnavailable));
    assert_eq!(random_recipe(&conn), Err(StoreError::StoreUnavailable));
    assert!(conn.is_autocommit());
}

#[test]
fn initialize_on_a_read_only_database_is_unavailable() {
    let conn = Connection::open_in_memory().unwrap();
    conn.execute_batch("PRAGMA query_only = ON;").unwrap();
    assert_eq!(initialize(&conn), Err(StoreError::StoreUnavailable));
}

#[test]
fn failed_ingredient_insert_rolls_the_recipe_back() {
    let mut conn = open();
    conn.execute_batch(
        "CREATE TRIGGER no_salt BEFORE INSERT ON ingredients WHEN NEW.ingredient = 'salt'
         BEGIN SELECT RAISE(ABORT, 'no salt'); END;",
    )
    .unwrap();
    assert_eq!(new_recipe(&mut conn, raw("Salty", "leek\nsalt", "boil")), Err(StoreError::StoreUnavailable));
    assert_eq!(count(&conn, "recipes"), 0);
    assert_eq!(count(&conn, "ingredients"), 0);
    assert!(conn.is_autocommit());
    let id = new_recipe(&mut conn, soup()).unwrap();
    assert_eq!(
        update_recipe(&mut conn, id, raw("Soup v2", "salt", "simmer")),
        Err(StoreError::StoreUnavailable)
    );
    assert_eq!(get_recipe(&conn, id), Ok(Some(recipe("Soup", &["leek", "carrot"], "boil"))));
}

#[test]
fn insert_that_changes_no_row_is_an_invariant_violation() {
    let mut conn = Connection::open_in_memory().unwrap();
    conn.execute_batch(
        "CREATE TABLE kept (id INTEGER PRIMARY KEY, title TEXT, instructions TEXT);
         CREATE VIEW recipes AS SELECT id, title, instructions FROM kept;
         CREATE TRIGGER swallow INSTEAD OF INSERT ON recipes BEGIN SELECT 1; END;
         CREATE TABLE ingredients (id INTEGER PRIMARY KEY, recipe INTEGER, ingredient TEXT);",
    )
    .unwrap();
    assert_eq!(new_recipe(&mut conn, soup()), Err(StoreError::InvariantViolation));
    assert_eq!(count(&conn, "ingredients"), 0);
    assert!(conn.is_autocommit());
}

#[test]
fn update_that_changes_two_rows_is_an_invariant_violation() {
    let mut conn = Connection::open_in_memory().unwrap();
    conn.execute_batch(
        "CREATE TABLE recipes (id INTEGER, title TEXT, instructions TEXT);
         CREATE TABLE ingredients (id INTEGER PRIMARY KEY, recipe INTEGER, ingredient TEXT);
         INSERT INTO recipes VALUES (5, 'one', 'x');
         INSERT INTO recipes VALUES (5, 'two', 'y');
         INSERT INTO ingredients (recipe, ingredient) VALUES (5, 'old');",
    )
    .unwrap();
    assert_eq!(update_recipe(&mut conn, 5, soup()), Err(StoreError::InvariantViolation));
    assert_eq!(delete_recipe(&mut conn, 5), Err(StoreError::InvariantViolation));
    let titles: Vec<String> = conn
        .prepare("SELECT title FROM recipes ORDER BY title")
        .unwrap()
        .query_map((), |row| row.get(0))
        .unwrap()
        .map(|title| title.unwrap())
        .collect();
    assert_eq!(titles, vec!["one".to_string(), "two".to_string()]);
    assert_eq!(count(&conn, "ingredients"), 1);
}

#[test]
fn a_row_without_a_title_is_unavailable() {
    let conn = open();
    conn.execute_batch("INSERT INTO recipes (id, title, instructions) VALUES (3, NULL, 'x');").unwrap();
    assert_eq!(get_recipe(&conn, 3), Err(StoreError::StoreUnavailable));
    assert_eq!(list_recipes(&conn), Err(StoreError::StoreUnavailable));
    assert_eq!(random_recipe(&conn), Ok(Some(3)));
}

#[test]
fn a_written_recipe_is_seen_by_another_connection() {
    let name = "file:recipe_store_shared?mode=memory&cache=shared";
    let mut writer = Connection::open(name).unwrap();
    initialize(&writer).unwrap();
    let reader = Connection::open(name).unwrap();
    let id = new_recipe(&mut writer, soup()).unwrap();
    assert_eq!(get_recipe(&reader, id), Ok(Some(recipe("Soup", &["leek", "carrot"], "boil"))));
    assert_eq!(delete_recipe(&mut writer, id), Ok(()));
    assert_eq!(get_recipe(&reader, id), Ok(None));
}
