//! Recipes and the operations of the store.

use crate::engine;
use crate::ingredients::{ingredient_lines, parse_ingredients};
use crate::statement::{
    answered, available, creation_script, deletion_script, ending, insertion_script, judge,
    judged, lemma_verdict_of_both, plan_deletion, plan_insertions, plan_update, script_verdict,
    settled, update_script, written, Ending, Statement, StatementView, CREATE_TABLES,
    SELECT_INGREDIENTS, SELECT_LISTING, SELECT_RANDOM, SELECT_RECIPE,
};
use rusqlite::{Connection, Transaction};
use vstd::prelude::*;

verus! {

/// A recipe as it is entered: the ingredients are one text, a line each.
#[derive(Debug, Clone, PartialEq, Eq)]
pub struct RawRecipe {
    pub title: String,
    pub ingredients: String,
    pub instructions: String,
}

/// A recipe as it is stored and shown.
#[derive(Debug, Clone, PartialEq, Eq)]
pub struct Recipe {
    pub title: String,
    pub ingredients: Vec<String>,
    pub instructions: String,
}

/// A recipe as the catalog lists it.
#[derive(Debug, Clone, PartialEq, Eq)]
pub struct ListedRecipe {
    pub id: i64,
    pub title: String,
}

/// Why an operation of the store failed.
#[derive(Debug, Clone, Copy, PartialEq, Eq, Structural)]
pub enum StoreError {
    /// A write that must change exactly one row changed none, or several.
    InvariantViolation,
    /// The engine reported a failure.
    StoreUnavailable,
}

pub struct RawRecipeView {
    pub title: Seq<char>,
    pub ingredients: Seq<char>,
    pub instructions: Seq<char>,
}

pub struct RecipeView {
    pub title: Seq<char>,
    pub ingredients: Seq<Seq<char>>,
    pub instructions: Seq<char>,
}

pub struct ListedRecipeView {
    pub id: i64,
    pub title: Seq<char>,
}

impl View for RawRecipe {
    type V = RawRecipeView;

    open spec fn view(&self) -> RawRecipeView {
        RawRecipeView {
            title: self.title@,
            ingredients: self.ingredients@,
            instructions: self.instructions@,
        }
    }
}

impl View for Recipe {
    type V = RecipeView;

    open spec fn view(&self) -> RecipeView {
        RecipeView {
            title: self.title@,
            ingredients: self.ingredients.deep_view(),
            instructions: self.instructions@,
        }
    }
}

impl View for ListedRecipe {
    type V = ListedRecipeView;

    open spec fn view(&self) -> ListedRecipeView {
        ListedRecipeView { id: self.id, title: self.title@ }
    }
}

impl DeepView for ListedRecipe {
    type V = ListedRecipeView;

    open spec fn deep_view(&self) -> ListedRecipeView {
        self@
    }
}

impl RawRecipeView {
    /// The recipe that this input describes.
    pub open spec fn described(self) -> RecipeView {
        RecipeView {
            title: self.title,
            ingredients: ingredient_lines(self.ingredients),
            instructions: self.instructions,
        }
    }
}

/// The catalog entries of the rows of a listing, in their order.
pub open spec fn listed_rows(rows: Seq<(i64, String)>) -> Seq<ListedRecipeView> {
    Seq::new(rows.len(), |i: int| ListedRecipeView { id: rows[i].0, title: rows[i].1@ })
}

/// Turns the rows of a listing into catalog entries.
pub fn listed(rows: Vec<(i64, String)>) -> (entries: Vec<ListedRecipe>)
    ensures
        entries.deep_view() == listed_rows(rows@),
{
    let mut entries: Vec<ListedRecipe> = Vec::new();
    let mut i: usize = 0;
    while i < rows.len()
        invariant
            i <= rows.len(),
            entries.deep_view() == listed_rows(rows@.take(i as int)),
        decreases rows.len() - i,
    {
        let ghost before = entries.deep_view();
        let title = rows[i].1.clone();
        let entry = ListedRecipe { id: rows[i].0, title };
        entries.push(entry);
        i = i + 1;
        assert(entries.deep_view() =~= before.push(entry@));
        assert(entries.deep_view() =~= listed_rows(rows@.take(i as int)));
    }
    assert(rows@.take(i as int) =~= rows@);
    entries
}

/// The recipe that a row of `recipes` and the lines of its ingredient rows
/// make: the row holds the title first and the instructions second.
pub open spec fn assembled(row: (String, String), lines: Vec<String>) -> Recipe {
    Recipe { title: row.0, ingredients: lines, instructions: row.1 }
}

/// Puts a recipe together from what was read of it.
pub fn assemble(row: (String, String), lines: Vec<String>) -> (recipe: Recipe)
    ensures
        recipe == assembled(row, lines),
        recipe@ == (RecipeView {
            title: row.0@,
            ingredients: lines.deep_view(),
            instructions: row.1@,
        }),
{
    Recipe { title: row.0, ingredients: lines, instructions: row.1 }
}

/// What reading a recipe comes to, given the answers of the engine: to the
/// query for the recipe's row, and to the query for its ingredient lines,
/// which is made only where there is a row. No row is no failure.
pub open spec fn read(
    row: Result<Option<(String, String)>, rusqlite::Error>,
    lines: Result<Vec<String>, rusqlite::Error>,
) -> Result<Option<Recipe>, StoreError> {
    match answered(row) {
        Err(e) => Err(e),
        Ok(None) => Ok(None),
        Ok(Some(row)) => match answered(lines) {
            Err(e) => Err(e),
            Ok(lines) => Ok(Some(assembled(row, lines))),
        },
    }
}

/// What an update comes to, given what the write came to and what reading
/// the recipe then gave: a write that failed stands, and a recipe that is
/// not there after its update is an `InvariantViolation`.
pub open spec fn reread(
    done: Result<(), StoreError>,
    found: Result<Option<Recipe>, StoreError>,
) -> Result<Recipe, StoreError> {
    match done {
        Err(e) => Err(e),
        Ok(()) => match found {
            Ok(Some(recipe)) => Ok(recipe),
            Ok(None) => Err(StoreError::InvariantViolation),
            Err(e) => Err(e),
        },
    }
}

/// Concludes an update from what its write came to and what was then read.
pub fn conclude_update(
    done: Result<(), StoreError>,
    found: Result<Option<Recipe>, StoreError>,
) -> (r: Result<Recipe, StoreError>)
    ensures
        r == reread(done, found),
{
    match done {
        Err(e) => Err(e),
        Ok(()) => match found {
            Ok(Some(recipe)) => Ok(recipe),
            Ok(None) => Err(StoreError::InvariantViolation),
            Err(e) => Err(e),
        },
    }
}

/// What a creation comes to, given the id that the engine gave and what the
/// write came to.
pub open spec fn stored(id: i64, done: Result<(), StoreError>) -> Result<i64, StoreError> {
    match done {
        Ok(()) => Ok(id),
        Err(e) => Err(e),
    }
}

/// Concludes a creation from the id given and what its write came to.
pub fn conclude_creation(id: i64, done: Result<(), StoreError>) -> (r: Result<i64, StoreError>)
    ensures
        r == stored(id, done),
{
    match done {
        Ok(()) => Ok(id),
        Err(e) => Err(e),
    }
}

/// Hands one statement to the engine and judges the answer: the result is
/// what `judged` makes of that answer, whatever it is.
fn execute(tx: &Transaction<'_>, statement: &Statement) -> (r: Result<(), StoreError>)
    ensures
        exists|answer: Result<usize, rusqlite::Error>|
            r == #[trigger] judged(statement@.exactly_one(), answer),
{
    let params = statement.params();
    let answer = engine::execute(tx, statement.sql(), &params);
    let ghost seen = answer;
    let r = judge(statement.exactly_one(), answer);
    assert(r == judged(statement@.exactly_one(), seen));
    r
}

/// Hands the statements of `script` to the engine in their order, and stops
/// at the first that fails: the result is the verdict on the script under
/// the answers that the engine gave. A script without statements succeeds.
fn run(tx: &Transaction<'_>, script: &Vec<Statement>) -> (r: Result<(), StoreError>)
    ensures
        exists|answers: Seq<Result<usize, rusqlite::Error>>|
            answers.len() == script.len() && r == #[trigger] script_verdict(
                script.deep_view(),
                answers,
            ),
{
    let mut i: usize = 0;
    let ghost whole = script.deep_view();
    let ghost mut answers: Seq<Result<usize, rusqlite::Error>> = Seq::empty();
    while i < script.len()
        invariant
            i <= script.len(),
            whole == script.deep_view(),
            answers.len() == i,
            script_verdict(whole.take(i as int), answers) == Ok::<(), StoreError>(()),
        decreases script.len() - i,
    {
        let verdict = execute(tx, &script[i]);
        let ghost answer = choose|answer: Result<usize, rusqlite::Error>|
            verdict == judged(script[i as int]@.exactly_one(), answer);
        let ghost rest = Seq::new(
            (script.len() - i - 1) as nat,
            |j: int| Ok::<usize, rusqlite::Error>(1),
        );
        proof {
            let next = seq![whole[i as int]];
            reveal_with_fuel(script_verdict, 2);
            assert(whole[i as int] == script[i as int]@);
            assert(next.drop_first() =~= Seq::<StatementView>::empty());
            assert(script_verdict(next, seq![answer]) == verdict);
            lemma_verdict_of_both(whole.take(i as int), answers, next, seq![answer]);
            assert(whole.take(i as int) + next =~= whole.take(i + 1));
            lemma_verdict_of_both(
                whole.take(i + 1),
                answers + seq![answer],
                whole.skip(i + 1),
                rest,
            );
            assert(whole.take(i + 1) + whole.skip(i + 1) =~= whole);
        }
        match verdict {
            Ok(()) => {},
            Err(e) => {
                assert(Err::<(), StoreError>(e) == script_verdict(
                    whole,
                    answers + seq![answer] + rest,
                ));
                return Err(e);
            },
        }
        proof {
            answers = answers + seq![answer];
        }
        i = i + 1;
    }
    assert(whole.take(i as int) =~= whole);
    Ok(())
}

/// Ends a transaction as `ending` says: commits it where every statement
/// succeeded, and rolls it back where one failed, so that nothing of it
/// stays. The result is what `settled` makes of the verdict and of the
/// engine's answer to the commit.
fn settle(tx: Transaction<'_>, verdict: Result<(), StoreError>) -> (r: Result<(), StoreError>)
    ensures
        exists|committed: Result<(), rusqlite::Error>| r == #[trigger] settled(verdict, committed),
{
    match ending(&verdict) {
        Ending::Commit => {
            let committed = engine::commit(tx);
            let ghost seen = committed;
            let r = available(committed);
            assert(r == settled(verdict, seen));
            r
        },
        Ending::Rollback => {
            let _ = engine::rollback(tx);
            assert(verdict == settled(verdict, Ok::<(), rusqlite::Error>(())));
            verdict
        },
    }
}

/// Creates the two tables where they do not exist yet.
pub fn initialize(conn: &Connection) -> (r: Result<(), StoreError>)
    ensures
        r is Err ==> r == Err::<(), StoreError>(StoreError::StoreUnavailable),
{
    available(engine::execute_batch(conn, CREATE_TABLES))
}

/// Stores a new recipe with its ingredient lines, in one transaction, and
/// returns the id that the engine gave it.
///
/// The recipe's row goes in first, and must be counted as one row; then
/// each ingredient line goes in under the new id. Where any of this fails
/// the transaction is rolled back. The result is what `written` and
/// `stored` make of the engine's answers to the statements of
/// `creation_script`.
pub fn new_recipe(conn: &mut Connection, raw_recipe: RawRecipe) -> (r: Result<i64, StoreError>)
    ensures
        exists|
            begun: bool,
            id: i64,
            answers: Seq<Result<usize, rusqlite::Error>>,
            committed: Result<(), rusqlite::Error>,
        |
            answers.len() == creation_script(id, raw_recipe@).len() && r == stored(
                id,
                #[trigger] written(begun, creation_script(id, raw_recipe@), answers, committed),
            ),
{
    let ghost raw = raw_recipe@;
    let ghost fine = Ok::<(), rusqlite::Error>(());
    let lines = parse_ingredients(raw_recipe.ingredients.as_str());
    let tx = match available(engine::begin(conn)) {
        Ok(tx) => tx,
        Err(e) => {
            let ghost none = Seq::new(
                creation_script(0, raw).len(),
                |j: int| Ok::<usize, rusqlite::Error>(1),
            );
            assert(Err::<i64, StoreError>(e) == stored(
                0,
                written(false, creation_script(0, raw), none, fine),
            ));
            return Err(e);
        },
    };
    let insertion = Statement::InsertRecipe {
        title: raw_recipe.title,
        instructions: raw_recipe.instructions,
    };
    let first = execute(&tx, &insertion);
    let ghost inserted = choose|answer: Result<usize, rusqlite::Error>|
        first == judged(insertion@.exactly_one(), answer);
    proof {
        reveal_with_fuel(script_verdict, 2);
        assert(seq![insertion@].drop_first() =~= Seq::<StatementView>::empty());
        assert(script_verdict(seq![insertion@], seq![inserted]) == first);
    }
    if first.is_err() {
        let done = settle(tx, first);
        proof {
            let committed = choose|committed: Result<(), rusqlite::Error>|
                done == settled(first, committed);
            let rest = insertion_script(0, lines.deep_view());
            let unasked = Seq::new(rest.len(), |j: int| Ok::<usize, rusqlite::Error>(1));
            lemma_verdict_of_both(seq![insertion@], seq![inserted], rest, unasked);
            assert(creation_script(0, raw) =~= seq![insertion@] + rest);
            assert(done == written(
                true,
                creation_script(0, raw),
                seq![inserted] + unasked,
                committed,
            ));
        }
        return conclude_creation(0, done);
    }
    let id = engine::last_insert_rowid(&tx);
    let script = plan_insertions(id, &lines);
    let verdict = run(&tx, &script);
    let ghost rest = choose|answers: Seq<Result<usize, rusqlite::Error>>|
        answers.len() == script.len() && verdict == script_verdict(script.deep_view(), answers);
    let ghost whole = creation_script(id, raw);
    let ghost answers = seq![inserted] + rest;
    proof {
        assert(whole =~= seq![insertion@] + script.deep_view());
        lemma_verdict_of_both(seq![insertion@], seq![inserted], script.deep_view(), rest);
        assert(script_verdict(whole, answers) == verdict);
    }
    let done = settle(tx, verdict);
    let ghost committed = choose|committed: Result<(), rusqlite::Error>|
        done == settled(verdict, committed);
    assert(done == written(true, whole, answers, committed));
    conclude_creation(id, done)
}

/// Replaces the title, the instructions and every ingredient line of a
/// recipe, in one transaction, and returns the recipe as it is then read.
///
/// The recipe's own row is changed first and must be counted as one row, so
/// that an id without a recipe is an `InvariantViolation` and nothing is
/// changed; then the old ingredient lines go and the new ones come. The
/// result is what `written` and `reread` make of the engine's answers to
/// the statements of `update_script` and of the reading that follows.
pub fn update_recipe(conn: &mut Connection, recipe_id: i64, raw_recipe: RawRecipe) -> (r: Result<
    Recipe,
    StoreError,
>)
    ensures
        exists|
            begun: bool,
            answers: Seq<Result<usize, rusqlite::Error>>,
            committed: Result<(), rusqlite::Error>,
            found: Result<Option<Recipe>, StoreError>,
        |
            answers.len() == update_script(recipe_id, raw_recipe@).len() && r == #[trigger] reread(
                written(begun, update_script(recipe_id, raw_recipe@), answers, committed),
                found,
            ),
{
    let ghost whole = update_script(recipe_id, raw_recipe@);
    let ghost fine = Ok::<(), rusqlite::Error>(());
    let ghost nothing = Ok::<Option<Recipe>, StoreError>(None);
    let script = plan_update(recipe_id, &raw_recipe);
    let tx = match available(engine::begin(conn)) {
        Ok(tx) => tx,
        Err(e) => {
            let ghost none = Seq::new(whole.len(), |j: int| Ok::<usize, rusqlite::Error>(1));
            assert(Err::<Recipe, StoreError>(e) == reread(
                written(false, whole, none, fine),
                nothing,
            ));
            return Err(e);
        },
    };
    let verdict = run(&tx, &script);
    let ghost answers = choose|answers: Seq<Result<usize, rusqlite::Error>>|
        answers.len() == script.len() && verdict == script_verdict(script.deep_view(), answers);
    let done = settle(tx, verdict);
    let ghost committed = choose|committed: Result<(), rusqlite::Error>|
        done == settled(verdict, committed);
    assert(done == written(true, whole, answers, committed));
    match done {
        Err(e) => {
            assert(Err::<Recipe, StoreError>(e) == reread(done, nothing));
            Err(e)
        },
        Ok(()) => conclude_update(done, get_recipe(conn, recipe_id)),
    }
}

/// Every recipe of the catalog, in no particular order.
pub fn list_recipes(conn: &Connection) -> (r: Result<Vec<ListedRecipe>, StoreError>)
    ensures
        r is Err ==> r == Err::<Vec<ListedRecipe>, StoreError>(StoreError::StoreUnavailable),
{
    match available(engine::query_integer_text_pairs(conn, SELECT_LISTING)) {
        Ok(rows) => Ok(listed(rows)),
        Err(e) => Err(e),
    }
}

/// The recipe with this id, or `None` where there is none: that is no
/// failure. The result is what `read` makes of the engine's answers.
pub fn get_recipe(conn: &Connection, id: i64) -> (r: Result<Option<Recipe>, StoreError>)
    ensures
        r is Err ==> r == Err::<Option<Recipe>, StoreError>(StoreError::StoreUnavailable),
        exists|
            row: Result<Option<(String, String)>, rusqlite::Error>,
            lines: Result<Vec<String>, rusqlite::Error>,
        |
            r == #[trigger] read(row, lines),
{
    let row = engine::query_text_pair(conn, SELECT_RECIPE, id);
    let ghost seen = row;
    let ghost no_lines: Result<Vec<String>, rusqlite::Error> = arbitrary();
    match available(row) {
        Ok(Some(row)) => {
            let lines = engine::query_texts(conn, SELECT_INGREDIENTS, id);
            let ghost read_lines = lines;
            let r = match available(lines) {
                Ok(lines) => Ok(Some(assemble(row, lines))),
                Err(e) => Err(e),
            };
            assert(r == read(seen, read_lines));
            r
        },
        Ok(None) => {
            assert(Ok::<Option<Recipe>, StoreError>(None) == read(seen, no_lines));
            Ok(None)
        },
        Err(e) => {
            assert(Err::<Option<Recipe>, StoreError>(e) == read(seen, no_lines));
            Err(e)
        },
    }
}

/// Removes a recipe and its ingredient lines, in one transaction.
///
/// The ingredient lines go first, then the recipe's own row, which must be
/// counted as one row: an id without a recipe is an `InvariantViolation`,
/// and nothing is changed. The result is what `written` makes of the
/// engine's answers to the statements of `deletion_script`.
pub fn delete_recipe(conn: &mut Connection, recipe_id: i64) -> (r: Result<(), StoreError>)
    ensures
        exists|
            begun: bool,
            answers: Seq<Result<usize, rusqlite::Error>>,
            committed: Result<(), rusqlite::Error>,
        |
            answers.len() == deletion_script(recipe_id).len() && r == #[trigger] written(
                begun,
                deletion_script(recipe_id),
                answers,
                committed,
            ),
{
    let ghost whole = deletion_script(recipe_id);
    let script = plan_deletion(recipe_id);
    let tx = match available(engine::begin(conn)) {
        Ok(tx) => tx,
        Err(e) => {
            let ghost none = Seq::new(whole.len(), |j: int| Ok::<usize, rusqlite::Error>(1));
            assert(Err::<(), StoreError>(e) == written(
                false,
                whole,
                none,
                Ok::<(), rusqlite::Error>(()),
            ));
            return Err(e);
        },
    };
    let verdict = run(&tx, &script);
    let ghost answers = choose|answers: Seq<Result<usize, rusqlite::Error>>|
        answers.len() == script.len() && verdict == script_verdict(script.deep_view(), answers);
    let done = settle(tx, verdict);
    let ghost committed = choose|committed: Result<(), rusqlite::Error>|
        done == settled(verdict, committed);
    assert(done == written(true, whole, answers, committed));
    done
}

/// The id of a recipe picked at random, or `None` where the catalog is
/// empty.
pub fn random_recipe(conn: &Connection) -> (r: Result<Option<i64>, StoreError>)
    ensures
        r is Err ==> r == Err::<Option<i64>, StoreError>(StoreError::StoreUnavailable),
{
    available(engine::query_integer(conn, SELECT_RANDOM))
}

} // verus!
