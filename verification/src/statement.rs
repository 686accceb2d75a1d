//! The statements by which the store changes rows, and what it hands to the
//! engine for each: the text, the values bound to its placeholders, and the
//! row count that it takes for success.

use crate::ingredients::{ingredient_lines, parse_ingredients};
use crate::recipe::{RawRecipe, RawRecipeView, StoreError};
use vstd::prelude::*;

verus! {

/// Creates the two tables where they do not exist. A recipe's id is never
/// given out a second time, and an ingredient row names its recipe.
pub const CREATE_TABLES: &'static str = "
    BEGIN;
    CREATE TABLE IF NOT EXISTS recipes (
        id INTEGER PRIMARY KEY AUTOINCREMENT,
        title TEXT,
        instructions TEXT
    );
    CREATE TABLE IF NOT EXISTS ingredients (
        id INTEGER PRIMARY KEY,
        recipe INTEGER,
        ingredient TEXT,
        FOREIGN KEY(recipe) REFERENCES recipes(id)
    );
    COMMIT;
";

/// Adds a recipe's row; the engine gives it its id.
pub const INSERT_RECIPE: &'static str =
    "INSERT INTO recipes (title, instructions) VALUES (?1, ?2);";

pub const INSERT_INGREDIENT: &'static str =
    "INSERT INTO ingredients (recipe, ingredient) VALUES (?1, ?2);";

pub const DELETE_INGREDIENTS: &'static str = "DELETE FROM ingredients WHERE recipe = (?1);";

pub const UPDATE_RECIPE: &'static str =
    "UPDATE recipes SET title = ?1, instructions = ?2 WHERE id = ?3;";

pub const DELETE_RECIPE: &'static str = "DELETE FROM recipes WHERE id = (?1);";

/// Reads the title and the instructions of one recipe.
pub const SELECT_RECIPE: &'static str = "SELECT title, instructions FROM recipes WHERE id = (?1);";

/// Reads the ingredient lines of one recipe, the oldest row first.
pub const SELECT_INGREDIENTS: &'static str =
    "SELECT ingredient FROM ingredients WHERE recipe = (?1) ORDER BY id;";

/// Reads the id and the title of every recipe.
pub const SELECT_LISTING: &'static str = "SELECT id, title FROM recipes;";

/// Reads the id of one recipe, picked at random by the engine.
pub const SELECT_RANDOM: &'static str = "SELECT id FROM recipes ORDER BY RANDOM() LIMIT 1;";

/// A value bound to a placeholder of a statement.
#[derive(Debug, Clone, PartialEq, Eq)]
pub enum Param {
    Integer(i64),
    Text(String),
}

pub enum ParamView {
    Integer(i64),
    Text(Seq<char>),
}

impl View for Param {
    type V = ParamView;

    open spec fn view(&self) -> ParamView {
        match self {
            Param::Integer(n) => ParamView::Integer(*n),
            Param::Text(s) => ParamView::Text(s@),
        }
    }
}

impl DeepView for Param {
    type V = ParamView;

    open spec fn deep_view(&self) -> ParamView {
        self@
    }
}

/// A statement by which the store changes rows.
#[derive(Debug, Clone, PartialEq, Eq)]
pub enum Statement {
    /// Adds the row of a new recipe; the engine gives it its id.
    InsertRecipe { title: String, instructions: String },
    /// Adds one ingredient row to a recipe.
    InsertIngredient { recipe: i64, ingredient: String },
    /// Removes every ingredient row of a recipe.
    DeleteIngredients { recipe: i64 },
    /// Replaces the title and the instructions of a recipe.
    UpdateRecipe { id: i64, title: String, instructions: String },
    /// Removes the row of a recipe.
    DeleteRecipe { id: i64 },
}

pub enum StatementView {
    InsertRecipe { title: Seq<char>, instructions: Seq<char> },
    InsertIngredient { recipe: i64, ingredient: Seq<char> },
    DeleteIngredients { recipe: i64 },
    UpdateRecipe { id: i64, title: Seq<char>, instructions: Seq<char> },
    DeleteRecipe { id: i64 },
}

impl View for Statement {
    type V = StatementView;

    open spec fn view(&self) -> StatementView {
        match self {
            Statement::InsertRecipe { title, instructions } => StatementView::InsertRecipe {
                title: title@,
                instructions: instructions@,
            },
            Statement::InsertIngredient { recipe, ingredient } => StatementView::InsertIngredient {
                recipe: *recipe,
                ingredient: ingredient@,
            },
            Statement::DeleteIngredients { recipe } => StatementView::DeleteIngredients {
                recipe: *recipe,
            },
            Statement::UpdateRecipe { id, title, instructions } => StatementView::UpdateRecipe {
                id: *id,
                title: title@,
                instructions: instructions@,
            },
            Statement::DeleteRecipe { id } => StatementView::DeleteRecipe { id: *id },
        }
    }
}

impl DeepView for Statement {
    type V = StatementView;

    open spec fn deep_view(&self) -> StatementView {
        self@
    }
}

impl StatementView {
    /// The text handed to the engine.
    pub open spec fn sql(self) -> Seq<char> {
        match self {
            StatementView::InsertRecipe { .. } => INSERT_RECIPE@,
            StatementView::InsertIngredient { .. } => INSERT_INGREDIENT@,
            StatementView::DeleteIngredients { .. } => DELETE_INGREDIENTS@,
            StatementView::UpdateRecipe { .. } => UPDATE_RECIPE@,
            StatementView::DeleteRecipe { .. } => DELETE_RECIPE@,
        }
    }

    /// The values bound to the placeholders, the first placeholder first.
    pub open spec fn params(self) -> Seq<ParamView> {
        match self {
            StatementView::InsertRecipe { title, instructions } => seq![
                ParamView::Text(title),
                ParamView::Text(instructions),
            ],
            StatementView::InsertIngredient { recipe, ingredient } => seq![
                ParamView::Integer(recipe),
                ParamView::Text(ingredient),
            ],
            StatementView::DeleteIngredients { recipe } => seq![ParamView::Integer(recipe)],
            StatementView::UpdateRecipe { id, title, instructions } => seq![
                ParamView::Text(title),
                ParamView::Text(instructions),
                ParamView::Integer(id),
            ],
            StatementView::DeleteRecipe { id } => seq![ParamView::Integer(id)],
        }
    }

    /// Whether the statement has failed unless it changed exactly one row.
    /// Only the removal of a recipe's ingredients may change any number.
    pub open spec fn exactly_one(self) -> bool {
        !(self is DeleteIngredients)
    }

    /// Whether a count of changed rows is taken for success.
    pub open spec fn accepts(self, changed: int) -> bool {
        self.exactly_one() ==> changed == 1
    }
}

impl Statement {
    pub fn sql(&self) -> (text: &'static str)
        ensures
            text@ == self@.sql(),
    {
        match self {
            Statement::InsertRecipe { .. } => INSERT_RECIPE,
            Statement::InsertIngredient { .. } => INSERT_INGREDIENT,
            Statement::DeleteIngredients { .. } => DELETE_INGREDIENTS,
            Statement::UpdateRecipe { .. } => UPDATE_RECIPE,
            Statement::DeleteRecipe { .. } => DELETE_RECIPE,
        }
    }

    pub fn params(&self) -> (params: Vec<Param>)
        ensures
            params.deep_view() == self@.params(),
    {
        let params = match self {
            Statement::InsertRecipe { title, instructions } => vec![
                Param::Text(title.clone()),
                Param::Text(instructions.clone()),
            ],
            Statement::InsertIngredient { recipe, ingredient } => vec![
                Param::Integer(*recipe),
                Param::Text(ingredient.clone()),
            ],
            Statement::DeleteIngredients { recipe } => vec![Param::Integer(*recipe)],
            Statement::UpdateRecipe { id, title, instructions } => vec![
                Param::Text(title.clone()),
                Param::Text(instructions.clone()),
                Param::Integer(*id),
            ],
            Statement::DeleteRecipe { id } => vec![Param::Integer(*id)],
        };
        assert(params.deep_view() =~= self@.params());
        params
    }

    pub fn exactly_one(&self) -> (b: bool)
        ensures
            b == self@.exactly_one(),
    {
        match self {
            Statement::DeleteIngredients { .. } => false,
            _ => true,
        }
    }
}

/// What the store makes of the engine's answer where the answer is all that
/// matters: what came back where the engine succeeded, and
/// `StoreUnavailable` where it reported a failure.
pub open spec fn answered<T>(outcome: Result<T, rusqlite::Error>) -> Result<T, StoreError> {
    match outcome {
        Ok(answer) => Ok(answer),
        Err(_) => Err(StoreError::StoreUnavailable),
    }
}

pub fn available<T>(outcome: Result<T, rusqlite::Error>) -> (r: Result<T, StoreError>)
    ensures
        r == answered(outcome),
{
    match outcome {
        Ok(answer) => Ok(answer),
        Err(_) => Err(StoreError::StoreUnavailable),
    }
}

/// What the store makes of the engine's answer to a write: a failure of the
/// engine is `StoreUnavailable`, and a count other than one, where exactly
/// one row had to change, is `InvariantViolation`.
pub open spec fn judged(exactly_one: bool, outcome: Result<usize, rusqlite::Error>) -> Result<
    (),
    StoreError,
> {
    match outcome {
        Err(_) => Err(StoreError::StoreUnavailable),
        Ok(changed) => if exactly_one && changed != 1 {
            Err(StoreError::InvariantViolation)
        } else {
            Ok(())
        },
    }
}

pub fn judge(exactly_one: bool, outcome: Result<usize, rusqlite::Error>) -> (verdict: Result<
    (),
    StoreError,
>)
    ensures
        verdict == judged(exactly_one, outcome),
{
    match available(outcome) {
        Err(e) => Err(e),
        Ok(changed) => if exactly_one && changed != 1 {
            Err(StoreError::InvariantViolation)
        } else {
            Ok(())
        },
    }
}

/// What the store makes of a script, given the answer of the engine to each
/// of its statements: the verdict on the first statement whose answer is
/// judged a failure, and success where there is none. The statements after
/// that one are not run, and their answers do not count.
pub open spec fn script_verdict(
    script: Seq<StatementView>,
    answers: Seq<Result<usize, rusqlite::Error>>,
) -> Result<(), StoreError>
    decreases script.len(),
{
    if script.len() == 0 || answers.len() == 0 {
        Ok(())
    } else {
        match judged(script[0].exactly_one(), answers[0]) {
            Err(e) => Err(e),
            Ok(()) => script_verdict(script.drop_first(), answers.drop_first()),
        }
    }
}

/// The verdict on two scripts run one after the other is the verdict on the
/// second, unless the first has failed.
pub proof fn lemma_verdict_of_both(
    first: Seq<StatementView>,
    first_answers: Seq<Result<usize, rusqlite::Error>>,
    second: Seq<StatementView>,
    second_answers: Seq<Result<usize, rusqlite::Error>>,
)
    requires
        first.len() == first_answers.len(),
        second.len() == second_answers.len(),
    ensures
        script_verdict(first + second, first_answers + second_answers) == match script_verdict(
            first,
            first_answers,
        ) {
            Err(e) => Err(e),
            Ok(()) => script_verdict(second, second_answers),
        },
    decreases first.len(),
{
    if first.len() == 0 {
        assert(first + second =~= second);
        assert(first_answers + second_answers =~= second_answers);
    } else {
        assert((first + second).drop_first() =~= first.drop_first() + second);
        assert((first_answers + second_answers).drop_first() =~= first_answers.drop_first()
            + second_answers);
        lemma_verdict_of_both(
            first.drop_first(),
            first_answers.drop_first(),
            second,
            second_answers,
        );
    }
}

/// How a transaction ends.
#[derive(Debug, Clone, Copy, PartialEq, Eq, Structural)]
pub enum Ending {
    Commit,
    Rollback,
}

/// The ending that a verdict calls for: a transaction is committed exactly
/// where every statement of it succeeded.
pub open spec fn ending_of(verdict: Result<(), StoreError>) -> Ending {
    if verdict is Ok {
        Ending::Commit
    } else {
        Ending::Rollback
    }
}

pub fn ending(verdict: &Result<(), StoreError>) -> (e: Ending)
    ensures
        e == ending_of(*verdict),
{
    match verdict {
        Ok(()) => Ending::Commit,
        Err(_) => Ending::Rollback,
    }
}

/// What a transaction comes to, given the verdict on its statements and the
/// answer of the engine to the commit: a verdict of failure stands, and a
/// commit that fails is `StoreUnavailable`.
pub open spec fn settled(
    verdict: Result<(), StoreError>,
    committed: Result<(), rusqlite::Error>,
) -> Result<(), StoreError> {
    match verdict {
        Err(e) => Err(e),
        Ok(()) => answered(committed),
    }
}

/// What a write comes to, given every answer of the engine: whether the
/// transaction could be begun, the answer to each statement of the script,
/// and the answer to the commit.
pub open spec fn written(
    begun: bool,
    script: Seq<StatementView>,
    answers: Seq<Result<usize, rusqlite::Error>>,
    committed: Result<(), rusqlite::Error>,
) -> Result<(), StoreError> {
    if begun {
        settled(script_verdict(script, answers), committed)
    } else {
        Err(StoreError::StoreUnavailable)
    }
}

/// One insertion for each line, in the order of the lines.
pub open spec fn insertion_script(recipe: i64, lines: Seq<Seq<char>>) -> Seq<StatementView> {
    Seq::new(
        lines.len(),
        |i: int| StatementView::InsertIngredient { recipe, ingredient: lines[i] },
    )
}

/// The statements of a creation, where the engine gives the new recipe the
/// id `id`: the recipe's own row goes in first, then its ingredient lines
/// under that id.
pub open spec fn creation_script(id: i64, raw: RawRecipeView) -> Seq<StatementView> {
    seq![StatementView::InsertRecipe { title: raw.title, instructions: raw.instructions }]
        + insertion_script(id, ingredient_lines(raw.ingredients))
}

/// The statements of an update: the recipe's own row is changed first, so
/// that an id without a recipe is found out before anything else is done;
/// then the old ingredients go and the new ones come.
pub open spec fn update_script(id: i64, raw: RawRecipeView) -> Seq<StatementView> {
    seq![
        StatementView::UpdateRecipe { id, title: raw.title, instructions: raw.instructions },
        StatementView::DeleteIngredients { recipe: id },
    ] + insertion_script(id, ingredient_lines(raw.ingredients))
}

/// The statements of a deletion: the ingredients go before the recipe.
pub open spec fn deletion_script(id: i64) -> Seq<StatementView> {
    seq![StatementView::DeleteIngredients { recipe: id }, StatementView::DeleteRecipe { id }]
}

pub fn plan_insertions(recipe: i64, lines: &Vec<String>) -> (script: Vec<Statement>)
    ensures
        script.deep_view() == insertion_script(recipe, lines.deep_view()),
{
    let mut script: Vec<Statement> = Vec::new();
    let mut i: usize = 0;
    while i < lines.len()
        invariant
            i <= lines.len(),
            script.deep_view() == insertion_script(recipe, lines.deep_view().take(i as int)),
        decreases lines.len() - i,
    {
        let ghost before = script.deep_view();
        let ingredient = lines[i].clone();
        assert(ingredient@ == lines.deep_view()[i as int]);
        script.push(Statement::InsertIngredient { recipe, ingredient });
        i = i + 1;
        assert(script.deep_view() =~= before.push(
            StatementView::InsertIngredient { recipe, ingredient: ingredient@ },
        ));
        assert(script.deep_view() =~= insertion_script(recipe, lines.deep_view().take(i as int)));
    }
    assert(lines.deep_view().take(i as int) =~= lines.deep_view());
    script
}

pub fn plan_update(id: i64, raw: &RawRecipe) -> (script: Vec<Statement>)
    ensures
        script.deep_view() == update_script(id, raw@),
{
    let lines = parse_ingredients(raw.ingredients.as_str());
    let mut script: Vec<Statement> = Vec::new();
    script.push(
        Statement::UpdateRecipe {
            id,
            title: raw.title.clone(),
            instructions: raw.instructions.clone(),
        },
    );
    script.push(Statement::DeleteIngredients { recipe: id });
    let mut insertions = plan_insertions(id, &lines);
    script.append(&mut insertions);
    assert(script.deep_view() =~= update_script(id, raw@));
    script
}

pub fn plan_deletion(id: i64) -> (script: Vec<Statement>)
    ensures
        script.deep_view() == deletion_script(id),
{
    let script = vec![Statement::DeleteIngredients { recipe: id }, Statement::DeleteRecipe { id }];
    assert(script.deep_view() =~= deletion_script(id));
    script
}

} // verus!
