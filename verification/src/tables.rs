//! The two tables as a mathematical value, and what each statement of the
//! store means on it.
//!
//! This is the reading of the statements by which the store is designed:
//! `recipes` has one row for each id, `ingredients` keeps its rows in the
//! order in which they were inserted, and an id that was given out once is
//! never given out again, and no ingredient row stands without its recipe.
//! The engine is not verified against it. What is
//! proved of it, in the sibling file of laws, holds of the scripts that the
//! store hands to the engine, read in this way.

use crate::recipe::{ListedRecipeView, RawRecipeView, RecipeView, StoreError};
use crate::statement::{creation_script, deletion_script, update_script, StatementView};
use vstd::prelude::*;

verus! {

/// A row of `recipes`, without its id.
pub struct RecipeRow {
    pub title: Seq<char>,
    pub instructions: Seq<char>,
}

/// A row of `ingredients`, without its own id.
pub struct IngredientRow {
    pub recipe: i64,
    pub ingredient: Seq<char>,
}

pub struct Tables {
    /// The rows of `recipes`, by id.
    pub recipes: Map<i64, RecipeRow>,
    /// The rows of `ingredients`, the oldest first.
    pub ingredients: Seq<IngredientRow>,
    /// Every id that a recipe has ever had.
    pub issued: Set<i64>,
}

/// The rows that belong to `recipe`.
pub open spec fn is_of(recipe: i64) -> spec_fn(IngredientRow) -> bool {
    |row: IngredientRow| row.recipe == recipe
}

/// The rows that do not belong to `recipe`.
pub open spec fn is_not_of(recipe: i64) -> spec_fn(IngredientRow) -> bool {
    |row: IngredientRow| row.recipe != recipe
}

/// One row of `recipe` for each line, in the order of the lines.
pub open spec fn rows_of(recipe: i64, lines: Seq<Seq<char>>) -> Seq<IngredientRow> {
    Seq::new(lines.len(), |i: int| IngredientRow { recipe, ingredient: lines[i] })
}

impl Tables {
    /// Every id in use was given out, and every ingredient row belongs to a
    /// recipe that exists.
    pub open spec fn consistent(self) -> bool {
        &&& self.recipes.dom().subset_of(self.issued)
        &&& forall|i: int|
            0 <= i < self.ingredients.len() ==> self.recipes.dom().contains(
                #[trigger] self.ingredients[i].recipe,
            )
    }

    /// The ingredient lines of `id`, the oldest first.
    pub open spec fn lines(self, id: i64) -> Seq<Seq<char>> {
        self.ingredients.filter(is_of(id)).map_values(|row: IngredientRow| row.ingredient)
    }

    /// What reading the recipe `id` gives.
    pub open spec fn recipe(self, id: i64) -> Option<RecipeView> {
        if self.recipes.dom().contains(id) {
            Some(
                RecipeView {
                    title: self.recipes[id].title,
                    ingredients: self.lines(id),
                    instructions: self.recipes[id].instructions,
                },
            )
        } else {
            None
        }
    }

    /// The catalog: the title of every recipe, by id.
    pub open spec fn listing(self) -> Map<i64, Seq<char>> {
        self.recipes.map_values(|row: RecipeRow| row.title)
    }

    /// Whether `entries` lists the catalog: one entry for each recipe, with
    /// its id and title, in any order.
    pub open spec fn lists(self, entries: Seq<ListedRecipeView>) -> bool {
        &&& forall|i: int|
            0 <= i < entries.len() ==> self.listing().contains_pair(
                (#[trigger] entries[i]).id,
                entries[i].title,
            )
        &&& forall|id: i64| #[trigger]
            self.listing().dom().contains(id) ==> exists|i: int|
                0 <= i < entries.len() && (#[trigger] entries[i]).id == id
        &&& forall|i: int, j: int|
            0 <= i < j < entries.len() ==> (#[trigger] entries[i]).id != (#[trigger] entries[j]).id
    }

    /// Whether a random pick may give `picked`: an id of the catalog, or
    /// nothing where the catalog is empty.
    pub open spec fn may_pick(self, picked: Option<i64>) -> bool {
        match picked {
            Some(id) => self.recipes.dom().contains(id),
            None => self.recipes.dom() =~= Set::empty(),
        }
    }

    /// The tables after a recipe row was inserted and the engine gave it
    /// the id `id`.
    pub open spec fn with_recipe(self, id: i64, title: Seq<char>, instructions: Seq<char>) -> Tables {
        Tables {
            recipes: self.recipes.insert(id, RecipeRow { title, instructions }),
            ingredients: self.ingredients,
            issued: self.issued.insert(id),
        }
    }

    /// Whether the engine refuses `statement`. It lets no ingredient row
    /// stand without its recipe: it takes no row for a recipe that does not
    /// exist, and does not remove a recipe that still has rows.
    pub open spec fn refuses(self, statement: StatementView) -> bool {
        match statement {
            StatementView::InsertIngredient { recipe, .. } => !self.recipes.dom().contains(recipe),
            StatementView::DeleteRecipe { id } => self.recipes.dom().contains(id)
                && self.ingredients.filter(is_of(id)).len() > 0,
            _ => false,
        }
    }

    /// The number of rows that `statement` changes, where the engine does
    /// not refuse it.
    pub open spec fn changed(self, statement: StatementView) -> int {
        match statement {
            StatementView::InsertRecipe { .. } => 1,
            StatementView::InsertIngredient { .. } => 1,
            StatementView::DeleteIngredients { recipe } => self.ingredients.filter(
                is_of(recipe),
            ).len() as int,
            StatementView::UpdateRecipe { id, .. } => if self.recipes.dom().contains(id) {
                1
            } else {
                0
            },
            StatementView::DeleteRecipe { id } => if self.recipes.dom().contains(id) {
                1
            } else {
                0
            },
        }
    }

    /// The tables after `statement`, where the engine does not refuse it.
    /// `fresh` is the id that the engine gives to a recipe row that the
    /// statement inserts.
    pub open spec fn after(self, statement: StatementView, fresh: i64) -> Tables {
        match statement {
            StatementView::InsertRecipe { title, instructions } => self.with_recipe(
                fresh,
                title,
                instructions,
            ),
            StatementView::InsertIngredient { recipe, ingredient } => Tables {
                ingredients: self.ingredients.push(IngredientRow { recipe, ingredient }),
                ..self
            },
            StatementView::DeleteIngredients { recipe } => Tables {
                ingredients: self.ingredients.filter(is_not_of(recipe)),
                ..self
            },
            StatementView::UpdateRecipe { id, title, instructions } => if self.recipes.dom().contains(
                id,
            ) {
                Tables { recipes: self.recipes.insert(id, RecipeRow { title, instructions }), ..self }
            } else {
                self
            },
            StatementView::DeleteRecipe { id } => Tables { recipes: self.recipes.remove(id), ..self },
        }
    }

    /// The tables after the statements of `script`, run in their order in
    /// one transaction, or the error with which the store gives up: the
    /// transaction is then rolled back, and the tables stay as they were.
    /// The error is `StoreUnavailable` where the engine refuses a statement,
    /// and `InvariantViolation` where the store does not accept its count.
    /// `fresh` is the id that the engine gives to a recipe row that the
    /// script inserts.
    pub open spec fn run(self, script: Seq<StatementView>, fresh: i64) -> Result<Tables, StoreError>
        decreases script.len(),
    {
        if script.len() == 0 {
            Ok(self)
        } else if self.refuses(script[0]) {
            Err(StoreError::StoreUnavailable)
        } else if !script[0].accepts(self.changed(script[0])) {
            Err(StoreError::InvariantViolation)
        } else {
            self.after(script[0], fresh).run(script.drop_first(), fresh)
        }
    }

    /// Whether an engine that keeps these tables answers the statements of
    /// `script` with `given`: to each statement, up to the first that
    /// fails, an error where it refuses the statement, and else the number
    /// of rows that the statement changes.
    pub open spec fn answers(
        self,
        script: Seq<StatementView>,
        fresh: i64,
        given: Seq<Result<usize, rusqlite::Error>>,
    ) -> bool
        decreases script.len(),
    {
        &&& given.len() == script.len()
        &&& script.len() > 0 ==> {
            &&& self.refuses(script[0]) ==> given[0] is Err
            &&& !self.refuses(script[0]) ==> given[0] is Ok && given[0].unwrap()
                == self.changed(script[0])
            &&& !self.refuses(script[0]) && script[0].accepts(self.changed(script[0]))
                ==> self.after(script[0], fresh).answers(
                script.drop_first(),
                fresh,
                given.drop_first(),
            )
        }
    }

    /// Whether an engine that keeps these tables answers the reading of
    /// the recipe `id` with `row` and `lines`: with no row where there is
    /// no such recipe, and else with its title and instructions, and with
    /// its ingredient lines, the oldest first.
    pub open spec fn answers_reading(
        self,
        id: i64,
        row: Result<Option<(String, String)>, rusqlite::Error>,
        lines: Result<Vec<String>, rusqlite::Error>,
    ) -> bool {
        match row {
            Err(_) => false,
            Ok(None) => !self.recipes.dom().contains(id),
            Ok(Some(found)) => {
                &&& self.recipes.dom().contains(id)
                &&& found.0@ == self.recipes[id].title
                &&& found.1@ == self.recipes[id].instructions
                &&& lines is Ok
                &&& lines.unwrap().deep_view() == self.lines(id)
            },
        }
    }

    /// The tables after a recipe was created from `raw` and given the id
    /// `id`.
    pub open spec fn created(self, id: i64, raw: RawRecipeView) -> Result<Tables, StoreError> {
        self.run(creation_script(id, raw), id)
    }

    /// The tables after the recipe `id` was updated from `raw`. An update
    /// inserts no recipe row, so that no id is given out.
    pub open spec fn updated(self, id: i64, raw: RawRecipeView) -> Result<Tables, StoreError> {
        self.run(update_script(id, raw), id)
    }

    /// The tables after the recipe `id` was deleted.
    pub open spec fn deleted(self, id: i64) -> Result<Tables, StoreError> {
        self.run(deletion_script(id), id)
    }
}

} // verus!
