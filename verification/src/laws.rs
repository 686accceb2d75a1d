//! What holds of the store's scripts on the tables.

use crate::ingredients::ingredient_lines;
use crate::recipe::{read, reread, stored, ListedRecipeView, RawRecipeView, Recipe, StoreError};
use crate::statement::{
    answered, creation_script, deletion_script, insertion_script, judged, script_verdict,
    update_script, written, StatementView,
};
use crate::tables::{is_not_of, is_of, rows_of, IngredientRow, RecipeRow, Tables};
use vstd::prelude::*;

verus! {

proof fn lemma_filter_all<A>(s: Seq<A>, pred: spec_fn(A) -> bool)
    requires
        forall|i: int| 0 <= i < s.len() ==> pred(#[trigger] s[i]),
    ensures
        s.filter(pred) == s,
    decreases s.len(),
{
    reveal(Seq::filter);
    if s.len() > 0 {
        lemma_filter_all(s.drop_last(), pred);
        assert(s.drop_last().push(s.last()) =~= s);
    }
}

proof fn lemma_filter_none<A>(s: Seq<A>, pred: spec_fn(A) -> bool)
    requires
        forall|i: int| 0 <= i < s.len() ==> !pred(#[trigger] s[i]),
    ensures
        s.filter(pred) == Seq::<A>::empty(),
    decreases s.len(),
{
    reveal(Seq::filter);
    if s.len() > 0 {
        lemma_filter_none(s.drop_last(), pred);
    }
}

/// What a filter keeps was there before, and passes the filter.
proof fn lemma_filter_kept<A>(s: Seq<A>, pred: spec_fn(A) -> bool)
    ensures
        forall|i: int|
            0 <= i < s.filter(pred).len() ==> pred(#[trigger] s.filter(pred)[i]) && s.contains(
                s.filter(pred)[i],
            ),
    decreases s.len(),
{
    reveal(Seq::filter);
    if s.len() > 0 {
        lemma_filter_kept(s.drop_last(), pred);
        let kept = s.drop_last().filter(pred);
        assert forall|i: int| 0 <= i < s.filter(pred).len() implies pred(
            #[trigger] s.filter(pred)[i],
        ) && s.contains(s.filter(pred)[i]) by {
            if i < kept.len() {
                let j = choose|j: int| 0 <= j < s.drop_last().len() && s.drop_last()[j] == kept[i];
                assert(s[j] == kept[i]);
            } else {
                assert(s[s.len() - 1] == s.last());
            }
        }
    }
}

/// Removing the rows of one recipe leaves the rows of another as they were.
proof fn lemma_filter_other(rows: Seq<IngredientRow>, gone: i64, kept: i64)
    requires
        gone != kept,
    ensures
        rows.filter(is_not_of(gone)).filter(is_of(kept)) == rows.filter(is_of(kept)),
    decreases rows.len(),
{
    reveal(Seq::filter);
    if rows.len() > 0 {
        lemma_filter_other(rows.drop_last(), gone, kept);
        let init = rows.drop_last().filter(is_not_of(gone));
        if is_not_of(gone)(rows.last()) {
            assert(init.push(rows.last()).drop_last() =~= init);
        }
    }
}

proof fn lemma_run_concat(t: Tables, a: Seq<StatementView>, b: Seq<StatementView>, fresh: i64)
    ensures
        t.run(a + b, fresh) == match t.run(a, fresh) {
            Ok(u) => u.run(b, fresh),
            Err(e) => Err(e),
        },
    decreases a.len(),
{
    if a.len() == 0 {
        assert(a + b =~= b);
    } else {
        assert((a + b)[0] == a[0]);
        assert((a + b).drop_first() =~= a.drop_first() + b);
        if !t.refuses(a[0]) && a[0].accepts(t.changed(a[0])) {
            lemma_run_concat(t.after(a[0], fresh), a.drop_first(), b, fresh);
        }
    }
}

/// What running a single statement gives.
proof fn lemma_run_one(t: Tables, statement: StatementView, fresh: i64)
    ensures
        t.run(seq![statement], fresh) == if t.refuses(statement) {
            Err::<Tables, StoreError>(StoreError::StoreUnavailable)
        } else if statement.accepts(t.changed(statement)) {
            Ok::<Tables, StoreError>(t.after(statement, fresh))
        } else {
            Err(StoreError::InvariantViolation)
        },
{
    reveal_with_fuel(Tables::run, 2);
    assert(seq![statement].drop_first() =~= Seq::<StatementView>::empty());
}

/// Insertions for a recipe that exists are always accepted, and add their
/// rows at the end.
proof fn lemma_run_insertions(t: Tables, recipe: i64, lines: Seq<Seq<char>>, fresh: i64)
    requires
        t.recipes.dom().contains(recipe),
    ensures
        t.run(insertion_script(recipe, lines), fresh) == Ok::<Tables, StoreError>(
            Tables { ingredients: t.ingredients + rows_of(recipe, lines), ..t },
        ),
    decreases lines.len(),
{
    let script = insertion_script(recipe, lines);
    if lines.len() == 0 {
        assert(t.ingredients + rows_of(recipe, lines) =~= t.ingredients);
    } else {
        let next = t.after(script[0], fresh);
        lemma_run_insertions(next, recipe, lines.drop_first(), fresh);
        assert(script.drop_first() =~= insertion_script(recipe, lines.drop_first()));
        assert(next.ingredients + rows_of(recipe, lines.drop_first()) =~= t.ingredients + rows_of(
            recipe,
            lines,
        ));
    }
}

/// The lines of a recipe after rows of `recipe` were added at the end.
proof fn lemma_lines_added(t: Tables, recipe: i64, lines: Seq<Seq<char>>, id: i64)
    ensures
        (Tables { ingredients: t.ingredients + rows_of(recipe, lines), ..t }).lines(id) == if id
            == recipe {
            t.lines(id) + lines
        } else {
            t.lines(id)
        },
{
    let added = rows_of(recipe, lines);
    Seq::filter_distributes_over_add(t.ingredients, added, is_of(id));
    if id == recipe {
        lemma_filter_all(added, is_of(id));
        assert((t.ingredients.filter(is_of(id)) + added).map_values(
            |row: IngredientRow| row.ingredient,
        ) =~= t.lines(id) + lines);
    } else {
        lemma_filter_none(added, is_of(id));
        assert(t.ingredients.filter(is_of(id)) + Seq::<IngredientRow>::empty()
            =~= t.ingredients.filter(is_of(id)));
    }
}

/// The lines of a recipe after the rows of `recipe` were removed.
proof fn lemma_lines_removed(t: Tables, recipe: i64, id: i64)
    ensures
        t.after(StatementView::DeleteIngredients { recipe }, id).lines(id) == if id == recipe {
            Seq::<Seq<char>>::empty()
        } else {
            t.lines(id)
        },
{
    let left = t.ingredients.filter(is_not_of(recipe));
    if id == recipe {
        lemma_filter_kept(t.ingredients, is_not_of(recipe));
        lemma_filter_none(left, is_of(id));
        assert(Seq::<IngredientRow>::empty().map_values(|row: IngredientRow| row.ingredient)
            =~= Seq::<Seq<char>>::empty());
    } else {
        lemma_filter_other(t.ingredients, recipe, id);
    }
}

/// The tables that creating a recipe gives.
proof fn lemma_created(t: Tables, id: i64, raw: RawRecipeView)
    ensures
        t.created(id, raw) == Ok::<Tables, StoreError>(
            Tables {
                recipes: t.recipes.insert(
                    id,
                    RecipeRow { title: raw.title, instructions: raw.instructions },
                ),
                ingredients: t.ingredients + rows_of(id, ingredient_lines(raw.ingredients)),
                issued: t.issued.insert(id),
            },
        ),
{
    let lines = ingredient_lines(raw.ingredients);
    let first = StatementView::InsertRecipe { title: raw.title, instructions: raw.instructions };
    lemma_run_concat(t, seq![first], insertion_script(id, lines), id);
    lemma_run_one(t, first, id);
    lemma_run_insertions(t.after(first, id), id, lines, id);
}

/// The tables that updating a recipe gives, where the recipe exists.
proof fn lemma_updated(t: Tables, id: i64, raw: RawRecipeView)
    ensures
        t.updated(id, raw) == if t.recipes.dom().contains(id) {
            Ok::<Tables, StoreError>(
                Tables {
                    recipes: t.recipes.insert(
                        id,
                        RecipeRow { title: raw.title, instructions: raw.instructions },
                    ),
                    ingredients: t.ingredients.filter(is_not_of(id)) + rows_of(
                        id,
                        ingredient_lines(raw.ingredients),
                    ),
                    issued: t.issued,
                },
            )
        } else {
            Err(StoreError::InvariantViolation)
        },
{
    let lines = ingredient_lines(raw.ingredients);
    let first = StatementView::UpdateRecipe {
        id,
        title: raw.title,
        instructions: raw.instructions,
    };
    let second = StatementView::DeleteIngredients { recipe: id };
    assert(seq![first, second] =~= seq![first] + seq![second]);
    lemma_run_concat(t, seq![first, second], insertion_script(id, lines), id);
    lemma_run_concat(t, seq![first], seq![second], id);
    lemma_run_one(t, first, id);
    if t.recipes.dom().contains(id) {
        let renamed = t.after(first, id);
        lemma_run_one(renamed, second, id);
        lemma_run_insertions(renamed.after(second, id), id, lines, id);
    }
}

/// The tables that deleting a recipe gives, where the recipe exists.
proof fn lemma_deleted(t: Tables, id: i64)
    ensures
        t.deleted(id) == if t.recipes.dom().contains(id) {
            Ok::<Tables, StoreError>(
                Tables {
                    recipes: t.recipes.remove(id),
                    ingredients: t.ingredients.filter(is_not_of(id)),
                    issued: t.issued,
                },
            )
        } else {
            Err(StoreError::InvariantViolation)
        },
{
    let first = StatementView::DeleteIngredients { recipe: id };
    let second = StatementView::DeleteRecipe { id };
    assert(deletion_script(id) =~= seq![first] + seq![second]);
    lemma_run_concat(t, seq![first], seq![second], id);
    lemma_run_one(t, first, id);
    let cleared = t.after(first, id);
    lemma_run_one(cleared, second, id);
    lemma_filter_kept(t.ingredients, is_not_of(id));
    lemma_filter_none(cleared.ingredients, is_of(id));
}

/// No statement that the engine does not refuse breaks the consistency of
/// the tables: afterwards too, every ingredient row belongs to a recipe
/// that exists, and every id in use was given out.
pub proof fn law_statements_keep_consistency(t: Tables, statement: StatementView, fresh: i64)
    requires
        t.consistent(),
        !t.refuses(statement),
    ensures
        t.after(statement, fresh).consistent(),
{
    let u = t.after(statement, fresh);
    match statement {
        StatementView::DeleteIngredients { recipe } => {
            lemma_filter_kept(t.ingredients, is_not_of(recipe));
        },
        StatementView::DeleteRecipe { id } => {
            assert forall|i: int| 0 <= i < u.ingredients.len() implies u.recipes.dom().contains(
                #[trigger] u.ingredients[i].recipe,
            ) by {
                if t.ingredients[i].recipe == id {
                    t.ingredients.lemma_filter_contains(is_of(id), i);
                }
            }
        },
        _ => {},
    }
}

/// Where the engine answers a statement with a count, the store takes the
/// statement for done exactly where the tables accept that count, and
/// reports an `InvariantViolation` where they do not.
pub proof fn law_count_decides(statement: StatementView, changed: usize)
    ensures
        judged(statement.exactly_one(), Ok(changed)) == if statement.accepts(changed as int) {
            Ok::<(), StoreError>(())
        } else {
            Err(StoreError::InvariantViolation)
        },
{
}

/// Where the engine answers every statement of a script as the tables do,
/// the store's verdict on the script is that of the tables: success where
/// no statement is refused and every count is accepted, `StoreUnavailable`
/// where the first failure is a refusal, and `InvariantViolation` where it
/// is a count.
pub proof fn law_verdict_follows_tables(
    t: Tables,
    script: Seq<StatementView>,
    fresh: i64,
    answers: Seq<Result<usize, rusqlite::Error>>,
)
    requires
        t.answers(script, fresh, answers),
    ensures
        script_verdict(script, answers) == match t.run(script, fresh) {
            Ok(_) => Ok::<(), StoreError>(()),
            Err(e) => Err(e),
        },
    decreases script.len(),
{
    if script.len() > 0 && !t.refuses(script[0]) && script[0].accepts(t.changed(script[0])) {
        law_verdict_follows_tables(
            t.after(script[0], fresh),
            script.drop_first(),
            fresh,
            answers.drop_first(),
        );
    }
}

/// Creating a recipe succeeds, keeps the tables consistent, and makes the
/// new id read as the recipe that the input describes: its title and
/// instructions, and its ingredient lines in their order. Every other id
/// reads as before.
pub proof fn law_create_then_get(t: Tables, id: i64, raw: RawRecipeView, other: i64)
    requires
        t.consistent(),
        !t.issued.contains(id),
        other != id,
    ensures
        t.created(id, raw) is Ok,
        t.created(id, raw).unwrap().consistent(),
        t.created(id, raw).unwrap().recipe(id) == Some(raw.described()),
        t.created(id, raw).unwrap().recipe(other) == t.recipe(other),
        t.created(id, raw).unwrap().issued == t.issued.insert(id),
{
    let lines = ingredient_lines(raw.ingredients);
    lemma_created(t, id, raw);
    lemma_filter_none(t.ingredients, is_of(id));
    lemma_lines_added(t.with_recipe(id, raw.title, raw.instructions), id, lines, id);
    lemma_lines_added(t.with_recipe(id, raw.title, raw.instructions), id, lines, other);
    assert(Seq::<IngredientRow>::empty().map_values(|row: IngredientRow| row.ingredient)
        + lines =~= lines);
}

/// An id that was never given out reads as no recipe.
pub proof fn law_get_unknown(t: Tables, id: i64)
    requires
        t.consistent(),
        !t.issued.contains(id),
    ensures
        t.recipe(id) is None,
{
}

/// Deleting a recipe that exists succeeds and keeps the tables consistent.
/// The id then reads as no recipe and stays given out, and deleting it a
/// second time is an `InvariantViolation`. Every other id reads as before.
pub proof fn law_delete_then_get(t: Tables, id: i64, other: i64)
    requires
        t.consistent(),
        t.recipes.dom().contains(id),
        other != id,
    ensures
        t.deleted(id) is Ok,
        t.deleted(id).unwrap().consistent(),
        t.deleted(id).unwrap().recipe(id) is None,
        t.deleted(id).unwrap().recipe(other) == t.recipe(other),
        t.deleted(id).unwrap().issued == t.issued,
        t.deleted(id).unwrap().deleted(id) == Err::<Tables, StoreError>(
            StoreError::InvariantViolation,
        ),
{
    lemma_deleted(t, id);
    lemma_deleted(t.deleted(id).unwrap(), id);
    lemma_filter_kept(t.ingredients, is_not_of(id));
    lemma_lines_removed(t, id, other);
}

/// Deleting an id that has no recipe is an `InvariantViolation`, and so is
/// updating it.
pub proof fn law_unknown_id_is_a_violation(t: Tables, id: i64, raw: RawRecipeView)
    requires
        !t.recipes.dom().contains(id),
    ensures
        t.deleted(id) == Err::<Tables, StoreError>(StoreError::InvariantViolation),
        t.updated(id, raw) == Err::<Tables, StoreError>(StoreError::InvariantViolation),
{
    lemma_deleted(t, id);
    lemma_updated(t, id, raw);
}

/// Updating a recipe that exists succeeds and keeps the tables consistent.
/// The id then reads as the recipe that the input describes: none of its
/// earlier ingredient lines is left. Every other id reads as before.
pub proof fn law_update_then_get(t: Tables, id: i64, raw: RawRecipeView, other: i64)
    requires
        t.consistent(),
        t.recipes.dom().contains(id),
        other != id,
    ensures
        t.updated(id, raw) is Ok,
        t.updated(id, raw).unwrap().consistent(),
        t.updated(id, raw).unwrap().recipe(id) == Some(raw.described()),
        t.updated(id, raw).unwrap().recipe(other) == t.recipe(other),
        t.updated(id, raw).unwrap().issued == t.issued,
{
    let lines = ingredient_lines(raw.ingredients);
    let cleared = t.after(StatementView::DeleteIngredients { recipe: id }, id);
    lemma_updated(t, id, raw);
    lemma_filter_kept(t.ingredients, is_not_of(id));
    lemma_lines_removed(t, id, id);
    lemma_lines_removed(t, id, other);
    lemma_lines_added(cleared, id, lines, id);
    lemma_lines_added(cleared, id, lines, other);
    assert(Seq::<Seq<char>>::empty() + lines =~= lines);
}

/// The catalog after a write differs from the catalog before it in one
/// entry: creating adds the new id with its title, updating puts the new
/// title at the id, and deleting takes the id out.
pub proof fn law_listing_follows_writes(t: Tables, id: i64, raw: RawRecipeView)
    requires
        t.consistent(),
    ensures
        !t.issued.contains(id) ==> t.created(id, raw).unwrap().listing() == t.listing().insert(
            id,
            raw.title,
        ),
        t.recipes.dom().contains(id) ==> t.updated(id, raw).unwrap().listing()
            == t.listing().insert(id, raw.title),
        t.recipes.dom().contains(id) ==> t.deleted(id).unwrap().listing() == t.listing().remove(id),
{
    lemma_created(t, id, raw);
    lemma_updated(t, id, raw);
    lemma_deleted(t, id);
    if !t.issued.contains(id) {
        assert(t.created(id, raw).unwrap().listing() =~= t.listing().insert(id, raw.title));
    }
    if t.recipes.dom().contains(id) {
        assert(t.updated(id, raw).unwrap().listing() =~= t.listing().insert(id, raw.title));
        assert(t.deleted(id).unwrap().listing() =~= t.listing().remove(id));
    }
}

/// The catalog does not depend on the order in which two recipes were
/// created.
pub proof fn law_listing_ignores_order(
    t: Tables,
    a: i64,
    raw_a: RawRecipeView,
    b: i64,
    raw_b: RawRecipeView,
)
    requires
        t.consistent(),
        !t.issued.contains(a),
        !t.issued.contains(b),
        a != b,
    ensures
        t.created(a, raw_a).unwrap().created(b, raw_b).unwrap().listing() == t.created(
            b,
            raw_b,
        ).unwrap().created(a, raw_a).unwrap().listing(),
{
    law_create_then_get(t, a, raw_a, b);
    law_create_then_get(t, b, raw_b, a);
    law_listing_follows_writes(t, a, raw_a);
    law_listing_follows_writes(t, b, raw_b);
    law_listing_follows_writes(t.created(a, raw_a).unwrap(), b, raw_b);
    law_listing_follows_writes(t.created(b, raw_b).unwrap(), a, raw_a);
    assert(t.listing().insert(a, raw_a.title).insert(b, raw_b.title) =~= t.listing().insert(
        b,
        raw_b.title,
    ).insert(a, raw_a.title));
}

/// Every entry of a list of the catalog is the entry of a recipe that can
/// be read, and carries the title under which its id reads.
pub proof fn law_list_matches_get(t: Tables, entries: Seq<ListedRecipeView>, i: int)
    requires
        t.lists(entries),
        0 <= i < entries.len(),
    ensures
        t.recipe(entries[i].id) is Some,
        t.recipe(entries[i].id).unwrap().title == entries[i].title,
{
}

/// A random pick on an empty catalog gives nothing, and on any other
/// catalog the id of one of the entries of its list.
pub proof fn law_pick_is_listed(t: Tables, entries: Seq<ListedRecipeView>, picked: Option<i64>)
    requires
        t.lists(entries),
        t.may_pick(picked),
    ensures
        picked is None <==> entries.len() == 0,
        picked is Some ==> exists|i: int|
            0 <= i < entries.len() && (#[trigger] entries[i]).id == picked.unwrap(),
{
    match picked {
        Some(id) => {
            assert(t.listing().dom().contains(id));
        },
        None => {
            if entries.len() > 0 {
                assert(t.listing().contains_pair(entries[0].id, entries[0].title));
                assert(t.recipes.dom().contains(entries[0].id));
            }
        },
    }
}

/// Where the transaction is begun and the engine answers every statement of
/// a script as the tables do, the write comes to what the tables say:
/// the error of the tables where they give one, and else the store's
/// reading of the commit.
pub proof fn law_write_follows_tables(
    t: Tables,
    script: Seq<StatementView>,
    fresh: i64,
    answers: Seq<Result<usize, rusqlite::Error>>,
    committed: Result<(), rusqlite::Error>,
)
    requires
        t.answers(script, fresh, answers),
    ensures
        written(true, script, answers, committed) == match t.run(script, fresh) {
            Ok(_) => answered(committed),
            Err(e) => Err(e),
        },
{
    law_verdict_follows_tables(t, script, fresh, answers);
}

/// Where the engine answers a reading as the tables do, the store reads
/// what the tables hold: no recipe where the id has none, and else the
/// recipe of that id.
pub proof fn law_reading_follows_tables(
    t: Tables,
    id: i64,
    row: Result<Option<(String, String)>, rusqlite::Error>,
    lines: Result<Vec<String>, rusqlite::Error>,
)
    requires
        t.answers_reading(id, row, lines),
    ensures
        read(row, lines) is Ok,
        match read(row, lines).unwrap() {
            None => t.recipe(id) is None,
            Some(recipe) => t.recipe(id) == Some(recipe@),
        },
{
}

/// With an engine that keeps the tables, creating a recipe returns the id
/// that the engine gave, and reading that id then returns the recipe that
/// the input describes.
pub proof fn law_created_recipe_is_read(
    t: Tables,
    id: i64,
    raw: RawRecipeView,
    answers: Seq<Result<usize, rusqlite::Error>>,
    committed: Result<(), rusqlite::Error>,
    row: Result<Option<(String, String)>, rusqlite::Error>,
    lines: Result<Vec<String>, rusqlite::Error>,
)
    requires
        t.consistent(),
        !t.issued.contains(id),
        t.answers(creation_script(id, raw), id, answers),
        committed is Ok,
        t.created(id, raw).unwrap().answers_reading(id, row, lines),
    ensures
        stored(id, written(true, creation_script(id, raw), answers, committed)) == Ok::<
            i64,
            StoreError,
        >(id),
        read(row, lines) matches Ok(Some(recipe)) && recipe@ == raw.described(),
{
    let other: i64 = if id == 0 {
        1
    } else {
        0
    };
    law_create_then_get(t, id, raw, other);
    law_write_follows_tables(t, creation_script(id, raw), id, answers, committed);
    law_reading_follows_tables(t.created(id, raw).unwrap(), id, row, lines);
}

/// With an engine that keeps the tables, updating a recipe that exists
/// returns the recipe that the input describes, where the reading after the
/// write is answered from the tables as the update left them. Updating an
/// id without a recipe is an `InvariantViolation`.
pub proof fn law_updated_recipe_is_returned(
    t: Tables,
    id: i64,
    raw: RawRecipeView,
    answers: Seq<Result<usize, rusqlite::Error>>,
    committed: Result<(), rusqlite::Error>,
    row: Result<Option<(String, String)>, rusqlite::Error>,
    lines: Result<Vec<String>, rusqlite::Error>,
)
    requires
        t.consistent(),
        t.answers(update_script(id, raw), id, answers),
        committed is Ok,
        t.recipes.dom().contains(id) ==> t.updated(id, raw).unwrap().answers_reading(
            id,
            row,
            lines,
        ),
    ensures
        t.recipes.dom().contains(id) ==> (reread(
            written(true, update_script(id, raw), answers, committed),
            read(row, lines),
        ) matches Ok(recipe) && recipe@ == raw.described()),
        !t.recipes.dom().contains(id) ==> reread(
            written(true, update_script(id, raw), answers, committed),
            read(row, lines),
        ) == Err::<Recipe, StoreError>(StoreError::InvariantViolation),
{
    let other: i64 = if id == 0 {
        1
    } else {
        0
    };
    law_write_follows_tables(t, update_script(id, raw), id, answers, committed);
    if t.recipes.dom().contains(id) {
        law_update_then_get(t, id, raw, other);
        law_reading_follows_tables(t.updated(id, raw).unwrap(), id, row, lines);
    } else {
        law_unknown_id_is_a_violation(t, id, raw);
    }
}

/// With an engine that keeps the tables, deleting a recipe that exists
/// succeeds, reading its id then gives no recipe, and deleting it once more
/// is an `InvariantViolation`, as is deleting any id without a recipe.
pub proof fn law_deleted_recipe_is_gone(
    t: Tables,
    id: i64,
    answers: Seq<Result<usize, rusqlite::Error>>,
    committed: Result<(), rusqlite::Error>,
    row: Result<Option<(String, String)>, rusqlite::Error>,
    lines: Result<Vec<String>, rusqlite::Error>,
    again: Seq<Result<usize, rusqlite::Error>>,
)
    requires
        t.consistent(),
        t.answers(deletion_script(id), id, answers),
        committed is Ok,
        t.recipes.dom().contains(id) ==> t.deleted(id).unwrap().answers_reading(id, row, lines),
        t.recipes.dom().contains(id) ==> t.deleted(id).unwrap().answers(
            deletion_script(id),
            id,
            again,
        ),
    ensures
        t.recipes.dom().contains(id) ==> written(true, deletion_script(id), answers, committed)
            == Ok::<(), StoreError>(()),
        t.recipes.dom().contains(id) ==> read(row, lines) == Ok::<Option<Recipe>, StoreError>(None),
        t.recipes.dom().contains(id) ==> written(true, deletion_script(id), again, committed)
            == Err::<(), StoreError>(StoreError::InvariantViolation),
        !t.recipes.dom().contains(id) ==> written(true, deletion_script(id), answers, committed)
            == Err::<(), StoreError>(StoreError::InvariantViolation),
{
    let other: i64 = if id == 0 {
        1
    } else {
        0
    };
    law_write_follows_tables(t, deletion_script(id), id, answers, committed);
    if t.recipes.dom().contains(id) {
        law_delete_then_get(t, id, other);
        let u = t.deleted(id).unwrap();
        law_reading_follows_tables(u, id, row, lines);
        law_write_follows_tables(u, deletion_script(id), id, again, committed);
    } else {
        lemma_deleted(t, id);
    }
}

} // verus!
