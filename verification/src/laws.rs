//! What holds of the collection's operations, taken together.

use vstd::prelude::*;
use crate::document::{
    decode_recipe, decode_recipes, decode_texts, encode_document, encode_recipe, encode_recipes,
    encode_texts, lemma_recipe_keys_differ,
};
use crate::persistence::decode_document;
use crate::json::Json;
use crate::recipe::RecipeView;
use crate::store::{
    add_outcome, after_add, after_replace, details_of, has_name, lemma_add_keeps_valid,
    lemma_names_once, lemma_position_unique, lemma_replace_keeps_valid, names_distinct, names_of,
    position, replace_outcome, valid_collection, StoreError,
};

verus! {

/// The collection after a run of attempts to add, one after the other.
pub open spec fn after_adds(recipes: Seq<RecipeView>, more: Seq<RecipeView>) -> Seq<RecipeView>
    decreases more.len(),
{
    if more.len() == 0 {
        recipes
    } else {
        after_add(after_adds(recipes, more.drop_last()), more.last())
    }
}

/// A recipe that was added is found under its name, with its own
/// ingredients and as many steps as it has instructions.
pub proof fn law_added_is_found(recipes: Seq<RecipeView>, recipe: RecipeView)
    requires
        valid_collection(recipes),
        add_outcome(recipes, recipe) is Ok,
    ensures
        details_of(after_add(recipes, recipe), recipe.name) == Some(recipe.details()),
        recipe.details().ingredients == recipe.ingredients,
        recipe.details().num_steps == recipe.instructions.len(),
{
    let next = after_add(recipes, recipe);
    lemma_add_keeps_valid(recipes, recipe);
    assert(next[recipes.len() as int] == recipe);
    lemma_position_unique(next, recipes.len() as int);
}

/// Adding under a name that is taken is refused as `AlreadyExists` and
/// changes nothing.
pub proof fn law_taken_name_is_refused(recipes: Seq<RecipeView>, recipe: RecipeView)
    requires
        has_name(recipes, recipe.name),
        recipe.name.len() > 0,
    ensures
        add_outcome(recipes, recipe) matches Err(StoreError::AlreadyExists),
        after_add(recipes, recipe) == recipes,
{
}

/// Replacing under a name that is not in the collection is refused as
/// `NotFound` and changes nothing.
pub proof fn law_unknown_name_is_refused(recipes: Seq<RecipeView>, recipe: RecipeView)
    requires
        !has_name(recipes, recipe.name),
        recipe.name.len() > 0,
    ensures
        replace_outcome(recipes, recipe) matches Err(StoreError::NotFound),
        after_replace(recipes, recipe) == recipes,
{
}

/// After a replacement the old entry is gone, the collection is as long as
/// before, and the name leads to the new recipe.
pub proof fn law_replaced_is_found(recipes: Seq<RecipeView>, recipe: RecipeView)
    requires
        valid_collection(recipes),
        replace_outcome(recipes, recipe) is Ok,
    ensures
        !has_name(recipes.remove(position(recipes, recipe.name)), recipe.name),
        after_replace(recipes, recipe).len() == recipes.len(),
        after_replace(recipes, recipe).last() == recipe,
        details_of(after_replace(recipes, recipe), recipe.name) == Some(recipe.details()),
{
    let next = after_replace(recipes, recipe);
    lemma_replace_keeps_valid(recipes, recipe);
    assert(next[recipes.len() - 1] == recipe);
    lemma_position_unique(next, recipes.len() - 1);
}

/// The test that a recipe has another name than the given one.
pub open spec fn other_name(name: Seq<char>) -> spec_fn(RecipeView) -> bool {
    |recipe: RecipeView| recipe.name != name
}

/// Where no recipe has the name, the recipes of another name are all of
/// them.
pub proof fn lemma_others_are_all(recipes: Seq<RecipeView>, name: Seq<char>)
    requires
        !has_name(recipes, name),
    ensures
        recipes.filter(other_name(name)) == recipes,
    decreases recipes.len(),
{
    reveal(Seq::filter);
    if recipes.len() > 0 {
        let front = recipes.drop_last();
        assert(!has_name(front, name)) by {
            if has_name(front, name) {
                let i = choose|i: int| 0 <= i < front.len() && (#[trigger] front[i]).name == name;
                assert(recipes[i].name == name);
            }
        }
        lemma_others_are_all(front, name);
        assert(recipes[recipes.len() - 1].name != name);
        assert(front.push(recipes.last()) =~= recipes);
    }
}

/// In a collection that has the name, the recipes of another name are the
/// collection without the entry of that name, in their old order.
pub proof fn lemma_others_are_the_rest(recipes: Seq<RecipeView>, name: Seq<char>)
    requires
        names_distinct(recipes),
        has_name(recipes, name),
    ensures
        recipes.filter(other_name(name)) == recipes.remove(position(recipes, name)),
    decreases recipes.len(),
{
    reveal(Seq::filter);
    let at = position(recipes, name);
    let end = recipes.len() - 1;
    let front = recipes.drop_last();
    assert forall|i: int, j: int| 0 <= i < j < front.len() implies (#[trigger] front[i]).name
        != (#[trigger] front[j]).name by {
        assert(recipes[i].name != recipes[j].name);
    }
    if recipes.last().name == name {
        lemma_position_unique(recipes, end);
        assert(!has_name(front, name)) by {
            if has_name(front, name) {
                let i = choose|i: int| 0 <= i < front.len() && (#[trigger] front[i]).name == name;
                assert(recipes[i].name != recipes[end].name);
            }
        }
        lemma_others_are_all(front, name);
        assert(recipes.remove(end) =~= front);
    } else {
        assert(at < end);
        assert(front[at].name == name);
        lemma_position_unique(front, at);
        lemma_others_are_the_rest(front, name);
        assert(front.remove(at).push(recipes.last()) =~= recipes.remove(at));
    }
}

/// A replacement that is granted leaves every other recipe as it was and
/// where it stood among the others, and puts the new recipe last.
pub proof fn law_replace_keeps_the_others(recipes: Seq<RecipeView>, recipe: RecipeView)
    requires
        valid_collection(recipes),
        replace_outcome(recipes, recipe) is Ok,
    ensures
        after_replace(recipes, recipe) == recipes.filter(other_name(recipe.name)).push(recipe),
{
    lemma_others_are_the_rest(recipes, recipe.name);
}

/// A replacement that was granted is granted again for the same recipe, and
/// then changes nothing.
pub proof fn law_replace_again_changes_nothing(recipes: Seq<RecipeView>, recipe: RecipeView)
    requires
        valid_collection(recipes),
        replace_outcome(recipes, recipe) is Ok,
    ensures
        replace_outcome(after_replace(recipes, recipe), recipe) is Ok,
        after_replace(after_replace(recipes, recipe), recipe) == after_replace(recipes, recipe),
{
    let next = after_replace(recipes, recipe);
    let end = recipes.len() - 1;
    lemma_replace_keeps_valid(recipes, recipe);
    assert(next[end] == recipe);
    lemma_position_unique(next, end);
    assert(next.remove(end).push(recipe) =~= next);
}

/// Recipes with names of their own, added one after the other, all go in:
/// no addition is refused, and the collection then lists the names it had,
/// followed by theirs, each once.
pub proof fn law_names_after_adds(recipes: Seq<RecipeView>, more: Seq<RecipeView>)
    requires
        valid_collection(recipes + more),
    ensures
        forall|k: int|
            0 <= k < more.len() ==> add_outcome(recipes + more.take(k), #[trigger] more[k]) is Ok,
        after_adds(recipes, more) == recipes + more,
        names_of(after_adds(recipes, more)) == names_of(recipes) + names_of(more),
        names_of(after_adds(recipes, more)).no_duplicates(),
    decreases more.len(),
{
    let all = recipes + more;
    if more.len() == 0 {
        assert(all =~= recipes);
    } else {
        let front = more.drop_last();
        let last = more.last();
        let before = recipes + front;
        assert forall|i: int| 0 <= i < before.len() implies (#[trigger] before[i]) == all[i] by {}
        assert(valid_collection(before)) by {
            assert forall|i: int, j: int| 0 <= i < j < before.len() implies (#[trigger] before[i]).name
                != (#[trigger] before[j]).name by {
                assert(all[i].name != all[j].name);
            }
            assert forall|i: int| 0 <= i < before.len() implies (#[trigger] before[i]).name.len()
                > 0 by {
                assert(all[i].name.len() > 0);
            }
        }
        law_names_after_adds(recipes, front);
        assert(all[all.len() - 1] == last);
        assert(last.name.len() > 0);
        assert(!has_name(before, last.name)) by {
            if has_name(before, last.name) {
                let i = choose|i: int| 0 <= i < before.len() && (#[trigger] before[i]).name == last.name;
                assert(all[i].name != all[all.len() - 1].name);
            }
        }
        assert(before.push(last) =~= all);
        assert forall|k: int| 0 <= k < more.len() implies add_outcome(
            recipes + more.take(k),
            #[trigger] more[k],
        ) is Ok by {
            if k < front.len() {
                assert(front.take(k) =~= more.take(k));
                assert(front[k] == more[k]);
            } else {
                assert(more.take(k) =~= front);
            }
        }
    }
    assert(names_of(all) =~= names_of(recipes) + names_of(more));
    lemma_names_once(all);
}

/// Of two additions under one name, whichever is served first goes in and
/// the other is refused as `AlreadyExists`.
pub proof fn law_one_name_goes_in_once(
    recipes: Seq<RecipeView>,
    first: RecipeView,
    second: RecipeView,
)
    requires
        valid_collection(recipes),
        add_outcome(recipes, first) is Ok,
        second.name == first.name,
    ensures
        add_outcome(after_add(recipes, first), second) matches Err(StoreError::AlreadyExists),
        after_add(after_add(recipes, first), second) == after_add(recipes, first),
{
    let next = after_add(recipes, first);
    assert(next[recipes.len() as int].name == second.name);
}

/// Of two additions under different names, each of which could go in alone,
/// both go in, in whichever order they are served.
pub proof fn law_two_names_both_go_in(
    recipes: Seq<RecipeView>,
    first: RecipeView,
    second: RecipeView,
)
    requires
        valid_collection(recipes),
        add_outcome(recipes, first) is Ok,
        add_outcome(recipes, second) is Ok,
        first.name != second.name,
    ensures
        add_outcome(after_add(recipes, first), second) is Ok,
        has_name(after_add(after_add(recipes, first), second), first.name),
        has_name(after_add(after_add(recipes, first), second), second.name),
{
    let next = after_add(recipes, first);
    assert(!has_name(next, second.name)) by {
        if has_name(next, second.name) {
            let i = choose|i: int| 0 <= i < next.len() && (#[trigger] next[i]).name == second.name;
            if i < recipes.len() {
                assert(recipes[i].name == second.name);
            }
        }
    }
    let both = after_add(next, second);
    assert(both[recipes.len() as int].name == first.name);
    assert(both[recipes.len() as int + 1].name == second.name);
}

/// A list of strings is read back from its JSON list as it was.
pub proof fn law_texts_round_trip(texts: Seq<Seq<char>>)
    ensures
        decode_texts(encode_texts(texts)) == Some(texts),
{
    let items = Seq::new(texts.len(), |i: int| Json::Text(texts[i]));
    assert(Seq::new(items.len(), |i: int| items[i].text().unwrap()) =~= texts);
}

/// A recipe is read back from its JSON object as it was.
pub proof fn law_recipe_round_trip(recipe: RecipeView)
    ensures
        decode_recipe(encode_recipe(recipe)) == Some(recipe),
{
    lemma_recipe_keys_differ();
    law_texts_round_trip(recipe.ingredients);
    law_texts_round_trip(recipe.instructions);
}

/// A collection is read back from its JSON document as it was: what is
/// written out after a change is what a reload finds.
pub proof fn law_document_round_trip(recipes: Seq<RecipeView>)
    requires
        valid_collection(recipes),
    ensures
        decode_recipes(encode_recipes(recipes)) == Some(recipes),
        decode_document(encode_document(recipes)) matches Ok(found) && found == recipes,
{
    let items = Seq::new(recipes.len(), |i: int| encode_recipe(recipes[i]));
    assert forall|i: int| 0 <= i < items.len() implies decode_recipe(#[trigger] items[i]) == Some(
        recipes[i],
    ) by {
        law_recipe_round_trip(recipes[i]);
    }
    assert(Seq::new(items.len(), |i: int| decode_recipe(items[i]).unwrap()) =~= recipes);
}

} // verus!
