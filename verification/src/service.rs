//! What the service answers to its four requests, and the changes that two
//! of them ask for.

use vstd::prelude::*;
use serde_json::Value;
use crate::document::{encode_texts, lemma_fields_of, object_of_one, texts_to_value};
use crate::json::{count_value, fields_of, json_of, object_value, Json};
use crate::persistence::{parse_recipe, recipe_in, staged_add, staged_replace, Pending};
use crate::recipe::{Details, DetailsView};
use crate::store::{details_of, names_of, RecipeStore, StoreError};

verus! {

/// The answer that lists the names: an object with the names under
/// `recipeNames`.
pub open spec fn names_answer(names: Seq<Seq<char>>) -> Json {
    Json::Object(Map::empty().insert("recipeNames"@, encode_texts(names)))
}

/// The answer that describes a recipe: an object that holds, under `details`,
/// the ingredients and the number of steps.
pub open spec fn details_answer(details: DetailsView) -> Json {
    Json::Object(
        Map::empty().insert(
            "details"@,
            Json::Object(
                Map::empty().insert("ingredients"@, encode_texts(details.ingredients)).insert(
                    "numSteps"@,
                    Json::Integer(details.num_steps as int),
                ),
            ),
        ),
    )
}

/// The JSON object of the details of a recipe.
pub fn details_to_value(details: &Details) -> (result: Value)
    ensures
        json_of(result) == details_answer(details@),
{
    let mut fields: Vec<(String, Value)> = Vec::new();
    fields.push(("ingredients".to_owned(), texts_to_value(&details.ingredients)));
    fields.push(("numSteps".to_owned(), count_value(details.num_steps)));
    proof {
        reveal_strlit("ingredients");
        reveal_strlit("numSteps");
        assert("ingredients"@.len() == 11);
        assert("numSteps"@.len() == 8);
        assert(fields@[0].0@ == "ingredients"@);
        assert(fields@[1].0@ == "numSteps"@);
        lemma_fields_of(fields@);
        let built = fields_of(fields@);
        let wanted = Map::<Seq<char>, Json>::empty().insert(
            "ingredients"@,
            encode_texts(details@.ingredients),
        ).insert("numSteps"@, Json::Integer(details@.num_steps as int));
        assert forall|key: Seq<char>| built.contains_key(key) == wanted.contains_key(key) by {
            if built.contains_key(key) {
                let i = choose|i: int| 0 <= i < fields@.len() && (#[trigger] fields@[i]).0@ == key;
                assert(i == 0 || i == 1);
            }
        }
        assert(built =~= wanted);
    }
    object_of_one("details", object_value(fields))
}

/// The names of all recipes, in the order of the collection, as the answer
/// to a request for them.
pub fn recipe_names(store: &RecipeStore) -> (result: Value)
    ensures
        json_of(result) == names_answer(names_of(store@)),
{
    let names = store.list_names();
    object_of_one("recipeNames", texts_to_value(&names))
}

/// The ingredients and the number of steps of the recipe of this name, as
/// the answer to a request for them; `NotFound` where the collection has no
/// recipe of that name.
pub fn get_recipe_details(store: &RecipeStore, name: &str) -> (result: Result<Value, StoreError>)
    ensures
        match result {
            Ok(answer) => details_of(store@, name@) matches Some(details) && json_of(answer)
                == details_answer(details),
            Err(error) => error == StoreError::NotFound && details_of(store@, name@) is None,
        },
{
    match store.get_details(name) {
        Ok(details) => Ok(details_to_value(&details)),
        Err(error) => Err(error),
    }
}

/// The change that a request to add asks for, given the text of its body:
/// `InvalidInput` where the body holds no recipe, else what `stage_add` makes
/// of the recipe.
pub fn add_recipe(store: &RecipeStore, body: &str) -> (result: Result<Pending, StoreError>)
    ensures
        match recipe_in(body@) {
            None => result matches Err(error) && error == StoreError::InvalidInput,
            Some(recipe) => staged_add(store@, recipe, result),
        },
{
    match parse_recipe(body) {
        Err(error) => Err(error),
        Ok(recipe) => store.stage_add(recipe),
    }
}

/// The change that a request to replace asks for, given the text of its
/// body: `InvalidInput` where the body holds no recipe, else what
/// `stage_replace` makes of the recipe.
pub fn edit_recipe(store: &RecipeStore, body: &str) -> (result: Result<Pending, StoreError>)
    ensures
        match recipe_in(body@) {
            None => result matches Err(error) && error == StoreError::InvalidInput,
            Some(recipe) => staged_replace(store@, recipe, result),
        },
{
    match parse_recipe(body) {
        Err(error) => Err(error),
        Ok(recipe) => store.stage_replace(recipe),
    }
}

} // verus!
