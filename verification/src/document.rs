//! The JSON document that holds the collection: one object whose member
//! `recipes` is the list of recipes, each an object with the members `name`,
//! `ingredients` and `instructions`.

use vstd::prelude::*;
use serde_json::Value;
use crate::json::{
    compact_text, distinct_keys, fields_of, json_compact, json_of, json_parse, jsons_of,
    list_value, object_value, parse_value, text_value, value_items, value_member, value_text,
    Json,
};
use crate::recipe::{texts_of, views_of, Recipe, RecipeView};

verus! {

/// The list of strings that a JSON value stands for: it must be a list, and
/// each item a string.
pub open spec fn decode_texts(json: Json) -> Option<Seq<Seq<char>>> {
    match json {
        Json::List(items) => if forall|i: int|
            0 <= i < items.len() ==> (#[trigger] items[i]).text() is Some {
            Some(Seq::new(items.len(), |i: int| items[i].text().unwrap()))
        } else {
            None
        },
        _ => None,
    }
}

/// The recipe that a JSON value stands for: it must be an object with a
/// string under `name` and lists of strings under `ingredients` and
/// `instructions`. Other members are passed over.
pub open spec fn decode_recipe(json: Json) -> Option<RecipeView> {
    match (json.member("name"@), json.member("ingredients"@), json.member("instructions"@)) {
        (Some(name), Some(ingredients), Some(instructions)) => match (
            name.text(),
            decode_texts(ingredients),
            decode_texts(instructions),
        ) {
            (Some(name), Some(ingredients), Some(instructions)) => Some(
                RecipeView { name, ingredients, instructions },
            ),
            _ => None,
        },
        _ => None,
    }
}

/// The recipes that a JSON value stands for: it must be a list, and each item
/// a recipe.
pub open spec fn decode_recipes(json: Json) -> Option<Seq<RecipeView>> {
    match json {
        Json::List(items) => if forall|i: int|
            0 <= i < items.len() ==> decode_recipe(#[trigger] items[i]) is Some {
            Some(Seq::new(items.len(), |i: int| decode_recipe(items[i]).unwrap()))
        } else {
            None
        },
        _ => None,
    }
}

/// The JSON list of strings.
pub open spec fn encode_texts(texts: Seq<Seq<char>>) -> Json {
    Json::List(Seq::new(texts.len(), |i: int| Json::Text(texts[i])))
}

/// The JSON object of a recipe.
pub open spec fn encode_recipe(recipe: RecipeView) -> Json {
    Json::Object(
        Map::empty().insert("name"@, Json::Text(recipe.name)).insert(
            "ingredients"@,
            encode_texts(recipe.ingredients),
        ).insert("instructions"@, encode_texts(recipe.instructions)),
    )
}

/// The JSON list of the recipes, in their order.
pub open spec fn encode_recipes(recipes: Seq<RecipeView>) -> Json {
    Json::List(Seq::new(recipes.len(), |i: int| encode_recipe(recipes[i])))
}

/// The JSON document of a collection.
pub open spec fn encode_document(recipes: Seq<RecipeView>) -> Json {
    Json::Object(Map::empty().insert("recipes"@, encode_recipes(recipes)))
}

/// The three keys of a recipe differ from one another.
pub proof fn lemma_recipe_keys_differ()
    ensures
        "name"@ != "ingredients"@,
        "name"@ != "instructions"@,
        "ingredients"@ != "instructions"@,
{
    reveal_strlit("name");
    reveal_strlit("ingredients");
    reveal_strlit("instructions");
    assert("name"@.len() == 4);
    assert("ingredients"@.len() == 11);
    assert("instructions"@.len() == 12);
}

/// Each field of a list without a repeated key is a member of the object
/// that the list stands for, and the object has no other member.
pub proof fn lemma_fields_of(fields: Seq<(String, Value)>)
    requires
        distinct_keys(fields),
    ensures
        forall|i: int|
            0 <= i < fields.len() ==> fields_of(fields).contains_key((#[trigger] fields[i]).0@)
                && fields_of(fields)[fields[i].0@] == json_of(fields[i].1),
        forall|key: Seq<char>| #[trigger]
            fields_of(fields).contains_key(key) ==> exists|i: int|
                0 <= i < fields.len() && (#[trigger] fields[i]).0@ == key,
{
    assert forall|i: int| 0 <= i < fields.len() implies fields_of(fields).contains_key(
        (#[trigger] fields[i]).0@,
    ) && fields_of(fields)[fields[i].0@] == json_of(fields[i].1) by {
        let key = fields[i].0@;
        let j = choose|j: int| 0 <= j < fields.len() && (#[trigger] fields[j]).0@ == key;
        assert(0 <= j < fields.len() && fields[j].0@ == key);
        if j < i {
            assert(fields[j].0@ != fields[i].0@);
        }
        if i < j {
            assert(fields[i].0@ != fields[j].0@);
        }
    }
}

/// The strings of a JSON list of strings; `None` where the value is no list
/// or an item of it is no string.
pub fn texts_from_value(value: &Value) -> (result: Option<Vec<String>>)
    ensures
        match result {
            Some(texts) => decode_texts(json_of(*value)) == Some(texts_of(texts@)),
            None => decode_texts(json_of(*value)) is None,
        },
{
    match value_items(value) {
        None => None,
        Some(items) => {
            let ghost models = jsons_of(items@);
            let mut texts: Vec<String> = Vec::new();
            let mut i: usize = 0;
            while i < items.len()
                invariant
                    i <= items.len(),
                    texts.len() == i,
                    models == jsons_of(items@),
                    json_of(*value).items() == Some(models),
                    forall|k: int| 0 <= k < i ==> (#[trigger] models[k]).text() == Some(texts[k]@),
                decreases items.len() - i,
            {
                match value_text(&items[i]) {
                    None => {
                        assert(models[i as int].text() is None);
                        return None;
                    },
                    Some(chars) => {
                        assert(models[i as int].text() == Some(chars@));
                        texts.push(chars.to_owned());
                    },
                }
                i += 1;
            }
            assert(texts_of(texts@) =~= Seq::new(models.len(), |k: int| models[k].text().unwrap()));
            Some(texts)
        },
    }
}

/// The recipe of a JSON object; `None` where the value is no object, lacks
/// one of the three members, or holds one of another shape.
pub fn recipe_from_value(value: &Value) -> (result: Option<Recipe>)
    ensures
        match result {
            Some(recipe) => decode_recipe(json_of(*value)) == Some(recipe@),
            None => decode_recipe(json_of(*value)) is None,
        },
{
    let name = match value_member(value, "name") {
        None => { return None; },
        Some(member) => match value_text(member) {
            None => { return None; },
            Some(chars) => chars.to_owned(),
        },
    };
    let ingredients = match value_member(value, "ingredients") {
        None => { return None; },
        Some(member) => match texts_from_value(member) {
            None => { return None; },
            Some(texts) => texts,
        },
    };
    let instructions = match value_member(value, "instructions") {
        None => { return None; },
        Some(member) => match texts_from_value(member) {
            None => { return None; },
            Some(texts) => texts,
        },
    };
    Some(Recipe { name, ingredients, instructions })
}

/// The recipes of a JSON list; `None` where the value is no list or an item
/// of it is no recipe.
pub fn recipes_from_value(value: &Value) -> (result: Option<Vec<Recipe>>)
    ensures
        match result {
            Some(recipes) => decode_recipes(json_of(*value)) == Some(views_of(recipes@)),
            None => decode_recipes(json_of(*value)) is None,
        },
{
    match value_items(value) {
        None => None,
        Some(items) => {
            let ghost models = jsons_of(items@);
            let mut recipes: Vec<Recipe> = Vec::new();
            let mut i: usize = 0;
            while i < items.len()
                invariant
                    i <= items.len(),
                    recipes.len() == i,
                    models == jsons_of(items@),
                    json_of(*value).items() == Some(models),
                    forall|k: int|
                        0 <= k < i ==> decode_recipe(#[trigger] models[k]) == Some(recipes[k]@),
                decreases items.len() - i,
            {
                match recipe_from_value(&items[i]) {
                    None => {
                        assert(decode_recipe(models[i as int]) is None);
                        return None;
                    },
                    Some(recipe) => {
                        assert(decode_recipe(models[i as int]) == Some(recipe@));
                        recipes.push(recipe);
                    },
                }
                i += 1;
            }
            assert(views_of(recipes@) =~= Seq::new(
                models.len(),
                |k: int| decode_recipe(models[k]).unwrap(),
            ));
            Some(recipes)
        },
    }
}

/// The JSON list of the given strings.
pub fn texts_to_value(texts: &Vec<String>) -> (result: Value)
    ensures
        json_of(result) == encode_texts(texts_of(texts@)),
{
    let mut items: Vec<Value> = Vec::new();
    let mut i: usize = 0;
    while i < texts.len()
        invariant
            i <= texts.len(),
            items.len() == i,
            forall|k: int| 0 <= k < i ==> json_of(#[trigger] items[k]) == Json::Text(texts[k]@),
        decreases texts.len() - i,
    {
        items.push(text_value(texts[i].clone()));
        i += 1;
    }
    assert(jsons_of(items@) =~= Seq::new(
        texts_of(texts@).len(),
        |k: int| Json::Text(texts_of(texts@)[k]),
    ));
    list_value(items)
}

/// The JSON object of the given recipe.
pub fn recipe_to_value(recipe: &Recipe) -> (result: Value)
    ensures
        json_of(result) == encode_recipe(recipe@),
{
    let mut fields: Vec<(String, Value)> = Vec::new();
    fields.push(("name".to_owned(), text_value(recipe.name.clone())));
    fields.push(("ingredients".to_owned(), texts_to_value(&recipe.ingredients)));
    fields.push(("instructions".to_owned(), texts_to_value(&recipe.instructions)));
    proof {
        lemma_recipe_keys_differ();
        assert(fields@[0].0@ == "name"@);
        assert(fields@[1].0@ == "ingredients"@);
        assert(fields@[2].0@ == "instructions"@);
        lemma_fields_of(fields@);
        let built = fields_of(fields@);
        let wanted = encode_recipe(recipe@)->Object_0;
        assert forall|key: Seq<char>| built.contains_key(key) == wanted.contains_key(key) by {
            if built.contains_key(key) {
                let i = choose|i: int| 0 <= i < fields@.len() && (#[trigger] fields@[i]).0@ == key;
                assert(i == 0 || i == 1 || i == 2);
            }
        }
        assert(built =~= wanted);
    }
    object_value(fields)
}

/// The JSON list of the given recipes, in their order.
pub fn recipes_to_value(recipes: &Vec<Recipe>) -> (result: Value)
    ensures
        json_of(result) == encode_recipes(views_of(recipes@)),
{
    let mut items: Vec<Value> = Vec::new();
    let mut i: usize = 0;
    while i < recipes.len()
        invariant
            i <= recipes.len(),
            items.len() == i,
            forall|k: int| 0 <= k < i ==> json_of(#[trigger] items[k]) == encode_recipe(recipes[k]@),
        decreases recipes.len() - i,
    {
        items.push(recipe_to_value(&recipes[i]));
        i += 1;
    }
    assert(jsons_of(items@) =~= Seq::new(
        views_of(recipes@).len(),
        |k: int| encode_recipe(views_of(recipes@)[k]),
    ));
    list_value(items)
}

/// The JSON object with one member.
pub fn object_of_one(key: &str, member: Value) -> (result: Value)
    ensures
        json_of(result) == Json::Object(Map::empty().insert(key@, json_of(member))),
{
    let mut fields: Vec<(String, Value)> = Vec::new();
    fields.push((key.to_owned(), member));
    proof {
        assert(fields@[0].0@ == key@);
        lemma_fields_of(fields@);
        let built = fields_of(fields@);
        let wanted = Map::<Seq<char>, Json>::empty().insert(key@, json_of(member));
        assert forall|other: Seq<char>| built.contains_key(other) == wanted.contains_key(other) by {
            if built.contains_key(other) {
                let i = choose|i: int| 0 <= i < fields@.len() && (#[trigger] fields@[i]).0@ == other;
                assert(i == 0);
            }
        }
        assert(built =~= wanted);
    }
    object_value(fields)
}

/// The JSON document of the given recipes: the object whose one member,
/// `recipes`, is their list.
pub fn document_value(recipes: &Vec<Recipe>) -> (result: Value)
    ensures
        json_of(result) == encode_document(views_of(recipes@)),
{
    object_of_one("recipes", recipes_to_value(recipes))
}

/// The compact text of the member `recipes` of a document. Where the document
/// has no such member, the status of a bad gateway and a message that says
/// so.
pub fn get_recipes_json(json: &Value) -> (result: Result<String, (u16, String)>)
    ensures
        match result {
            Ok(text) => json_of(*json).member("recipes"@) matches Some(list) && text@
                == json_compact(list),
            Err(refusal) => json_of(*json).member("recipes"@) is None && refusal.0 == 502
                && refusal.1@ == "Could not find get top-level \"recipes\" property."@,
        },
{
    match value_member(json, "recipes") {
        Some(list) => Ok(compact_text(list)),
        None => Err((502u16, "Could not find get top-level \"recipes\" property.".to_owned())),
    }
}

/// The compact text of a whole document, given the text that was read from
/// the backing file; `None` where that text is no JSON.
pub fn all_recipes(text: &str) -> (result: Option<String>)
    ensures
        match result {
            Some(compact) => json_parse(text@) matches Some(json) && compact@ == json_compact(json),
            None => json_parse(text@) is None,
        },
{
    match parse_value(text) {
        Ok(value) => Some(compact_text(&value)),
        Err(_) => None,
    }
}

} // verus!
