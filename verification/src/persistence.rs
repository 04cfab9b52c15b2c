//! Loading the collection from the text of its document, and writing a
//! change out before it takes effect.

use vstd::prelude::*;
use serde_json::Value;
use crate::document::{
    decode_recipe, decode_recipes, document_value, encode_document, recipe_from_value,
    recipes_from_value,
};
use crate::json::{json_of, json_parse, json_pretty, parse_value, pretty_text, value_member, Json};
use crate::recipe::{same_recipes, views_of, Recipe, RecipeView};
use crate::store::{
    add_outcome, has_name, names_distinct, names_present, position, replace_outcome,
    valid_collection, RecipeStore, StoreError,
};

verus! {

/// Why a document gives no collection.
#[derive(Clone, Copy, Debug, PartialEq, Eq, Structural)]
pub enum LoadError {
    /// The text is no JSON.
    NotJson,
    /// The document has no member `recipes`.
    MissingCollection,
    /// The member `recipes` is no list of recipes.
    MalformedCollection,
    /// A recipe has no name.
    EmptyName,
    /// Two recipes share a name.
    DuplicateName,
}

/// A list of recipes as a collection: refused where a name is empty, else
/// where a name occurs twice.
pub open spec fn checked(recipes: Seq<RecipeView>) -> Result<Seq<RecipeView>, LoadError> {
    if !names_present(recipes) {
        Err(LoadError::EmptyName)
    } else if !names_distinct(recipes) {
        Err(LoadError::DuplicateName)
    } else {
        Ok(recipes)
    }
}

/// The collection that a JSON document holds.
pub open spec fn decode_document(json: Json) -> Result<Seq<RecipeView>, LoadError> {
    match json.member("recipes"@) {
        None => Err(LoadError::MissingCollection),
        Some(list) => match decode_recipes(list) {
            None => Err(LoadError::MalformedCollection),
            Some(recipes) => checked(recipes),
        },
    }
}

/// The collection that a text holds.
pub open spec fn load_outcome(text: Seq<char>) -> Result<Seq<RecipeView>, LoadError> {
    match json_parse(text) {
        None => Err(LoadError::NotJson),
        Some(json) => decode_document(json),
    }
}

/// That what a load came back with is what `outcome` names: the store of that
/// collection, or that refusal.
pub open spec fn loads_as(
    result: Result<RecipeStore, LoadError>,
    outcome: Result<Seq<RecipeView>, LoadError>,
) -> bool {
    match result {
        Ok(store) => outcome matches Ok(recipes) && recipes == store@,
        Err(error) => outcome matches Err(refusal) && refusal == error,
    }
}

/// That a text holds exactly this collection.
pub open spec fn holds(text: Seq<char>, recipes: Seq<RecipeView>) -> bool {
    load_outcome(text) matches Ok(found) && found == recipes
}

/// The recipe that the text of a request holds, if it holds one with a name.
pub open spec fn recipe_in(text: Seq<char>) -> Option<RecipeView> {
    match json_parse(text) {
        None => None,
        Some(json) => match decode_recipe(json) {
            None => None,
            Some(recipe) => if recipe.name.len() == 0 {
                None
            } else {
                Some(recipe)
            },
        },
    }
}

/// What staging an addition owes. Where the recipe may be added, the
/// collection with the recipe at its end, pending; where it may not, the
/// refusal of the addition.
pub open spec fn staged_add(
    recipes: Seq<RecipeView>,
    recipe: RecipeView,
    result: Result<Pending, StoreError>,
) -> bool {
    match add_outcome(recipes, recipe) {
        Ok(()) => result matches Ok(pending) && pending.collection() == recipes.push(recipe),
        Err(refusal) => result matches Err(error) && error == refusal,
    }
}

/// What staging a replacement owes. Where the recipe may replace another,
/// the collection without the old entry and with the new one at its end,
/// pending; where it may not, the refusal of the replacement.
pub open spec fn staged_replace(
    recipes: Seq<RecipeView>,
    recipe: RecipeView,
    result: Result<Pending, StoreError>,
) -> bool {
    match replace_outcome(recipes, recipe) {
        Ok(()) => result matches Ok(pending) && pending.collection() == recipes.remove(
            position(recipes, recipe.name),
        ).push(recipe),
        Err(refusal) => result matches Err(error) && error == refusal,
    }
}

/// A change that has been worked out and not yet taken effect: the collection
/// as it will be, and the text of its document, which is to be written first.
/// The text is always the document of that very collection.
#[derive(Debug)]
pub struct Pending {
    store: RecipeStore,
    document: String,
}

impl Pending {
    #[verifier::type_invariant]
    spec fn document_of_store(&self) -> bool {
        self.document@ == json_pretty(encode_document(self.store@))
    }

    /// The collection as it will be.
    pub closed spec fn collection(&self) -> Seq<RecipeView> {
        self.store@
    }

    /// The collection as it will be.
    pub fn store(&self) -> (result: &RecipeStore)
        ensures
            result@ == self.collection(),
    {
        &self.store
    }

    /// The text to write to the backing file: the indented document of the
    /// collection as it will be.
    pub fn document(&self) -> (result: &str)
        ensures
            result@ == json_pretty(encode_document(self.collection())),
    {
        proof {
            use_type_invariant(self);
        }
        self.document.as_str()
    }
}

/// What became of an attempt to print a document: its text, or the failure to
/// write the collection out.
pub fn printed(outcome: Result<String, serde_json::Error>) -> (result: Result<String, StoreError>)
    ensures
        match outcome {
            Ok(text) => result matches Ok(same) && same == text,
            Err(_) => result matches Err(StoreError::PersistenceFailure),
        },
{
    match outcome {
        Ok(text) => Ok(text),
        Err(_) => Err(StoreError::PersistenceFailure),
    }
}

/// The recipe that the text of a request holds; `InvalidInput` where the text
/// is no JSON, its value is no recipe, or the recipe has no name. This needs
/// no collection, so a request can be refused before one is looked at.
pub fn parse_recipe(text: &str) -> (result: Result<Recipe, StoreError>)
    ensures
        match result {
            Ok(recipe) => recipe_in(text@) == Some(recipe@),
            Err(error) => error == StoreError::InvalidInput && recipe_in(text@) is None,
        },
{
    match parse_value(text) {
        Err(_) => Err(StoreError::InvalidInput),
        Ok(value) => match recipe_from_value(&value) {
            None => Err(StoreError::InvalidInput),
            Some(recipe) => if recipe.name.as_str().is_empty() {
                Err(StoreError::InvalidInput)
            } else {
                Ok(recipe)
            },
        },
    }
}

impl RecipeStore {
    /// The collection of the given recipes, in their order; refused where a
    /// name is empty or occurs twice.
    pub fn from_recipes(recipes: Vec<Recipe>) -> (result: Result<RecipeStore, LoadError>)
        ensures
            loads_as(result, checked(views_of(recipes@))),
    {
        let ghost views = views_of(recipes@);
        let mut i: usize = 0;
        while i < recipes.len()
            invariant
                i <= recipes.len(),
                views == views_of(recipes@),
                forall|k: int| 0 <= k < i ==> (#[trigger] views[k]).name.len() > 0,
            decreases recipes.len() - i,
        {
            if recipes[i].name.as_str().is_empty() {
                assert(views[i as int].name.len() == 0);
                return Err(LoadError::EmptyName);
            }
            i += 1;
        }
        let mut store = RecipeStore::new();
        let mut j: usize = 0;
        assert(store@ =~= views.take(0));
        while j < recipes.len()
            invariant
                j <= recipes.len(),
                views == views_of(recipes@),
                names_present(views),
                valid_collection(store@),
                store@ == views.take(j as int),
            decreases recipes.len() - j,
        {
            let ghost before = store@;
            let copy = recipes[j].copy();
            assert(copy@ == views[j as int]);
            match store.add(copy) {
                Err(_) => {
                    proof {
                        assert(has_name(before, views[j as int].name));
                        let k = choose|k: int|
                            0 <= k < before.len() && (#[trigger] before[k]).name
                                == views[j as int].name;
                        assert(before[k] == views[k]);
                        assert(views[k].name == views[j as int].name);
                    }
                    return Err(LoadError::DuplicateName);
                },
                Ok(()) => {
                    assert(store@ =~= views.take(j + 1));
                },
            }
            j += 1;
        }
        assert(views.take(j as int) =~= views);
        Ok(store)
    }

    /// The collection that a JSON document holds.
    pub fn from_value(document: &Value) -> (result: Result<RecipeStore, LoadError>)
        ensures
            loads_as(result, decode_document(json_of(*document))),
    {
        match value_member(document, "recipes") {
            None => Err(LoadError::MissingCollection),
            Some(list) => match recipes_from_value(list) {
                None => Err(LoadError::MalformedCollection),
                Some(recipes) => RecipeStore::from_recipes(recipes),
            },
        }
    }

    /// The collection that the text of a backing file holds. It is refused
    /// where the text is no JSON, has no member `recipes`, holds anything but
    /// a list of recipes there, or breaks the rule on names.
    pub fn load(text: &str) -> (result: Result<RecipeStore, LoadError>)
        ensures
            loads_as(result, load_outcome(text@)),
    {
        match parse_value(text) {
            Err(_) => Err(LoadError::NotJson),
            Ok(document) => RecipeStore::from_value(&document),
        }
    }

    /// Whether a text, as read back from the backing file, holds exactly this
    /// collection.
    pub fn mirrors(&self, text: &str) -> (result: bool)
        ensures
            result == holds(text@, self@),
    {
        match RecipeStore::load(text) {
            Err(_) => false,
            Ok(loaded) => same_recipes(loaded.recipes(), self.recipes()),
        }
    }

    /// The JSON document of the collection.
    pub fn to_value(&self) -> (result: Value)
        ensures
            json_of(result) == encode_document(self@),
    {
        document_value(self.recipes())
    }

    /// The indented text of the collection's document, as it is written to
    /// the backing file. Every collection has one.
    pub fn render(&self) -> (result: Result<String, StoreError>)
        ensures
            result matches Ok(text) && text@ == json_pretty(encode_document(self@)),
    {
        let document = self.to_value();
        printed(pretty_text(&document))
    }

    /// Works out the addition of a recipe and leaves the collection as it is:
    /// what comes back is the collection with the recipe at its end, and the
    /// text to write. A recipe that may not be added is refused as `add`
    /// refuses it.
    pub fn stage_add(&self, recipe: Recipe) -> (result: Result<Pending, StoreError>)
        ensures
            staged_add(self@, recipe@, result),
    {
        let mut store = self.snapshot();
        match store.add(recipe) {
            Err(error) => Err(error),
            Ok(()) => match store.render() {
                Err(error) => Err(error),
                Ok(document) => Ok(Pending { store, document }),
            },
        }
    }

    /// Works out the replacement of a recipe and leaves the collection as it
    /// is: what comes back is the collection without the old entry and with
    /// the new one at its end, and the text to write. A recipe that may not
    /// replace another is refused as `replace` refuses it.
    pub fn stage_replace(&self, recipe: Recipe) -> (result: Result<Pending, StoreError>)
        ensures
            staged_replace(self@, recipe@, result),
    {
        let mut store = self.snapshot();
        match store.replace(recipe) {
            Err(error) => Err(error),
            Ok(()) => match store.render() {
                Err(error) => Err(error),
                Ok(document) => Ok(Pending { store, document }),
            },
        }
    }

    /// Ends a change, given the text that was read back from the backing
    /// file after the write, or `None` where the write or the reading failed.
    /// Where the file holds exactly the pending collection, that collection
    /// takes effect: memory and file then agree. In every other case the
    /// collection stays as it was and the failure is reported.
    pub fn commit(&mut self, pending: Pending, read_back: Option<&str>) -> (result: Result<
        (),
        StoreError,
    >)
        ensures
            match result {
                Ok(()) => final(self)@ == pending.collection() && (read_back matches Some(text)
                    && holds(text@, final(self)@)),
                Err(error) => error == StoreError::PersistenceFailure && final(self)@ == old(self)@
                    && !(read_back matches Some(text) && holds(text@, pending.collection())),
            },
    {
        let written = match read_back {
            Some(text) => pending.store.mirrors(text),
            None => false,
        };
        if written {
            *self = pending.store;
            Ok(())
        } else {
            Err(StoreError::PersistenceFailure)
        }
    }
}

} // verus!
