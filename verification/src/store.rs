//! The recipe collection: an ordered list of recipes in which no name is
//! empty and none occurs twice, with its four operations.

use vstd::prelude::*;
use crate::recipe::{texts_of, views_of, Details, DetailsView, Recipe, RecipeView};

verus! {

/// Why an operation on the collection was refused.
#[derive(Clone, Copy, Debug, PartialEq, Eq, Structural)]
pub enum StoreError {
    /// The recipe has no name.
    InvalidInput,
    /// A recipe of that name is in the collection already.
    AlreadyExists,
    /// No recipe of that name is in the collection.
    NotFound,
    /// The collection could not be written out.
    PersistenceFailure,
}

/// That some recipe of the collection has this name.
pub open spec fn has_name(recipes: Seq<RecipeView>, name: Seq<char>) -> bool {
    exists|i: int| 0 <= i < recipes.len() && (#[trigger] recipes[i]).name == name
}

/// The place of a recipe with this name, where there is one.
pub open spec fn position(recipes: Seq<RecipeView>, name: Seq<char>) -> int {
    choose|i: int| 0 <= i < recipes.len() && (#[trigger] recipes[i]).name == name
}

/// That no name is empty.
pub open spec fn names_present(recipes: Seq<RecipeView>) -> bool {
    forall|i: int| 0 <= i < recipes.len() ==> (#[trigger] recipes[i]).name.len() > 0
}

/// That no name occurs twice.
pub open spec fn names_distinct(recipes: Seq<RecipeView>) -> bool {
    forall|i: int, j: int|
        0 <= i < j < recipes.len() ==> (#[trigger] recipes[i]).name != (#[trigger] recipes[j]).name
}

/// What holds of every collection: each recipe has a name, and no two share
/// one.
pub open spec fn valid_collection(recipes: Seq<RecipeView>) -> bool {
    names_present(recipes) && names_distinct(recipes)
}

/// The names of a collection, in its order.
pub open spec fn names_of(recipes: Seq<RecipeView>) -> Seq<Seq<char>> {
    Seq::new(recipes.len(), |i: int| recipes[i].name)
}

/// What a lookup by name answers with.
pub open spec fn details_of(recipes: Seq<RecipeView>, name: Seq<char>) -> Option<DetailsView> {
    if has_name(recipes, name) {
        Some(recipes[position(recipes, name)].details())
    } else {
        None
    }
}

/// Whether a recipe may be added: it needs a name, and one that is not taken.
pub open spec fn add_outcome(recipes: Seq<RecipeView>, recipe: RecipeView) -> Result<(), StoreError> {
    if recipe.name.len() == 0 {
        Err(StoreError::InvalidInput)
    } else if has_name(recipes, recipe.name) {
        Err(StoreError::AlreadyExists)
    } else {
        Ok(())
    }
}

/// The collection after an attempt to add: the recipe stands at the end, or
/// nothing has changed.
pub open spec fn after_add(recipes: Seq<RecipeView>, recipe: RecipeView) -> Seq<RecipeView> {
    if add_outcome(recipes, recipe) is Ok {
        recipes.push(recipe)
    } else {
        recipes
    }
}

/// Whether a recipe may take the place of another: it needs a name, and one
/// that is in the collection.
pub open spec fn replace_outcome(recipes: Seq<RecipeView>, recipe: RecipeView) -> Result<(), StoreError> {
    if recipe.name.len() == 0 {
        Err(StoreError::InvalidInput)
    } else if !has_name(recipes, recipe.name) {
        Err(StoreError::NotFound)
    } else {
        Ok(())
    }
}

/// The collection after an attempt to replace: the old entry is gone and the
/// new one stands at the end, or nothing has changed.
pub open spec fn after_replace(recipes: Seq<RecipeView>, recipe: RecipeView) -> Seq<RecipeView> {
    if replace_outcome(recipes, recipe) is Ok {
        recipes.remove(position(recipes, recipe.name)).push(recipe)
    } else {
        recipes
    }
}

/// In a collection without a repeated name, a recipe's name is found at the
/// recipe's own place.
pub proof fn lemma_position_unique(recipes: Seq<RecipeView>, i: int)
    requires
        names_distinct(recipes),
        0 <= i < recipes.len(),
    ensures
        has_name(recipes, recipes[i].name),
        position(recipes, recipes[i].name) == i,
{
    let name = recipes[i].name;
    assert(has_name(recipes, name));
    let j = position(recipes, name);
    assert(0 <= j < recipes.len() && recipes[j].name == name);
    if j < i {
        assert(recipes[j].name != recipes[i].name);
    }
    if i < j {
        assert(recipes[i].name != recipes[j].name);
    }
}

/// The names of a collection are all different.
pub proof fn lemma_names_once(recipes: Seq<RecipeView>)
    requires
        names_distinct(recipes),
    ensures
        names_of(recipes).no_duplicates(),
{
    let names = names_of(recipes);
    assert forall|i: int, j: int| 0 <= i < names.len() && 0 <= j < names.len() && i != j implies names[i]
        != names[j] by {
        if i < j {
            assert(recipes[i].name != recipes[j].name);
        } else {
            assert(recipes[j].name != recipes[i].name);
        }
    }
}

/// An attempt to add leaves a collection a collection.
pub proof fn lemma_add_keeps_valid(recipes: Seq<RecipeView>, recipe: RecipeView)
    requires
        valid_collection(recipes),
    ensures
        valid_collection(after_add(recipes, recipe)),
{
    if add_outcome(recipes, recipe) is Ok {
        let next = recipes.push(recipe);
        assert forall|i: int, j: int| 0 <= i < j < next.len() implies (#[trigger] next[i]).name
            != (#[trigger] next[j]).name by {
            if j == recipes.len() {
                assert(recipes[i].name != recipe.name);
            } else {
                assert(recipes[i].name != recipes[j].name);
            }
        }
        assert forall|i: int| 0 <= i < next.len() implies (#[trigger] next[i]).name.len() > 0 by {
            if i < recipes.len() {
                assert(recipes[i].name.len() > 0);
            }
        }
    }
}

/// An attempt to replace leaves a collection a collection, and where it is
/// granted the name stands at the end and nowhere else.
pub proof fn lemma_replace_keeps_valid(recipes: Seq<RecipeView>, recipe: RecipeView)
    requires
        valid_collection(recipes),
    ensures
        valid_collection(after_replace(recipes, recipe)),
        replace_outcome(recipes, recipe) is Ok ==> {
            &&& 0 <= position(recipes, recipe.name) < recipes.len()
            &&& recipes[position(recipes, recipe.name)].name == recipe.name
            &&& !has_name(recipes.remove(position(recipes, recipe.name)), recipe.name)
        },
{
    if replace_outcome(recipes, recipe) is Ok {
        let at = position(recipes, recipe.name);
        let rest = recipes.remove(at);
        let next = rest.push(recipe);
        assert forall|a: int| 0 <= a < rest.len() implies (#[trigger] rest[a]).name != recipe.name
            && rest[a].name.len() > 0 by {
            let from = if a < at { a } else { a + 1 };
            assert(rest[a] == recipes[from]);
            assert(recipes[from].name.len() > 0);
            if from < at {
                assert(recipes[from].name != recipes[at].name);
            } else {
                assert(recipes[at].name != recipes[from].name);
            }
        }
        assert forall|a: int, b: int| 0 <= a < b < next.len() implies (#[trigger] next[a]).name
            != (#[trigger] next[b]).name by {
            if b == rest.len() {
                assert(rest[a].name != recipe.name);
            } else {
                let from_a = if a < at { a } else { a + 1 };
                let from_b = if b < at { b } else { b + 1 };
                assert(rest[a] == recipes[from_a] && rest[b] == recipes[from_b]);
                assert(recipes[from_a].name != recipes[from_b].name);
            }
        }
        assert forall|a: int| 0 <= a < next.len() implies (#[trigger] next[a]).name.len() > 0 by {
            if a < rest.len() {
                assert(rest[a].name.len() > 0);
            }
        }
    }
}

/// The recipes of the service, in the order in which they were added.
#[derive(Debug)]
pub struct RecipeStore {
    recipes: Vec<Recipe>,
}

impl View for RecipeStore {
    type V = Seq<RecipeView>;

    closed spec fn view(&self) -> Seq<RecipeView> {
        views_of(self.recipes@)
    }
}

impl RecipeStore {
    /// Every store holds a collection: each recipe has a name, and no two
    /// share one.
    #[verifier::type_invariant]
    spec fn holds_collection(&self) -> bool {
        valid_collection(views_of(self.recipes@))
    }

    /// The empty collection.
    pub fn new() -> (result: RecipeStore)
        ensures
            result@ == Seq::<RecipeView>::empty(),
    {
        let store = RecipeStore { recipes: Vec::new() };
        assert(store@ =~= Seq::<RecipeView>::empty());
        store
    }

    /// The number of recipes.
    pub fn len(&self) -> (result: usize)
        ensures
            result == self@.len(),
            valid_collection(self@),
    {
        proof {
            use_type_invariant(self);
        }
        self.recipes.len()
    }

    /// The recipes, in the order of the collection.
    pub fn recipes(&self) -> (result: &Vec<Recipe>)
        ensures
            views_of(result@) == self@,
            valid_collection(self@),
    {
        proof {
            use_type_invariant(self);
        }
        &self.recipes
    }

    /// Where the recipe of this name stands, if there is one.
    fn find(&self, name: &String) -> (result: Option<usize>)
        ensures
            valid_collection(self@),
            match result {
                Some(i) => has_name(self@, name@) && i == position(self@, name@) && i < self@.len(),
                None => !has_name(self@, name@),
            },
    {
        proof {
            use_type_invariant(self);
        }
        let mut i: usize = 0;
        while i < self.recipes.len()
            invariant
                i <= self.recipes.len(),
                valid_collection(self@),
                self@ == views_of(self.recipes@),
                forall|k: int| 0 <= k < i ==> (#[trigger] self@[k]).name != name@,
            decreases self.recipes.len() - i,
        {
            if self.recipes[i].name == *name {
                proof {
                    assert(self@[i as int].name == name@);
                    lemma_position_unique(self@, i as int);
                }
                return Some(i);
            }
            i += 1;
        }
        None
    }

    /// The names of all recipes, in the order of the collection, each once.
    /// The list is empty where the collection is.
    pub fn list_names(&self) -> (result: Vec<String>)
        ensures
            texts_of(result@) == names_of(self@),
            texts_of(result@).no_duplicates(),
            valid_collection(self@),
    {
        proof {
            use_type_invariant(self);
            lemma_names_once(self@);
        }
        let mut names: Vec<String> = Vec::new();
        let mut i: usize = 0;
        while i < self.recipes.len()
            invariant
                i <= self.recipes.len(),
                names.len() == i,
                self@ == views_of(self.recipes@),
                forall|k: int| 0 <= k < i ==> names[k]@ == (#[trigger] self@[k]).name,
            decreases self.recipes.len() - i,
        {
            names.push(self.recipes[i].name.clone());
            i += 1;
        }
        assert(texts_of(names@) =~= names_of(self@));
        names
    }

    /// The ingredients and the number of steps of the recipe of this name.
    /// Where the collection has none of that name the answer is `NotFound`,
    /// never an empty success. Names are compared character by character.
    pub fn get_details(&self, name: &str) -> (result: Result<Details, StoreError>)
        ensures
            valid_collection(self@),
            match result {
                Ok(details) => details_of(self@, name@) == Some(details@),
                Err(error) => error == StoreError::NotFound && details_of(self@, name@) is None,
            },
    {
        let key = name.to_owned();
        match self.find(&key) {
            Some(i) => Ok(self.recipes[i].details()),
            None => Err(StoreError::NotFound),
        }
    }

    /// Adds a recipe at the end of the collection. A recipe without a name is
    /// refused as `InvalidInput`, one whose name is taken as `AlreadyExists`;
    /// the collection is then unchanged. This changes the collection in
    /// memory only: `stage_add` and `commit` are the way to a change that is
    /// written out as well.
    pub fn add(&mut self, recipe: Recipe) -> (result: Result<(), StoreError>)
        ensures
            result == add_outcome(old(self)@, recipe@),
            final(self)@ == after_add(old(self)@, recipe@),
            valid_collection(old(self)@),
            valid_collection(final(self)@),
    {
        proof {
            use_type_invariant(&*self);
        }
        if recipe.name.as_str().is_empty() {
            return Err(StoreError::InvalidInput);
        }
        if self.find(&recipe.name).is_some() {
            return Err(StoreError::AlreadyExists);
        }
        let ghost before = self@;
        let mut taken = RecipeStore::new();
        core::mem::swap(self, &mut taken);
        let mut recipes = taken.recipes;
        recipes.push(recipe);
        proof {
            assert(views_of(recipes@) =~= before.push(recipe@));
            lemma_add_keeps_valid(before, recipe@);
        }
        *self = RecipeStore { recipes };
        Ok(())
    }

    /// Puts a recipe in the place of the one that has its name: the old entry
    /// leaves the collection and the new one stands at its end. A recipe
    /// without a name is refused as `InvalidInput`, one whose name is not in
    /// the collection as `NotFound`; the collection is then unchanged. This
    /// changes the collection in memory only: `stage_replace` and `commit`
    /// are the way to a change that is written out as well.
    pub fn replace(&mut self, recipe: Recipe) -> (result: Result<(), StoreError>)
        ensures
            result == replace_outcome(old(self)@, recipe@),
            final(self)@ == after_replace(old(self)@, recipe@),
            valid_collection(old(self)@),
            valid_collection(final(self)@),
    {
        proof {
            use_type_invariant(&*self);
        }
        if recipe.name.as_str().is_empty() {
            return Err(StoreError::InvalidInput);
        }
        let ghost before = self@;
        match self.find(&recipe.name) {
            None => Err(StoreError::NotFound),
            Some(i) => {
                let mut taken = RecipeStore::new();
                core::mem::swap(self, &mut taken);
                let mut recipes = taken.recipes;
                recipes.remove(i);
                assert(views_of(recipes@) =~= before.remove(i as int));
                recipes.push(recipe);
                proof {
                    assert(views_of(recipes@) =~= before.remove(i as int).push(recipe@));
                    lemma_replace_keeps_valid(before, recipe@);
                }
                *self = RecipeStore { recipes };
                Ok(())
            },
        }
    }

    /// A copy of the collection.
    pub fn snapshot(&self) -> (result: RecipeStore)
        ensures
            result@ == self@,
            valid_collection(self@),
    {
        proof {
            use_type_invariant(self);
        }
        let mut recipes: Vec<Recipe> = Vec::new();
        let mut i: usize = 0;
        while i < self.recipes.len()
            invariant
                i <= self.recipes.len(),
                recipes.len() == i,
                forall|k: int| 0 <= k < i ==> recipes[k]@ == self.recipes[k]@,
            decreases self.recipes.len() - i,
        {
            recipes.push(self.recipes[i].copy());
            i += 1;
        }
        assert(views_of(recipes@) =~= views_of(self.recipes@));
        RecipeStore { recipes }
    }
}

} // verus!
