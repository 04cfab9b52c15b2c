//! The recipe record, what a lookup answers with, and their models.

use vstd::prelude::*;

verus! {

/// A named recipe: what goes in, and the steps in their order.
#[derive(Clone, Debug, PartialEq, Eq)]
pub struct Recipe {
    pub name: String,
    pub ingredients: Vec<String>,
    pub instructions: Vec<String>,
}

/// The model of a [`Recipe`].
pub struct RecipeView {
    pub name: Seq<char>,
    pub ingredients: Seq<Seq<char>>,
    pub instructions: Seq<Seq<char>>,
}

/// What a lookup by name answers with: the ingredients and the number of
/// steps.
#[derive(Clone, Debug, PartialEq, Eq)]
pub struct Details {
    pub ingredients: Vec<String>,
    pub num_steps: usize,
}

/// The model of [`Details`].
pub struct DetailsView {
    pub ingredients: Seq<Seq<char>>,
    pub num_steps: nat,
}

/// The characters of each string of a sequence.
pub open spec fn texts_of(strings: Seq<String>) -> Seq<Seq<char>> {
    Seq::new(strings.len(), |i: int| strings[i]@)
}

/// The models of a sequence of recipes.
pub open spec fn views_of(recipes: Seq<Recipe>) -> Seq<RecipeView> {
    Seq::new(recipes.len(), |i: int| recipes[i]@)
}

impl View for Recipe {
    type V = RecipeView;

    open spec fn view(&self) -> RecipeView {
        RecipeView {
            name: self.name@,
            ingredients: texts_of(self.ingredients@),
            instructions: texts_of(self.instructions@),
        }
    }
}

impl View for Details {
    type V = DetailsView;

    open spec fn view(&self) -> DetailsView {
        DetailsView { ingredients: texts_of(self.ingredients@), num_steps: self.num_steps as nat }
    }
}

impl RecipeView {
    /// What a lookup of this recipe answers with.
    pub open spec fn details(self) -> DetailsView {
        DetailsView { ingredients: self.ingredients, num_steps: self.instructions.len() }
    }
}

/// A copy of a list of strings, character for character.
pub fn copy_texts(strings: &Vec<String>) -> (result: Vec<String>)
    ensures
        texts_of(result@) == texts_of(strings@),
{
    let mut copy: Vec<String> = Vec::new();
    let mut i: usize = 0;
    while i < strings.len()
        invariant
            i <= strings.len(),
            copy.len() == i,
            forall|k: int| 0 <= k < i ==> copy[k]@ == strings[k]@,
        decreases strings.len() - i,
    {
        copy.push(strings[i].clone());
        i += 1;
    }
    assert(texts_of(copy@) =~= texts_of(strings@));
    copy
}

/// Whether two lists of strings hold the same strings in the same order.
pub fn same_texts(left: &Vec<String>, right: &Vec<String>) -> (result: bool)
    ensures
        result == (texts_of(left@) == texts_of(right@)),
{
    if left.len() != right.len() {
        assert(texts_of(left@).len() != texts_of(right@).len());
        return false;
    }
    let mut i: usize = 0;
    while i < left.len()
        invariant
            i <= left.len(),
            left.len() == right.len(),
            forall|k: int| 0 <= k < i ==> left[k]@ == right[k]@,
        decreases left.len() - i,
    {
        if left[i] != right[i] {
            assert(texts_of(left@)[i as int] != texts_of(right@)[i as int]);
            return false;
        }
        i += 1;
    }
    assert(texts_of(left@) =~= texts_of(right@));
    true
}

/// Whether two lists of recipes hold the same recipes in the same order.
pub fn same_recipes(left: &Vec<Recipe>, right: &Vec<Recipe>) -> (result: bool)
    ensures
        result == (views_of(left@) == views_of(right@)),
{
    if left.len() != right.len() {
        assert(views_of(left@).len() != views_of(right@).len());
        return false;
    }
    let mut i: usize = 0;
    while i < left.len()
        invariant
            i <= left.len(),
            left.len() == right.len(),
            forall|k: int| 0 <= k < i ==> left[k]@ == right[k]@,
        decreases left.len() - i,
    {
        if !left[i].same_as(&right[i]) {
            assert(views_of(left@)[i as int] != views_of(right@)[i as int]);
            return false;
        }
        i += 1;
    }
    assert(views_of(left@) =~= views_of(right@));
    true
}

impl Recipe {
    /// Whether this recipe and another have the same name, ingredients and
    /// instructions.
    pub fn same_as(&self, other: &Recipe) -> (result: bool)
        ensures
            result == (self@ == other@),
    {
        self.name == other.name && same_texts(&self.ingredients, &other.ingredients) && same_texts(
            &self.instructions,
            &other.instructions,
        )
    }

    /// The recipe as a short text: its name.
    pub fn to_text(&self) -> (result: String)
        ensures
            result@ == self@.name,
    {
        self.name.clone()
    }

    /// A copy of this recipe.
    pub fn copy(&self) -> (result: Recipe)
        ensures
            result@ == self@,
    {
        Recipe {
            name: self.name.clone(),
            ingredients: copy_texts(&self.ingredients),
            instructions: copy_texts(&self.instructions),
        }
    }

    /// The ingredients of this recipe and the number of its steps.
    pub fn details(&self) -> (result: Details)
        ensures
            result@ == self@.details(),
    {
        let details = Details {
            ingredients: copy_texts(&self.ingredients),
            num_steps: self.instructions.len(),
        };
        assert(texts_of(self.instructions@).len() == self.instructions@.len());
        details
    }
}

} // verus!
