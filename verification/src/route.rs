//! Which of the service's requests a method and a path ask for.

use vstd::prelude::*;
use vstd::string::StrSliceExecFns;

verus! {

/// What a request asks for.
#[derive(Clone, Debug, PartialEq, Eq)]
pub enum Route {
    /// The greeting.
    Index,
    /// The whole backing file.
    AllRecipes,
    /// The names of all recipes.
    RecipeNames,
    /// The details of the recipe of this name.
    RecipeDetails(String),
    /// The addition of the recipe in the body.
    AddRecipe,
    /// The replacement of a recipe by the one in the body.
    EditRecipe,
    /// Nothing that the service offers.
    Unknown,
}

/// The model of a [`Route`].
pub enum RouteView {
    Index,
    AllRecipes,
    RecipeNames,
    RecipeDetails(Seq<char>),
    AddRecipe,
    EditRecipe,
    Unknown,
}

impl View for Route {
    type V = RouteView;

    open spec fn view(&self) -> RouteView {
        match self {
            Route::Index => RouteView::Index,
            Route::AllRecipes => RouteView::AllRecipes,
            Route::RecipeNames => RouteView::RecipeNames,
            Route::RecipeDetails(name) => RouteView::RecipeDetails(name@),
            Route::AddRecipe => RouteView::AddRecipe,
            Route::EditRecipe => RouteView::EditRecipe,
            Route::Unknown => RouteView::Unknown,
        }
    }
}

/// The name in a path that asks for details: what follows
/// `/recipes/details/`, where that is one segment and not empty.
pub open spec fn details_name(path: Seq<char>) -> Option<Seq<char>> {
    let prefix = "/recipes/details/"@;
    let rest = path.subrange(prefix.len() as int, path.len() as int);
    if path.len() > prefix.len() && path.subrange(0, prefix.len() as int) == prefix
        && !rest.contains('/') {
        Some(rest)
    } else {
        None
    }
}

/// What a method and a path ask for. Both are compared character by
/// character.
pub open spec fn route_of(method: Seq<char>, path: Seq<char>) -> RouteView {
    if method == "GET"@ {
        if path == "/"@ {
            RouteView::Index
        } else if path == "/allRecipes"@ {
            RouteView::AllRecipes
        } else if path == "/recipes"@ {
            RouteView::RecipeNames
        } else {
            match details_name(path) {
                Some(name) => RouteView::RecipeDetails(name),
                None => RouteView::Unknown,
            }
        }
    } else if method == "POST"@ && path == "/recipes"@ {
        RouteView::AddRecipe
    } else if method == "PUT"@ && path == "/recipes"@ {
        RouteView::EditRecipe
    } else {
        RouteView::Unknown
    }
}

/// Whether two texts hold the same characters.
fn same_text(left: &str, right: &str) -> (result: bool)
    ensures
        result == (left@ == right@),
{
    left.to_owned() == right.to_owned()
}

/// Whether a text holds a slash.
fn has_slash(text: &str) -> (result: bool)
    ensures
        result == text@.contains('/'),
{
    let length = text.unicode_len();
    let mut i: usize = 0;
    while i < length
        invariant
            i <= length,
            length == text@.len(),
            forall|k: int| 0 <= k < i ==> text@[k] != '/',
        decreases length - i,
    {
        if text.get_char(i) == '/' {
            return true;
        }
        i += 1;
    }
    false
}

/// The name in a path that asks for details, if it is such a path.
pub fn details_name_of(path: &str) -> (result: Option<String>)
    ensures
        match result {
            Some(name) => details_name(path@) == Some(name@),
            None => details_name(path@) is None,
        },
{
    let prefix = "/recipes/details/";
    let length = path.unicode_len();
    let start = prefix.unicode_len();
    if length <= start {
        return None;
    }
    if !same_text(path.substring_char(0, start), prefix) {
        return None;
    }
    let rest = path.substring_char(start, length);
    if has_slash(rest) {
        None
    } else {
        Some(rest.to_owned())
    }
}

/// What a method and a path ask for.
pub fn route(method: &str, path: &str) -> (result: Route)
    ensures
        result@ == route_of(method@, path@),
{
    if same_text(method, "GET") {
        if same_text(path, "/") {
            Route::Index
        } else if same_text(path, "/allRecipes") {
            Route::AllRecipes
        } else if same_text(path, "/recipes") {
            Route::RecipeNames
        } else {
            match details_name_of(path) {
                Some(name) => Route::RecipeDetails(name),
                None => Route::Unknown,
            }
        }
    } else if same_text(method, "POST") && same_text(path, "/recipes") {
        Route::AddRecipe
    } else if same_text(method, "PUT") && same_text(path, "/recipes") {
        Route::EditRecipe
    } else {
        Route::Unknown
    }
}

} // verus!
