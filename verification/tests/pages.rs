use recipe_store::route::details_name_of;
use recipe_store::{index, not_found, route, Route};

#[test]
fn get_index() {
    assert_eq!(route("GET", "/"), Route::Index);
    assert_eq!(index(), "trunk-web-api");
}

#[test]
fn routes_of_the_service() {
    assert_eq!(route("GET", "/allRecipes"), Route::AllRecipes);
    assert_eq!(route("GET", "/recipes"), Route::RecipeNames);
    assert_eq!(route("POST", "/recipes"), Route::AddRecipe);
    assert_eq!(route("PUT", "/recipes"), Route::EditRecipe);
    assert_eq!(
        route("GET", "/recipes/details/garlicPasta"),
        Route::RecipeDetails("garlicPasta".to_string())
    );
    assert_eq!(
        route("GET", "/recipes/details/crème brûlée"),
        Route::RecipeDetails("crème brûlée".to_string())
    );
}

#[test]
fn routes_that_are_unknown() {
    assert_eq!(route("GET", "/recipes/details/"), Route::Unknown);
    assert_eq!(route("GET", "/recipes/details"), Route::Unknown);
    assert_eq!(route("GET", "/recipes/details/a/b"), Route::Unknown);
    assert_eq!(route("GET", "/recipes/detail/a"), Route::Unknown);
    assert_eq!(route("GET", "/recipes/"), Route::Unknown);
    assert_eq!(route("GET", ""), Route::Unknown);
    assert_eq!(route("get", "/"), Route::Unknown);
    assert_eq!(route("POST", "/"), Route::Unknown);
    assert_eq!(route("PUT", "/allRecipes"), Route::Unknown);
    assert_eq!(route("DELETE", "/recipes"), Route::Unknown);
    assert_eq!(route("POST", "/recipes/details/a"), Route::Unknown);
}

#[test]
fn details_name_is_what_follows_the_prefix() {
    assert_eq!(details_name_of("/recipes/details/chai"), Some("chai".to_string()));
    assert_eq!(details_name_of("/recipes/details/c"), Some("c".to_string()));
    assert_eq!(details_name_of("/recipes/details/chai/"), None);
    assert_eq!(details_name_of("/recipes/details/"), None);
    assert_eq!(details_name_of("/"), None);
    assert_eq!(details_name_of("/recipes/détails/chai tea"), None);
}

#[test]
fn not_found_quotes_the_address() {
    assert_eq!(not_found("/nowhere"), "could not find '/nowhere'");
    assert_eq!(not_found(""), "could not find ''");
    assert_eq!(not_found("/recipes/détails"), "could not find '/recipes/détails'");
}
