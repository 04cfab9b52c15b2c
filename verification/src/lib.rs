//! A small recipe service: a collection of recipes in which every recipe
//! has a name and no two share one, the four operations on it (list the
//! names, look one up, add, replace), and the JSON document that mirrors the
//! collection in its backing file.
//!
//! The library reads and writes no file. A change is staged, which gives the
//! text of the new document; the caller writes that text and hands back what
//! the file then holds; the change takes effect only if that is the new
//! collection.

pub mod document;
pub mod json;
pub mod laws;
pub mod pages;
pub mod persistence;
pub mod recipe;
pub mod route;
pub mod service;
pub mod store;

pub use document::{all_recipes, get_recipes_json};
pub use pages::{index, not_found};
pub use persistence::{parse_recipe, LoadError, Pending};
pub use recipe::{Details, Recipe};
pub use route::{route, Route};
pub use service::{add_recipe, edit_recipe, get_recipe_details, recipe_names};
pub use store::{RecipeStore, StoreError};
