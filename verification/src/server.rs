//! What the server decides: where the site lies, and how the index route
//! answers. Listening and serving are the caller's.

use vstd::prelude::*;
use crate::loader::{get_recipes, loaded_all, Entry};
use crate::views::{index, index_html};

verus! {

/// Where the recipes come from and where the compiled pages go.
#[derive(Clone, Debug, PartialEq, Eq)]
pub struct Config {
    /// The directory of the recipes.
    pub recipes_path: String,
    /// The directory of the compiled pages.
    pub compiled_path: String,
}

/// The directory of the recipes where none is configured.
pub open spec fn default_recipes_path() -> Seq<char> {
    "./recipes"@
}

/// The directory of the compiled pages where none is configured.
pub open spec fn default_compiled_path() -> Seq<char> {
    "./compiled"@
}

impl Config {
    /// The configuration for the paths that were set, with the default in place
    /// of each that was not.
    pub fn resolve(recipes_path: Option<String>, compiled_path: Option<String>) -> (config: Config)
        ensures
            config.recipes_path@ == match recipes_path {
                Some(path) => path@,
                None => default_recipes_path(),
            },
            config.compiled_path@ == match compiled_path {
                Some(path) => path@,
                None => default_compiled_path(),
            },
    {
        Config {
            recipes_path: match recipes_path {
                Some(path) => path,
                None => "./recipes".to_owned(),
            },
            compiled_path: match compiled_path {
                Some(path) => path,
                None => "./compiled".to_owned(),
            },
        }
    }
}

/// The status of an answer that reports a failure of the server.
pub const INTERNAL_SERVER_ERROR: u16 = 500;

/// The answer of the index route to a listing of the recipes directory: the
/// index page of the listed recipes, or the status of a server error where the
/// directory could not be listed.
pub fn index_route(listing: Result<Vec<Entry>, String>) -> (answer: Result<String, u16>)
    ensures
        match listing {
            Ok(entries) => answer matches Ok(html) && html@ == index_html(
                loaded_all(entries@).map_values(|r: crate::recipe::RecipeView| r.slug),
            ),
            Err(_) => answer == Err::<String, u16>(INTERNAL_SERVER_ERROR),
        },
{
    match get_recipes(listing) {
        Ok(recipes) => {
            assert(crate::recipe::slugs_of(recipes@) =~= crate::loader::recipe_views(
                recipes@,
            ).map_values(|r: crate::recipe::RecipeView| r.slug));
            Ok(index(recipes))
        },
        Err(_) => Err(INTERNAL_SERVER_ERROR),
    }
}

} // verus!
