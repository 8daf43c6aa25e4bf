//! From a directory listing to recipes. Reading the directory is the caller's;
//! what is made of the listing is decided here.

use vstd::prelude::*;
use crate::recipe::{slug_of, title_of, Recipe, RecipeView};

verus! {

/// One entry of the recipes directory, as it was found.
#[derive(Clone, Debug, PartialEq, Eq)]
pub struct Entry {
    /// The entry's file name.
    pub name: String,
    /// Where the entry lies.
    pub path: String,
    /// Whether the entry is a directory.
    pub is_dir: bool,
    /// The text of the `index.md` inside the entry; `None` where that could not
    /// be read.
    pub content: Option<String>,
}

/// The views of a sequence of recipes.
pub open spec fn recipe_views(recipes: Seq<Recipe>) -> Seq<RecipeView> {
    recipes.map_values(|r: Recipe| r@)
}

/// The recipe that an entry stands for: slug and title come from its name, and
/// content that could not be read is empty.
pub open spec fn loaded(entry: Entry) -> RecipeView {
    RecipeView {
        path: entry.path@,
        slug: slug_of(entry.name@),
        title: title_of(slug_of(entry.name@)),
        content: match entry.content {
            Some(text) => text@,
            None => Seq::empty(),
        },
    }
}

/// The recipes of a listing: one for each entry that is a directory, in the
/// order of the listing.
pub open spec fn loaded_all(entries: Seq<Entry>) -> Seq<RecipeView>
    decreases entries.len(),
{
    if entries.len() == 0 {
        Seq::empty()
    } else if entries.last().is_dir {
        loaded_all(entries.drop_last()).push(loaded(entries.last()))
    } else {
        loaded_all(entries.drop_last())
    }
}

/// The recipe that `entry` stands for.
pub fn map_to_recipe(entry: &Entry) -> (recipe: Recipe)
    ensures
        recipe@ == loaded(*entry),
{
    let content = match &entry.content {
        Some(text) => text.clone(),
        None => String::new(),
    };
    Recipe::new(entry.name.as_str(), entry.path.clone(), content)
}

/// The recipes of a directory listing: those of [`loaded_all`] where the
/// directory could be listed, and the listing's own error where it could not.
pub fn get_recipes(listing: Result<Vec<Entry>, String>) -> (recipes: Result<Vec<Recipe>, String>)
    ensures
        match listing {
            Ok(entries) => recipes matches Ok(found) && recipe_views(found@) == loaded_all(
                entries@,
            ),
            Err(error) => recipes == Err::<Vec<Recipe>, String>(error),
        },
{
    match listing {
        Ok(entries) => {
            let mut found: Vec<Recipe> = Vec::new();
            let mut i: usize = 0;
            assert(entries@.take(0) =~= Seq::<Entry>::empty());
            assert(recipe_views(found@) =~= loaded_all(entries@.take(0)));
            while i < entries.len()
                invariant
                    i <= entries.len(),
                    recipe_views(found@) == loaded_all(entries@.take(i as int)),
                decreases entries.len() - i,
            {
                let ghost before = recipe_views(found@);
                let ghost seen = entries@.take(i as int);
                let ghost next = entries@.take(i + 1);
                assert(next.drop_last() =~= seen);
                assert(next.last() == entries@[i as int]);
                if entries[i].is_dir {
                    found.push(map_to_recipe(&entries[i]));
                    assert(recipe_views(found@) =~= before.push(loaded(entries@[i as int])));
                }
                i += 1;
            }
            assert(entries@.take(i as int) =~= entries@);
            Ok(found)
        },
        Err(error) => Err(error),
    }
}

} // verus!
