//! A recipe: one markdown source, known by a slug that comes from its file name.

use vstd::prelude::*;
use crate::markdown::{markdown_html, render_html, MarkdownOptions};
use crate::text::{replace_char, strip_suffix, with_char_replaced, without_suffix};

verus! {

/// The slug of the entry called `name`: the name, without a trailing `.md`.
pub open spec fn slug_of(name: Seq<char>) -> Seq<char> {
    without_suffix(name, ".md"@)
}

/// The title that goes with `slug`: the slug, with a space for every hyphen.
pub open spec fn title_of(slug: Seq<char>) -> Seq<char> {
    with_char_replaced(slug, '-', ' ')
}

/// The mathematical value of a [`Recipe`].
pub struct RecipeView {
    pub path: Seq<char>,
    pub slug: Seq<char>,
    pub title: Seq<char>,
    pub content: Seq<char>,
}

/// One recipe. Its title is never read from the content: it is the title that
/// goes with its slug.
#[derive(Debug, PartialEq, Eq)]
pub struct Recipe {
    path: String,
    slug: String,
    title: String,
    content: String,
}

impl View for Recipe {
    type V = RecipeView;

    closed spec fn view(&self) -> RecipeView {
        RecipeView {
            path: self.path@,
            slug: self.slug@,
            title: self.title@,
            content: self.content@,
        }
    }
}

impl Clone for Recipe {
    fn clone(&self) -> (copy: Recipe)
        ensures
            copy@ == self@,
    {
        proof {
            use_type_invariant(self);
        }
        Recipe {
            path: self.path.clone(),
            slug: self.slug.clone(),
            title: self.title.clone(),
            content: self.content.clone(),
        }
    }
}

impl Recipe {
    #[verifier::type_invariant]
    spec fn titled_by_slug(self) -> bool {
        self.title@ == title_of(self.slug@)
    }

    /// The recipe of the entry called `name`, found at `path`, with the markdown
    /// text `content`.
    pub fn new(name: &str, path: String, content: String) -> (recipe: Recipe)
        ensures
            recipe@.slug == slug_of(name@),
            recipe@.title == title_of(slug_of(name@)),
            recipe@.path == path@,
            recipe@.content == content@,
    {
        let slug = strip_suffix(name, ".md");
        let title = replace_char(slug.as_str(), '-', ' ');
        Recipe { path, slug, title, content }
    }

    /// Where the recipe was found.
    pub fn path(&self) -> (path: &String)
        ensures
            path@ == self@.path,
    {
        &self.path
    }

    /// The identifier of the recipe.
    pub fn slug(&self) -> (slug: &String)
        ensures
            slug@ == self@.slug,
    {
        &self.slug
    }

    /// The display name of the recipe: the title that goes with its slug.
    pub fn title(&self) -> (title: &String)
        ensures
            title@ == self@.title,
            title@ == title_of(self@.slug),
    {
        proof {
            use_type_invariant(self);
        }
        &self.title
    }

    /// The markdown text of the recipe, front matter included.
    pub fn content(&self) -> (content: &String)
        ensures
            content@ == self@.content,
    {
        &self.content
    }

    /// The recipe's content as HTML, read with the options of the site.
    pub fn to_html(&self) -> (html: String)
        ensures
            html@ == recipe_html(self@.content),
    {
        let options = MarkdownOptions::site_default();
        render_html(self.content.as_str(), &options)
    }
}

/// The HTML of a recipe's markdown text, read with the options of the site.
pub open spec fn recipe_html(content: Seq<char>) -> Seq<char> {
    markdown_html(content, true, true, Some("---"@))
}

/// The slugs of a sequence of recipes, in order.
pub open spec fn slugs_of(recipes: Seq<Recipe>) -> Seq<Seq<char>> {
    recipes.map_values(|r: Recipe| r@.slug)
}

/// A title has the length of its slug, holds a space wherever the slug holds a
/// hyphen and the slug's own character elsewhere, and so holds no hyphen.
pub proof fn title_replaces_every_hyphen(slug: Seq<char>)
    ensures
        title_of(slug).len() == slug.len(),
        forall|i: int|
            0 <= i < slug.len() ==> #[trigger] title_of(slug)[i] == (if slug[i] == '-' {
                ' '
            } else {
                slug[i]
            }),
        !title_of(slug).contains('-'),
{
}

/// A slug is its entry's name where that does not end in `.md`, and else the
/// name without those three characters.
pub proof fn slug_strips_the_extension(name: Seq<char>)
    ensures
        ".md"@.is_suffix_of(name) ==> slug_of(name) + ".md"@ == name,
        !".md"@.is_suffix_of(name) ==> slug_of(name) == name,
{
    if ".md"@.is_suffix_of(name) {
        assert(slug_of(name) + ".md"@ =~= name);
    }
}

} // verus!
