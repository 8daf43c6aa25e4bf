//! The compiler: from the recipes of a site to the pages that are written for it.
//!
//! Compiling plans one page per recipe, in the order of the recipes, and the
//! tags page behind them. A [`Build`] then hands the pages out one by one; its
//! user writes each and reports how that went. After the first write that
//! failed nothing more is handed out, so what was written before stays, and the
//! tags page is written only where every recipe page was.

use vstd::prelude::*;
use vstd::string::StringExecFns;
use crate::frontmatter::{blocks_tags, extract_tags};
use crate::loader::recipe_views;
use crate::markdown::{markdown_blocks, MarkdownOptions};
use crate::recipe::{recipe_html, Recipe, RecipeView};
use crate::tags::{
    declarations, extended, extending_in_two_runs, index_of, BucketView, Declaration, TagIndex,
};
use crate::text::{lemma_flatten_concat, lemma_flatten_step, string_views};
use crate::views::{recipe, recipe_page_html, tags, tags_html};

verus! {

/// One page of the compiled site.
#[derive(Clone, Debug, PartialEq, Eq)]
pub enum Page {
    /// The page of the recipe `slug`, written to `recipes/<slug>/index.html`.
    Recipe { slug: String, html: String },
    /// The tags page, written to `tags/index.html`.
    Tags { html: String },
}

/// The mathematical value of a [`Page`].
pub enum PageView {
    Recipe { slug: Seq<char>, html: Seq<char> },
    Tags { html: Seq<char> },
}

impl View for Page {
    type V = PageView;

    open spec fn view(&self) -> PageView {
        match self {
            Page::Recipe { slug, html } => PageView::Recipe { slug: slug@, html: html@ },
            Page::Tags { html } => PageView::Tags { html: html@ },
        }
    }
}

/// The views of a sequence of pages.
pub open spec fn page_views(pages: Seq<Page>) -> Seq<PageView> {
    pages.map_values(|p: Page| p@)
}

/// The directory of a page below the output directory, as its path components.
pub open spec fn page_directory(page: PageView) -> Seq<Seq<char>> {
    match page {
        PageView::Recipe { slug, html } => seq!["recipes"@, slug],
        PageView::Tags { html } => seq!["tags"@],
    }
}

/// The HTML of a page.
pub open spec fn page_html(page: PageView) -> Seq<char> {
    match page {
        PageView::Recipe { slug, html } => html,
        PageView::Tags { html } => html,
    }
}

/// What is reported where writing a page failed: the slug of a recipe page, or
/// that it was the tags page.
pub open spec fn failure_message(page: PageView) -> Seq<char> {
    match page {
        PageView::Recipe { slug, html } => "Failed to write "@ + slug,
        PageView::Tags { html } => "Failed to write tags page"@,
    }
}

impl Page {
    /// The directory that the page is written to, as its path components below
    /// the output directory.
    pub fn directory(&self) -> (components: Vec<String>)
        ensures
            string_views(components@) == page_directory(self@),
    {
        let mut components: Vec<String> = Vec::new();
        match self {
            Page::Recipe { slug, html } => {
                components.push("recipes".to_owned());
                components.push(slug.clone());
            },
            Page::Tags { html } => {
                components.push("tags".to_owned());
            },
        }
        assert(string_views(components@) =~= page_directory(self@));
        components
    }

    /// The name of the file that the page is written to, in its directory.
    pub fn file_name(&self) -> (name: String)
        ensures
            name@ == "index.html"@,
    {
        "index.html".to_owned()
    }

    /// The HTML of the page.
    pub fn html(&self) -> (html: &String)
        ensures
            html@ == page_html(self@),
    {
        match self {
            Page::Recipe { slug, html } => html,
            Page::Tags { html } => html,
        }
    }

    /// What is reported where writing the page failed.
    pub fn failure(&self) -> (message: String)
        ensures
            message@ == failure_message(self@),
    {
        match self {
            Page::Recipe { slug, html } => {
                let mut message = "Failed to write ".to_owned();
                message.append(slug.as_str());
                message
            },
            Page::Tags { html } => "Failed to write tags page".to_owned(),
        }
    }
}

/// The tags that a recipe with the markdown text `content` declares, read with
/// `options`.
pub open spec fn content_tags(options: MarkdownOptions, content: Seq<char>) -> Seq<Seq<char>> {
    blocks_tags(
        markdown_blocks(
            content,
            options.relaxed_tasklist_matching,
            options.tasklist,
            options.delimiter(),
        ),
    )
}

/// The declarations that each of `recipes` makes, recipe by recipe.
pub open spec fn declarations_by_recipe(options: MarkdownOptions, recipes: Seq<RecipeView>) -> Seq<
    Seq<Declaration>,
> {
    recipes.map_values(|r: RecipeView| declarations(r.slug, content_tags(options, r.content)))
}

/// The tag index of `recipes`: every recipe under each of its tags, the recipes
/// in their order and the tags of each in the order of their declaration.
pub open spec fn site_index(options: MarkdownOptions, recipes: Seq<RecipeView>) -> Seq<BucketView> {
    index_of(declarations_by_recipe(options, recipes).flatten())
}

/// The tag index of a site goes by the slugs and the contents of its recipes,
/// and by nothing else: two runs over recipes that agree in these give one
/// index.
pub proof fn tag_index_goes_by_slug_and_content(
    options: MarkdownOptions,
    a: Seq<RecipeView>,
    b: Seq<RecipeView>,
)
    requires
        a.len() == b.len(),
        forall|i: int| 0 <= i < a.len() ==> a[i].slug == b[i].slug && a[i].content == b[i].content,
    ensures
        site_index(options, a) == site_index(options, b),
{
    assert(declarations_by_recipe(options, a) =~= declarations_by_recipe(options, b));
}

/// The tag index of recipes that follow others is the index of those others,
/// with the declarations of the recipes that follow entered into it.
pub proof fn tag_index_grows_with_the_recipes(
    options: MarkdownOptions,
    first: Seq<RecipeView>,
    second: Seq<RecipeView>,
)
    ensures
        site_index(options, first + second) == extended(
            site_index(options, first),
            declarations_by_recipe(options, second).flatten(),
        ),
{
    let made_first = declarations_by_recipe(options, first);
    let made_second = declarations_by_recipe(options, second);
    let made = declarations_by_recipe(options, first + second);
    assert(made =~= made_first + made_second);
    lemma_flatten_concat(made_first, made_second);
    extending_in_two_runs(Seq::empty(), made_first.flatten(), made_second.flatten());
}

/// The page of a recipe.
pub open spec fn recipe_page_of(recipe: RecipeView) -> PageView {
    PageView::Recipe { slug: recipe.slug, html: recipe_page_html(recipe_html(recipe.content)) }
}

/// The pages of a site: the page of every recipe, in the order of the recipes,
/// and behind them the tags page of their tag index.
pub open spec fn site_pages(options: MarkdownOptions, recipes: Seq<RecipeView>) -> Seq<PageView> {
    recipes.map_values(|r: RecipeView| recipe_page_of(r)).push(
        PageView::Tags { html: tags_html(site_index(options, recipes)) },
    )
}

/// The mathematical value of a [`Build`]: the pages to write, how many of them
/// were written, and what failed, if anything did.
pub struct BuildView {
    pub pages: Seq<PageView>,
    pub written: nat,
    pub failure: Option<Seq<char>>,
}

/// A build before anything was written.
pub open spec fn start(pages: Seq<PageView>) -> BuildView {
    BuildView { pages, written: 0, failure: None }
}

/// The page that is to be written next: none once a write has failed or every
/// page was written.
pub open spec fn pending(build: BuildView) -> Option<PageView> {
    if build.failure is None && build.written < build.pages.len() {
        Some(build.pages[build.written as int])
    } else {
        None
    }
}

/// The build after the pending page was written (`ok`) or could not be written.
/// Where no page is pending, nothing changes.
pub open spec fn recorded(build: BuildView, ok: bool) -> BuildView {
    match pending(build) {
        Some(page) => if ok {
            BuildView { written: build.written + 1, ..build }
        } else {
            BuildView { failure: Some(failure_message(page)), ..build }
        },
        None => build,
    }
}

/// How the build ended: with the error of the write that failed, or well, once
/// every page was written. `None` while a page is pending.
pub open spec fn outcome(build: BuildView) -> Option<Result<(), Seq<char>>> {
    match build.failure {
        Some(message) => Some(Err(message)),
        None => if build.written >= build.pages.len() {
            Some(Ok(()))
        } else {
            None
        },
    }
}

/// The build after the writes whose results are `results`, in their order.
pub open spec fn run(build: BuildView, results: Seq<bool>) -> BuildView
    decreases results.len(),
{
    if results.len() == 0 {
        build
    } else {
        recorded(run(build, results.drop_last()), results.last())
    }
}

/// While every write goes well, the pages are handed out in their order.
pub proof fn good_writes_advance_the_build(pages: Seq<PageView>, results: Seq<bool>)
    requires
        results.len() <= pages.len(),
        forall|i: int| 0 <= i < results.len() ==> results[i],
    ensures
        run(start(pages), results) == (BuildView { written: results.len(), ..start(pages) }),
    decreases results.len(),
{
    if results.len() > 0 {
        good_writes_advance_the_build(pages, results.drop_last());
    }
}

/// Where every write goes well, the pages are handed out one by one in their
/// order, and once all are written the build has ended well.
pub proof fn good_writes_end_the_build_well(pages: Seq<PageView>, results: Seq<bool>)
    requires
        results.len() == pages.len(),
        forall|i: int| 0 <= i < results.len() ==> results[i],
    ensures
        forall|k: int|
            0 <= k < pages.len() ==> pending(run(start(pages), #[trigger] results.take(k)))
                == Some(pages[k]),
        pending(run(start(pages), results)) is None,
        outcome(run(start(pages), results)) == Some(Ok::<(), Seq<char>>(())),
{
    good_writes_advance_the_build(pages, results);
    assert forall|k: int| 0 <= k < pages.len() implies pending(
        run(start(pages), #[trigger] results.take(k)),
    ) == Some(pages[k]) by {
        let seen = results.take(k);
        assert forall|i: int| 0 <= i < seen.len() implies seen[i] by {
            assert(seen[i] == results[i]);
        }
        good_writes_advance_the_build(pages, seen);
    }
}

/// Where the write at `failed` went wrong and every write before it went well,
/// the build stands at that page with its failure, whatever is reported after.
pub proof fn first_failure_ends_the_build(pages: Seq<PageView>, results: Seq<bool>, failed: int)
    requires
        0 <= failed < results.len(),
        failed < pages.len(),
        !results[failed],
        forall|i: int| 0 <= i < failed ==> results[i],
    ensures
        run(start(pages), results) == (BuildView {
            written: failed as nat,
            failure: Some(failure_message(pages[failed])),
            ..start(pages)
        }),
        pending(run(start(pages), results)) is None,
        outcome(run(start(pages), results)) == Some(
            Err::<(), Seq<char>>(failure_message(pages[failed])),
        ),
    decreases results.len(),
{
    let earlier = results.drop_last();
    if failed == results.len() - 1 {
        good_writes_advance_the_build(pages, earlier);
    } else {
        first_failure_ends_the_build(pages, earlier, failed);
    }
}

/// The position of the first write that went wrong; the number of writes where
/// none did.
pub open spec fn first_failure(results: Seq<bool>) -> int
    decreases results.len(),
{
    if results.len() == 0 || !results[0] {
        0
    } else {
        1 + first_failure(results.skip(1))
    }
}

/// What [`first_failure`] finds is a write that went wrong, and every write
/// before it went well.
pub proof fn lemma_first_failure(results: Seq<bool>)
    ensures
        0 <= first_failure(results) <= results.len(),
        forall|i: int| 0 <= i < first_failure(results) ==> results[i],
        first_failure(results) < results.len() ==> !results[first_failure(results)],
    decreases results.len(),
{
    if results.len() > 0 && results[0] {
        let rest = results.skip(1);
        lemma_first_failure(rest);
        assert forall|i: int| 0 <= i < first_failure(results) implies results[i] by {
            if i > 0 {
                assert(rest[i - 1] == results[i]);
            }
        }
        if first_failure(results) < results.len() {
            assert(rest[first_failure(rest)] == results[first_failure(results)]);
        }
    }
}

/// A write that failed keeps every later page from being written: where the
/// write at `failed` went wrong, no page behind the one at `failed` is handed
/// out, however many results have come in. The tags page stands behind every
/// recipe page, so a recipe page that could not be written keeps the tags page
/// from being written.
pub proof fn failed_write_keeps_later_pages_unwritten(
    pages: Seq<PageView>,
    results: Seq<bool>,
    failed: int,
    later: int,
)
    requires
        0 <= failed < results.len(),
        failed < pages.len(),
        !results[failed],
        0 <= later <= results.len(),
    ensures
        run(start(pages), results.take(later)).written <= failed,
        pending(run(start(pages), results.take(later))) matches Some(page) ==> page
            == pages[run(start(pages), results.take(later)).written as int],
{
    lemma_first_failure(results);
    let first = first_failure(results);
    let seen = results.take(later);
    if later <= first {
        assert forall|i: int| 0 <= i < seen.len() implies seen[i] by {
            assert(seen[i] == results[i]);
        }
        good_writes_advance_the_build(pages, seen);
    } else {
        assert forall|i: int| 0 <= i < first implies seen[i] by {
            assert(seen[i] == results[i]);
        }
        assert(seen[first] == results[first]);
        first_failure_ends_the_build(pages, seen, first);
    }
}

/// Where writing a recipe page failed, the tags page is never handed out, and so
/// never written: the pages that were written before stay, and nothing follows.
pub proof fn failed_recipe_keeps_tags_page_unwritten(
    options: MarkdownOptions,
    recipes: Seq<RecipeView>,
    results: Seq<bool>,
    failed: int,
    later: int,
)
    requires
        0 <= failed < results.len(),
        failed < recipes.len(),
        !results[failed],
        0 <= later <= results.len(),
    ensures
        !(pending(run(start(site_pages(options, recipes)), results.take(later))) matches Some(
            page,
        ) && page is Tags),
{
    failed_write_keeps_later_pages_unwritten(site_pages(options, recipes), results, failed, later);
}

/// The compiler of a site.
#[derive(Clone, Debug)]
pub struct Compiler {
    options: MarkdownOptions,
    output_dir: String,
    src_dir: String,
}

/// A compilation under way: the pages of the site, and how far writing them
/// has come.
#[derive(Debug)]
pub struct Build {
    pages: Vec<Page>,
    written: usize,
    failure: Option<String>,
    index: TagIndex,
}

impl View for Build {
    type V = BuildView;

    closed spec fn view(&self) -> BuildView {
        BuildView {
            pages: page_views(self.pages@),
            written: self.written as nat,
            failure: match self.failure {
                Some(message) => Some(message@),
                None => None,
            },
        }
    }
}

impl Build {
    /// The tag index of the site that is compiled.
    pub closed spec fn index_view(&self) -> Seq<BucketView> {
        self.index@
    }

    /// The page to write next, if there is one.
    pub fn next(&self) -> (page: Option<&Page>)
        ensures
            match page {
                Some(p) => pending(self@) == Some(p@),
                None => pending(self@) is None,
            },
    {
        if self.failure.is_none() && self.written < self.pages.len() {
            Some(&self.pages[self.written])
        } else {
            None
        }
    }

    /// Takes note of how writing the page that [`Build::next`] hands out went.
    pub fn record(&mut self, ok: bool)
        ensures
            final(self)@ == recorded(old(self)@, ok),
            final(self).index_view() == old(self).index_view(),
    {
        if self.failure.is_none() && self.written < self.pages.len() {
            if ok {
                self.written = self.written + 1;
            } else {
                self.failure = Some(self.pages[self.written].failure());
            }
        }
    }

    /// How the build ended, once it has: `Ok` where every page was written, the
    /// error of the first write that failed where one did.
    pub fn result(&self) -> (ended: Option<Result<(), String>>)
        ensures
            match ended {
                Some(Ok(())) => outcome(self@) == Some(Ok::<(), Seq<char>>(())),
                Some(Err(message)) => outcome(self@) == Some(Err::<(), Seq<char>>(message@)),
                None => outcome(self@) is None,
            },
    {
        match &self.failure {
            Some(message) => Some(Err(message.clone())),
            None => if self.written >= self.pages.len() {
                Some(Ok(()))
            } else {
                None
            },
        }
    }

    /// The tag index of the site that is compiled.
    pub fn tag_index(&self) -> (index: &TagIndex)
        ensures
            index@ == self.index_view(),
    {
        &self.index
    }
}

impl Compiler {
    /// The options that the compiler reads markdown with.
    pub closed spec fn options_view(&self) -> MarkdownOptions {
        self.options
    }

    /// The directory that the recipes come from.
    pub closed spec fn src_dir_view(&self) -> Seq<char> {
        self.src_dir@
    }

    /// The directory that the pages go to.
    pub closed spec fn output_dir_view(&self) -> Seq<char> {
        self.output_dir@
    }

    /// A compiler from `src_dir` to `output_dir`, reading markdown with the
    /// options of the site.
    pub fn new(src_dir: &String, output_dir: &String) -> (compiler: Compiler)
        ensures
            compiler.options_view().is_site_default(),
            compiler.src_dir_view() == src_dir@,
            compiler.output_dir_view() == output_dir@,
    {
        Compiler {
            options: MarkdownOptions::site_default(),
            output_dir: output_dir.clone(),
            src_dir: src_dir.clone(),
        }
    }

    /// The options that the compiler reads markdown with.
    pub fn options(&self) -> (options: &MarkdownOptions)
        ensures
            *options == self.options_view(),
    {
        &self.options
    }

    /// The directory that the recipes come from.
    pub fn src_dir(&self) -> (dir: &String)
        ensures
            dir@ == self.src_dir_view(),
    {
        &self.src_dir
    }

    /// The directory that the pages go to.
    pub fn output_dir(&self) -> (dir: &String)
        ensures
            dir@ == self.output_dir_view(),
    {
        &self.output_dir
    }

    /// Compiles the site of `recipes`: its tag index and its pages, none of them
    /// written yet.
    pub fn build(&self, recipes: &Vec<Recipe>) -> (build: Build)
        ensures
            build@ == start(site_pages(self.options_view(), recipe_views(recipes@))),
            build.index_view() == site_index(self.options_view(), recipe_views(recipes@)),
    {
        let ghost all = recipe_views(recipes@);
        let ghost made = declarations_by_recipe(self.options, all);
        let ghost planned = all.map_values(|r: RecipeView| recipe_page_of(r));
        let mut index = TagIndex::new();
        let mut pages: Vec<Page> = Vec::new();
        let mut i: usize = 0;
        assert(made.take(0).flatten() =~= Seq::<Declaration>::empty());
        assert(page_views(pages@) =~= planned.take(0));
        while i < recipes.len()
            invariant
                i <= recipes.len(),
                all == recipe_views(recipes@),
                made == declarations_by_recipe(self.options, all),
                planned == all.map_values(|r: RecipeView| recipe_page_of(r)),
                index@ == index_of(made.take(i as int).flatten()),
                page_views(pages@) == planned.take(i as int),
            decreases recipes.len() - i,
        {
            let found = extract_tags(&self.options, recipes[i].content());
            index.add_recipe(recipes[i].slug(), &found);
            proof {
                assert(made[i as int] == declarations(
                    recipes@[i as int]@.slug,
                    string_views(found@),
                ));
                lemma_flatten_step(made, i as int);
                extending_in_two_runs(
                    Seq::empty(),
                    made.take(i as int).flatten(),
                    made[i as int],
                );
            }
            let ghost before = page_views(pages@);
            let page = Page::Recipe { slug: recipes[i].slug().clone(), html: recipe(&recipes[i]) };
            assert(page@ == planned[i as int]);
            pages.push(page);
            assert(page_views(pages@) =~= before.push(planned[i as int]));
            assert(planned.take(i + 1) =~= planned.take(i as int).push(planned[i as int]));
            i += 1;
        }
        assert(made.take(i as int) =~= made);
        assert(planned.take(i as int) =~= planned);
        let ghost before = page_views(pages@);
        let page = Page::Tags { html: tags(&index) };
        pages.push(page);
        assert(page_views(pages@) =~= before.push(page@));
        Build { pages, written: 0, failure: None, index }
    }
}

} // verus!
