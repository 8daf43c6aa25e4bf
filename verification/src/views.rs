//! The pages of the site as HTML text. Each page is a function of what it
//! shows; text that comes from a recipe is escaped by maud before it is put
//! into a page, markup that is already HTML is put in as it is.

use vstd::prelude::*;
use vstd::string::StringExecFns;
use crate::recipe::{recipe_html, slugs_of, title_of, Recipe};
use crate::sorting::{ascending, ascending_ignores_order, sort_strings};
use crate::tags::{bucket_views, Bucket, BucketView, TagIndex};
use crate::text::{lemma_flatten_step, replace_char, string_views};

verus! {

/// What stands for one character in HTML text.
pub open spec fn escaped_char(c: char) -> Seq<char> {
    if c == '&' {
        "&amp;"@
    } else if c == '<' {
        "&lt;"@
    } else if c == '>' {
        "&gt;"@
    } else if c == '"' {
        "&quot;"@
    } else {
        seq![c]
    }
}

/// `text` as HTML text: `&`, `<`, `>` and `"` give way to their entities, every
/// other character stays.
pub open spec fn escaped(text: Seq<char>) -> Seq<char> {
    text.map_values(|c: char| escaped_char(c)).flatten()
}

/// Escapes `text` with maud, by rendering it as maud renders a string that is
/// spliced into a template. Trusted: `&`, `<`, `>` and `"` are replaced by
/// `&amp;`, `&lt;`, `&gt;` and `&quot;`, and nothing else is changed.
#[verifier::external_body]
pub(crate) fn escape(text: &str) -> (out: String)
    ensures
        out@ == escaped(text@),
{
    maud::Render::render(text).into_string()
}

/// A link of the navigation bar.
pub open spec fn nav_link_html(text: Seq<char>, href: Seq<char>) -> Seq<char> {
    "<a href=\""@ + escaped(href) + "\" class=\"text-teal-600 tracking-tight font-sm\">"@
        + escaped(text) + "</a>"@
}

/// A link of the navigation bar, to `href` and reading `text`.
pub fn nav_link(text: &str, href: &str) -> (html: String)
    ensures
        html@ == nav_link_html(text@, href@),
{
    let mut html = "<a href=\"".to_owned();
    html.append(escape(href).as_str());
    html.append("\" class=\"text-teal-600 tracking-tight font-sm\">");
    html.append(escape(text).as_str());
    html.append("</a>");
    html
}

/// The head of every page.
pub open spec fn head_html() -> Seq<char> {
    "<head><meta name=\"viewport\" content=\"width=device-width, initial-scale=1\"></meta><script src=\"https://cdn.tailwindcss.com?plugins=typography\"></script></head>"@
}

/// The head of every page.
pub fn head() -> (html: String)
    ensures
        html@ == head_html(),
{
    "<head><meta name=\"viewport\" content=\"width=device-width, initial-scale=1\"></meta><script src=\"https://cdn.tailwindcss.com?plugins=typography\"></script></head>".to_owned()
}

/// A page around the content `rest`: the head, the navigation bar, `rest` as the
/// main part, and the footer.
pub open spec fn layout_html(rest: Seq<char>) -> Seq<char> {
    head_html()
        + "<body><nav class=\"my-4 px-8 w-full flex justify-between items-center print:hidden\"><a href=\"/\" class=\"text-teal-700 text-lg\">What's for dinner?</a><div class=\"space-x-4\">"@
        + nav_link_html("Browse by tags"@, "/tags"@) + "</div></nav><main>"@ + rest
        + "</main><footer class=\"w-full my-12 text-xs text-center\"><code>&lt;/&gt; by Jonny</code></footer></body>"@
}

/// The page around the content `rest`, which is put in as it is.
pub fn layout(rest: &str) -> (html: String)
    ensures
        html@ == layout_html(rest@),
{
    let mut html = head();
    html.append(
        "<body><nav class=\"my-4 px-8 w-full flex justify-between items-center print:hidden\"><a href=\"/\" class=\"text-teal-700 text-lg\">What's for dinner?</a><div class=\"space-x-4\">",
    );
    html.append(nav_link("Browse by tags", "/tags").as_str());
    html.append("</div></nav><main>");
    html.append(rest);
    html.append(
        "</main><footer class=\"w-full my-12 text-xs text-center\"><code>&lt;/&gt; by Jonny</code></footer></body>",
    );
    html
}

/// The address of the page of the recipe `slug`.
pub open spec fn recipe_href(slug: Seq<char>) -> Seq<char> {
    "/recipes/"@ + slug
}

/// The address of the page of the recipe `slug`.
pub fn recipe_link(slug: &str) -> (href: String)
    ensures
        href@ == recipe_href(slug@),
{
    let mut href = "/recipes/".to_owned();
    href.append(slug);
    href
}

/// The index page's list item for the recipe `slug`: a link to its page that
/// reads its title.
pub open spec fn index_item_html(slug: Seq<char>) -> Seq<char> {
    "<li><a class=\"text-teal-600 font-bold\" href=\""@ + escaped(recipe_href(slug)) + "\">"@
        + escaped(title_of(slug)) + "</a></li>"@
}

/// The index page's list items for `slugs`, in their order.
pub open spec fn index_items_html(slugs: Seq<Seq<char>>) -> Seq<char> {
    slugs.map_values(|slug: Seq<char>| index_item_html(slug)).flatten()
}

/// What the index page shows: the recipes `slugs`, in ascending order.
pub open spec fn index_content_html(slugs: Seq<Seq<char>>) -> Seq<char> {
    "<section class=\"mt-24 mx-8\"><p class=\"text-2xl max-w-lg\">Recipes, without the ads and newsletter popups.</p><div class=\"mt-24\"><h2 class=\"text-xl mb-2 text-teal-900 font-bold\">Our Recipes.</h2><ul class=\"ml-1\">"@
        + index_items_html(ascending(slugs))
        + "</ul></div></section><section class=\"mt-24 p-24 w-full bg-teal-900\"><div class=\"mx-8 text-teal-50\"><h2 class=\"text-teal-50 text-xl\">Why?</h2><p class=\"max-w-xl text-sm\">Each week I'm asked &quot;What should we have for dinner this week?&quot;. This question stumps me. &quot;But it's okay&quot; I think to myself, &quot;I can Google it!&quot; But doing so only results in disappointment as I fight ads, popups and woefully slow websites. This website is an attempt to capture the recipes we enjoy and share them without any of the nonsense that comes with mainstream recipe websites.</p></div></section>"@
}

/// The index page of the recipes `slugs`.
pub open spec fn index_html(slugs: Seq<Seq<char>>) -> Seq<char> {
    layout_html(index_content_html(slugs))
}

/// The index page: every recipe as a link to `/recipes/<slug>` that reads the
/// recipe's title, the recipes in ascending order of their slugs.
pub fn index(recipes: Vec<Recipe>) -> (html: String)
    ensures
        html@ == index_html(slugs_of(recipes@)),
{
    let mut slugs: Vec<String> = Vec::new();
    let mut i: usize = 0;
    while i < recipes.len()
        invariant
            i <= recipes.len(),
            string_views(slugs@) == slugs_of(recipes@).take(i as int),
        decreases recipes.len() - i,
    {
        let ghost before = string_views(slugs@);
        slugs.push(recipes[i].slug().clone());
        assert(string_views(slugs@) =~= before.push(recipes@[i as int]@.slug));
        assert(slugs_of(recipes@).take(i + 1) =~= slugs_of(recipes@).take(i as int).push(
            recipes@[i as int]@.slug,
        ));
        i += 1;
    }
    assert(slugs_of(recipes@).take(i as int) =~= slugs_of(recipes@));
    let ordered = sort_strings(&slugs);
    let ghost items = string_views(ordered@).map_values(|slug: Seq<char>| index_item_html(slug));
    let mut content =
        "<section class=\"mt-24 mx-8\"><p class=\"text-2xl max-w-lg\">Recipes, without the ads and newsletter popups.</p><div class=\"mt-24\"><h2 class=\"text-xl mb-2 text-teal-900 font-bold\">Our Recipes.</h2><ul class=\"ml-1\">".to_owned();
    let ghost opening = content@;
    let mut k: usize = 0;
    assert(content@ =~= opening + items.take(0).flatten());
    while k < ordered.len()
        invariant
            k <= ordered.len(),
            items == string_views(ordered@).map_values(|slug: Seq<char>| index_item_html(slug)),
            content@ == opening + items.take(k as int).flatten(),
        decreases ordered.len() - k,
    {
        let slug = &ordered[k];
        let title = replace_char(slug.as_str(), '-', ' ');
        let mut item = "<li><a class=\"text-teal-600 font-bold\" href=\"".to_owned();
        item.append(escape(recipe_link(slug.as_str()).as_str()).as_str());
        item.append("\">");
        item.append(escape(title.as_str()).as_str());
        item.append("</a></li>");
        assert(item@ == items[k as int]);
        content.append(item.as_str());
        proof {
            lemma_flatten_step(items, k as int);
            assert(content@ =~= opening + items.take(k + 1).flatten());
        }
        k += 1;
    }
    assert(items.take(k as int) =~= items);
    content.append(
        "</ul></div></section><section class=\"mt-24 p-24 w-full bg-teal-900\"><div class=\"mx-8 text-teal-50\"><h2 class=\"text-teal-50 text-xl\">Why?</h2><p class=\"max-w-xl text-sm\">Each week I'm asked &quot;What should we have for dinner this week?&quot;. This question stumps me. &quot;But it's okay&quot; I think to myself, &quot;I can Google it!&quot; But doing so only results in disappointment as I fight ads, popups and woefully slow websites. This website is an attempt to capture the recipes we enjoy and share them without any of the nonsense that comes with mainstream recipe websites.</p></div></section>",
    );
    layout(content.as_str())
}

/// The index page lists its recipes in ascending order, in whatever order they
/// were given.
pub proof fn index_ignores_the_order_of_recipes(a: Seq<Seq<char>>, b: Seq<Seq<char>>)
    requires
        a.to_multiset() == b.to_multiset(),
    ensures
        index_html(a) == index_html(b),
{
    ascending_ignores_order(a, b);
}

/// The tags page's list item for the recipe `slug`: a link to its page that
/// reads its slug.
pub open spec fn tag_item_html(slug: Seq<char>) -> Seq<char> {
    "<li><a class=\"text-teal-600\" href=\""@ + escaped(recipe_href(slug)) + "\">"@ + escaped(slug)
        + "</a></li>"@
}

/// The tags page's list items for `slugs`, in their order.
pub open spec fn tag_items_html(slugs: Seq<Seq<char>>) -> Seq<char> {
    slugs.map_values(|slug: Seq<char>| tag_item_html(slug)).flatten()
}

/// The tags page's part for one tag: the tag as a heading, and under it the
/// recipes that carry it, in ascending order of their slugs.
pub open spec fn tag_section_html(bucket: BucketView) -> Seq<char> {
    "<h2 class=\"text-teal-900 font-bold\">"@ + escaped(bucket.tag) + "</h2><ul>"@ + tag_items_html(
        ascending(bucket.slugs),
    ) + "</ul>"@
}

/// The tags page's parts for the tags of `index`, in their order.
pub open spec fn tag_sections_html(index: Seq<BucketView>) -> Seq<char> {
    index.map_values(|bucket: BucketView| tag_section_html(bucket)).flatten()
}

/// The tags page of `index`.
pub open spec fn tags_html(index: Seq<BucketView>) -> Seq<char> {
    layout_html(
        "<section class=\"prose-sm mx-8\">"@ + tag_sections_html(index) + "</section>"@,
    )
}

/// The tags page lists the recipes of a tag in ascending order, in whatever
/// order they stand in the index.
pub proof fn tag_section_ignores_the_order_of_slugs(a: BucketView, b: BucketView)
    requires
        a.tag == b.tag,
        a.slugs.to_multiset() == b.slugs.to_multiset(),
    ensures
        tag_section_html(a) == tag_section_html(b),
{
    ascending_ignores_order(a.slugs, b.slugs);
}

/// The tags page's part for one tag.
pub fn tag_section(bucket: &Bucket) -> (html: String)
    ensures
        html@ == tag_section_html(bucket@),
{
    let ordered = sort_strings(&bucket.slugs);
    let ghost items = string_views(ordered@).map_values(|slug: Seq<char>| tag_item_html(slug));
    let mut html = "<h2 class=\"text-teal-900 font-bold\">".to_owned();
    html.append(escape(bucket.tag.as_str()).as_str());
    html.append("</h2><ul>");
    let ghost opening = html@;
    let mut k: usize = 0;
    assert(html@ =~= opening + items.take(0).flatten());
    while k < ordered.len()
        invariant
            k <= ordered.len(),
            items == string_views(ordered@).map_values(|slug: Seq<char>| tag_item_html(slug)),
            html@ == opening + items.take(k as int).flatten(),
        decreases ordered.len() - k,
    {
        let slug = &ordered[k];
        let mut item = "<li><a class=\"text-teal-600\" href=\"".to_owned();
        item.append(escape(recipe_link(slug.as_str()).as_str()).as_str());
        item.append("\">");
        item.append(escape(slug.as_str()).as_str());
        item.append("</a></li>");
        assert(item@ == items[k as int]);
        html.append(item.as_str());
        proof {
            lemma_flatten_step(items, k as int);
            assert(html@ =~= opening + items.take(k + 1).flatten());
        }
        k += 1;
    }
    assert(items.take(k as int) =~= items);
    html.append("</ul>");
    html
}

/// The tags page: for every tag of the index, in the order of the index, the
/// tag and the recipes that carry it.
pub fn tags(index: &TagIndex) -> (html: String)
    ensures
        html@ == tags_html(index@),
{
    let buckets = index.buckets();
    let ghost parts = bucket_views(buckets@).map_values(
        |bucket: BucketView| tag_section_html(bucket),
    );
    let mut content = "<section class=\"prose-sm mx-8\">".to_owned();
    let ghost opening = content@;
    let mut k: usize = 0;
    assert(content@ =~= opening + parts.take(0).flatten());
    while k < buckets.len()
        invariant
            k <= buckets.len(),
            parts == bucket_views(buckets@).map_values(
                |bucket: BucketView| tag_section_html(bucket),
            ),
            content@ == opening + parts.take(k as int).flatten(),
        decreases buckets.len() - k,
    {
        let part = tag_section(&buckets[k]);
        assert(part@ == parts[k as int]);
        content.append(part.as_str());
        proof {
            lemma_flatten_step(parts, k as int);
            assert(content@ =~= opening + parts.take(k + 1).flatten());
        }
        k += 1;
    }
    assert(parts.take(k as int) =~= parts);
    content.append("</section>");
    layout(content.as_str())
}

/// The page of a recipe whose content, as HTML, is `body`.
pub open spec fn recipe_page_html(body: Seq<char>) -> Seq<char> {
    layout_html("<article class=\"prose-sm mx-8\">"@ + body + "</article>"@)
}

/// The page around a recipe's content, given as HTML, which is put in as it is.
pub fn recipe_page(body: &str) -> (html: String)
    ensures
        html@ == recipe_page_html(body@),
{
    let mut content = "<article class=\"prose-sm mx-8\">".to_owned();
    content.append(body);
    content.append("</article>");
    layout(content.as_str())
}

/// The page of a recipe: its content, rendered to HTML, in the page layout.
pub fn recipe(shown: &Recipe) -> (html: String)
    ensures
        html@ == recipe_page_html(recipe_html(shown@.content)),
{
    let body = shown.to_html();
    recipe_page(body.as_str())
}

} // verus!
