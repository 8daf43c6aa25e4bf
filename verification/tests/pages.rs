use recipe_site::recipe::Recipe;
use recipe_site::tags::TagIndex;
use recipe_site::views::{
    head, index, layout, nav_link, recipe, recipe_link, recipe_page, tag_section, tags,
};

const HEAD: &str = "<head><meta name=\"viewport\" content=\"width=device-width, initial-scale=1\"></meta><script src=\"https://cdn.tailwindcss.com?plugins=typography\"></script></head>";
const BODY_OPEN: &str = "<body><nav class=\"my-4 px-8 w-full flex justify-between items-center print:hidden\"><a href=\"/\" class=\"text-teal-700 text-lg\">What's for dinner?</a><div class=\"space-x-4\"><a href=\"/tags\" class=\"text-teal-600 tracking-tight font-sm\">Browse by tags</a></div></nav><main>";
const BODY_CLOSE: &str = "</main><footer class=\"w-full my-12 text-xs text-center\"><code>&lt;/&gt; by Jonny</code></footer></body>";

fn page(content: &str) -> String {
    format!("{}{}{}{}", HEAD, BODY_OPEN, content, BODY_CLOSE)
}

fn named(name: &str) -> Recipe {
    Recipe::new(name, String::new(), String::new())
}

fn s(text: &str) -> String {
    text.to_string()
}

#[test]
fn nav_link_is_an_anchor() {
    assert_eq!(
        nav_link("Browse by tags", "/tags"),
        "<a href=\"/tags\" class=\"text-teal-600 tracking-tight font-sm\">Browse by tags</a>"
    );
}

#[test]
fn nav_link_escapes_text_and_address() {
    assert_eq!(
        nav_link("Fish & <Chips> \"now\"", "/a?b=1&c=\"2\""),
        "<a href=\"/a?b=1&amp;c=&quot;2&quot;\" class=\"text-teal-600 tracking-tight font-sm\">Fish &amp; &lt;Chips&gt; &quot;now&quot;</a>"
    );
}

#[test]
fn escaping_leaves_other_characters_alone() {
    assert_eq!(
        nav_link("it's 100% crème brûlée 🍮", "/"),
        "<a href=\"/\" class=\"text-teal-600 tracking-tight font-sm\">it's 100% crème brûlée 🍮</a>"
    );
}

#[test]
fn head_is_fixed() {
    assert_eq!(head(), HEAD);
}

#[test]
fn layout_wraps_its_content_unchanged() {
    assert_eq!(layout("<p>a & b</p>"), page("<p>a & b</p>"));
    assert_eq!(layout(""), page(""));
}

#[test]
fn recipe_link_leads_below_recipes() {
    assert_eq!(recipe_link("soy-salmon"), "/recipes/soy-salmon");
    assert_eq!(recipe_link(""), "/recipes/");
}

#[test]
fn index_lists_one_recipe() {
    let html = index(vec![named("soy-salmon")]);
    assert!(html.contains("What's for dinner?"));
    assert!(html.contains("href=\"/recipes/soy-salmon\""));
    assert!(html.contains("soy salmon"));
    assert!(html.contains(
        "<ul class=\"ml-1\"><li><a class=\"text-teal-600 font-bold\" href=\"/recipes/soy-salmon\">soy salmon</a></li></ul>"
    ));
}

#[test]
fn index_is_the_whole_page() {
    let why = "<section class=\"mt-24 p-24 w-full bg-teal-900\"><div class=\"mx-8 text-teal-50\"><h2 class=\"text-teal-50 text-xl\">Why?</h2><p class=\"max-w-xl text-sm\">Each week I'm asked &quot;What should we have for dinner this week?&quot;. This question stumps me. &quot;But it's okay&quot; I think to myself, &quot;I can Google it!&quot; But doing so only results in disappointment as I fight ads, popups and woefully slow websites. This website is an attempt to capture the recipes we enjoy and share them without any of the nonsense that comes with mainstream recipe websites.</p></div></section>";
    let list_open = "<section class=\"mt-24 mx-8\"><p class=\"text-2xl max-w-lg\">Recipes, without the ads and newsletter popups.</p><div class=\"mt-24\"><h2 class=\"text-xl mb-2 text-teal-900 font-bold\">Our Recipes.</h2><ul class=\"ml-1\">";
    let expected = page(&format!("{}{}{}", list_open, "</ul></div></section>", why));
    assert_eq!(index(Vec::new()), expected);
}

#[test]
fn index_sorts_the_recipes_by_slug() {
    let html = index(vec![named("pea-soup"), named("apple-pie"), named("beef-stew")]);
    let apple = html.find("/recipes/apple-pie").unwrap();
    let beef = html.find("/recipes/beef-stew").unwrap();
    let pea = html.find("/recipes/pea-soup").unwrap();
    assert!(apple < beef && beef < pea);
    assert!(html.contains(
        "<li><a class=\"text-teal-600 font-bold\" href=\"/recipes/apple-pie\">apple pie</a></li><li><a class=\"text-teal-600 font-bold\" href=\"/recipes/beef-stew\">beef stew</a></li><li><a class=\"text-teal-600 font-bold\" href=\"/recipes/pea-soup\">pea soup</a></li>"
    ));
}

#[test]
fn index_keeps_a_slug_that_comes_twice() {
    let html = index(vec![named("pie"), named("pie")]);
    assert_eq!(html.matches("href=\"/recipes/pie\"").count(), 2);
}

#[test]
fn index_escapes_slug_and_title() {
    let html = index(vec![named("fish-&-chips")]);
    assert!(html.contains("href=\"/recipes/fish-&amp;-chips\">fish &amp; chips</a>"));
}

#[test]
fn tag_section_lists_the_sorted_slugs_under_the_tag() {
    let mut index = TagIndex::new();
    index.add(&s("asian"), &s("soy-salmon"));
    index.add(&s("asian"), &s("curry"));
    assert_eq!(
        tag_section(&index.buckets()[0]),
        "<h2 class=\"text-teal-900 font-bold\">asian</h2><ul><li><a class=\"text-teal-600\" href=\"/recipes/curry\">curry</a></li><li><a class=\"text-teal-600\" href=\"/recipes/soy-salmon\">soy-salmon</a></li></ul>"
    );
}

#[test]
fn tags_page_goes_tag_by_tag_in_the_order_of_the_index() {
    let mut index = TagIndex::new();
    index.add(&s("quick"), &s("soy-salmon"));
    index.add(&s("asian"), &s("soy-salmon"));
    index.add(&s("quick"), &s("omelette"));
    let expected = page(
        "<section class=\"prose-sm mx-8\"><h2 class=\"text-teal-900 font-bold\">quick</h2><ul><li><a class=\"text-teal-600\" href=\"/recipes/omelette\">omelette</a></li><li><a class=\"text-teal-600\" href=\"/recipes/soy-salmon\">soy-salmon</a></li></ul><h2 class=\"text-teal-900 font-bold\">asian</h2><ul><li><a class=\"text-teal-600\" href=\"/recipes/soy-salmon\">soy-salmon</a></li></ul></section>",
    );
    assert_eq!(tags(&index), expected);
}

#[test]
fn tags_page_of_an_empty_index_has_an_empty_section() {
    assert_eq!(tags(&TagIndex::new()), page("<section class=\"prose-sm mx-8\"></section>"));
}

#[test]
fn tags_page_escapes_tags() {
    let mut index = TagIndex::new();
    index.add(&s("<b>"), &s("a\"b"));
    assert!(tags(&index).contains(
        "<h2 class=\"text-teal-900 font-bold\">&lt;b&gt;</h2><ul><li><a class=\"text-teal-600\" href=\"/recipes/a&quot;b\">a&quot;b</a></li></ul>"
    ));
}

#[test]
fn recipe_page_puts_the_body_in_unescaped() {
    assert_eq!(
        recipe_page("<h1>Soy</h1>\n"),
        page("<article class=\"prose-sm mx-8\"><h1>Soy</h1>\n</article>")
    );
}

#[test]
fn recipe_renders_the_content_into_the_layout() {
    let shown = Recipe::new("soy-salmon", String::new(), "# Honey Soy Salmon".to_string());
    assert_eq!(
        recipe(&shown),
        page("<article class=\"prose-sm mx-8\"><h1>Honey Soy Salmon</h1>\n</article>")
    );
}
