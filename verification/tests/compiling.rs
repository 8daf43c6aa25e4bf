use recipe_site::compiler::{Build, Compiler, Page};
use recipe_site::loader::Entry;
use recipe_site::recipe::Recipe;
use recipe_site::server::{index_route, Config, INTERNAL_SERVER_ERROR};

fn s(text: &str) -> String {
    text.to_string()
}

fn strings(items: &[&str]) -> Vec<String> {
    items.iter().map(|s| s.to_string()).collect()
}

fn compiler() -> Compiler {
    Compiler::new(&s("./recipes"), &s("./compiled"))
}

fn recipe(name: &str, content: &str) -> Recipe {
    Recipe::new(name, format!("./recipes/{}", name), content.to_string())
}

fn site() -> Vec<Recipe> {
    vec![
        recipe("soy-salmon", "---\ntags: [asian, fish]\n---\n# Honey Soy Salmon\n"),
        recipe("curry", "---\ntags: [asian]\n---\n# Curry\n"),
        recipe("toast", "# Toast\n"),
    ]
}

fn index_of(build: &Build) -> Vec<(String, Vec<String>)> {
    build.tag_index().buckets().iter().map(|b| (b.tag.clone(), b.slugs.clone())).collect()
}

/// Writes every page as the results say, and gives the directories of the
/// pages that were handed out.
fn drive(build: &mut Build, results: &[bool]) -> Vec<Vec<String>> {
    let mut handed_out = Vec::new();
    for ok in results {
        match build.next() {
            Some(page) => handed_out.push(page.directory()),
            None => break,
        }
        build.record(*ok);
    }
    handed_out
}

#[test]
fn new_compiler_reads_with_the_options_of_the_site() {
    let compiler = Compiler::new(&s("in"), &s("out"));
    assert_eq!(compiler.src_dir(), "in");
    assert_eq!(compiler.output_dir(), "out");
    assert!(compiler.options().relaxed_tasklist_matching);
    assert!(compiler.options().tasklist);
    assert_eq!(compiler.options().front_matter_delimiter, Some(s("---")));
}

#[test]
fn compiled_recipe_page_holds_the_heading() {
    let recipes = vec![recipe("soy-salmon", "# Honey Soy Salmon\n![My Picture](./image.jpg)")];
    let build = compiler().build(&recipes);
    let page = build.next().unwrap();
    assert_eq!(page.directory(), strings(&["recipes", "soy-salmon"]));
    assert_eq!(page.file_name(), "index.html");
    assert!(page.html().contains("Honey Soy Salmon"));
    assert!(page.html().contains("<img src=\"./image.jpg\" alt=\"My Picture\" />"));
}

#[test]
fn build_plans_a_page_per_recipe_and_the_tags_page() {
    let mut build = compiler().build(&site());
    assert!(build.result().is_none());
    let handed_out = drive(&mut build, &[true, true, true, true]);
    assert_eq!(
        handed_out,
        vec![
            strings(&["recipes", "soy-salmon"]),
            strings(&["recipes", "curry"]),
            strings(&["recipes", "toast"]),
            strings(&["tags"]),
        ]
    );
    assert!(build.next().is_none());
    assert_eq!(build.result(), Some(Ok(())));
}

#[test]
fn build_of_no_recipes_writes_the_tags_page_alone() {
    let mut build = compiler().build(&Vec::new());
    match build.next() {
        Some(Page::Tags { html }) => assert!(html.contains("<section class=\"prose-sm mx-8\"></section>")),
        _ => panic!("the tags page was not handed out"),
    }
    build.record(true);
    assert_eq!(build.result(), Some(Ok(())));
}

#[test]
fn tag_index_follows_the_order_of_the_recipes() {
    let build = compiler().build(&site());
    assert_eq!(
        index_of(&build),
        vec![
            (s("asian"), strings(&["soy-salmon", "curry"])),
            (s("fish"), strings(&["soy-salmon"])),
        ]
    );
}

#[test]
fn compiling_twice_gives_the_same_tag_index_and_pages() {
    let first = compiler().build(&site());
    let second = compiler().build(&site());
    assert_eq!(index_of(&first), index_of(&second));
    assert_eq!(first.next().unwrap().html(), second.next().unwrap().html());
}

#[test]
fn tags_page_shows_the_tag_index() {
    let mut build = compiler().build(&site());
    drive(&mut build, &[true, true, true]);
    let page = build.next().unwrap();
    assert_eq!(page.directory(), strings(&["tags"]));
    assert_eq!(page.file_name(), "index.html");
    assert!(page.html().contains(
        "<h2 class=\"text-teal-900 font-bold\">asian</h2><ul><li><a class=\"text-teal-600\" href=\"/recipes/curry\">curry</a></li><li><a class=\"text-teal-600\" href=\"/recipes/soy-salmon\">soy-salmon</a></li></ul>"
    ));
}

#[test]
fn failed_recipe_write_ends_the_build_before_the_tags_page() {
    let mut build = compiler().build(&site());
    let handed_out = drive(&mut build, &[true, false, true, true]);
    assert_eq!(
        handed_out,
        vec![strings(&["recipes", "soy-salmon"]), strings(&["recipes", "curry"])]
    );
    assert!(build.next().is_none());
    assert_eq!(build.result(), Some(Err(s("Failed to write curry"))));
    build.record(true);
    assert!(build.next().is_none());
    assert_eq!(build.result(), Some(Err(s("Failed to write curry"))));
}

#[test]
fn failed_first_write_hands_out_nothing_more() {
    let mut build = compiler().build(&site());
    let handed_out = drive(&mut build, &[false, true, true, true]);
    assert_eq!(handed_out, vec![strings(&["recipes", "soy-salmon"])]);
    assert_eq!(build.result(), Some(Err(s("Failed to write soy-salmon"))));
}

#[test]
fn failed_tags_page_fails_the_build() {
    let mut build = compiler().build(&site());
    let handed_out = drive(&mut build, &[true, true, true, false]);
    assert_eq!(handed_out.len(), 4);
    assert_eq!(build.result(), Some(Err(s("Failed to write tags page"))));
    assert!(build.next().is_none());
}

#[test]
fn build_is_not_over_while_a_page_is_pending() {
    let mut build = compiler().build(&site());
    drive(&mut build, &[true, true]);
    assert!(build.result().is_none());
    assert!(build.next().is_some());
}

#[test]
fn failure_names_the_page() {
    let page = Page::Recipe { slug: s("soy-salmon"), html: String::new() };
    assert_eq!(page.failure(), "Failed to write soy-salmon");
    assert_eq!(Page::Tags { html: String::new() }.failure(), "Failed to write tags page");
}

#[test]
fn index_route_answers_with_the_index_page() {
    let listing = vec![Entry {
        name: s("soy-salmon"),
        path: s("./recipes/soy-salmon"),
        is_dir: true,
        content: Some(s("# Honey Soy Salmon")),
    }];
    let body = index_route(Ok(listing)).unwrap();
    assert!(body.contains("What's for dinner?"));
    assert!(body.contains("href=\"/recipes/soy-salmon\""));
    assert!(body.contains("soy salmon"));
}

#[test]
fn index_route_answers_a_failed_listing_with_a_server_error() {
    assert_eq!(index_route(Err(s("No such file or directory"))), Err(500));
    assert_eq!(INTERNAL_SERVER_ERROR, 500);
}

#[test]
fn config_falls_back_to_the_default_paths() {
    let config = Config::resolve(None, None);
    assert_eq!(config.recipes_path, "./recipes");
    assert_eq!(config.compiled_path, "./compiled");
}

#[test]
fn config_keeps_the_paths_that_were_set() {
    let config = Config::resolve(Some(s("/srv/recipes")), None);
    assert_eq!(config.recipes_path, "/srv/recipes");
    assert_eq!(config.compiled_path, "./compiled");
    let config = Config::resolve(None, Some(s("/srv/out")));
    assert_eq!(config.recipes_path, "./recipes");
    assert_eq!(config.compiled_path, "/srv/out");
}
