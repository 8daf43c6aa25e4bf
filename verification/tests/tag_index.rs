use recipe_site::tags::TagIndex;

fn s(text: &str) -> String {
    text.to_string()
}

fn strings(items: &[&str]) -> Vec<String> {
    items.iter().map(|s| s.to_string()).collect()
}

fn contents(index: &TagIndex) -> Vec<(String, Vec<String>)> {
    index.buckets().iter().map(|b| (b.tag.clone(), b.slugs.clone())).collect()
}

#[test]
fn a_new_index_is_empty() {
    let index = TagIndex::new();
    assert_eq!(index.len(), 0);
    assert!(index.buckets().is_empty());
    assert!(index.get(&s("asian")).is_none());
}

#[test]
fn add_opens_a_bucket_for_a_new_tag() {
    let mut index = TagIndex::new();
    index.add(&s("asian"), &s("soy-salmon"));
    assert_eq!(contents(&index), vec![(s("asian"), strings(&["soy-salmon"]))]);
    assert_eq!(index.len(), 1);
}

#[test]
fn add_appends_to_the_bucket_of_a_known_tag() {
    let mut index = TagIndex::new();
    index.add(&s("asian"), &s("soy-salmon"));
    index.add(&s("quick"), &s("soy-salmon"));
    index.add(&s("asian"), &s("curry"));
    assert_eq!(
        contents(&index),
        vec![
            (s("asian"), strings(&["soy-salmon", "curry"])),
            (s("quick"), strings(&["soy-salmon"])),
        ]
    );
    assert_eq!(index.get(&s("asian")), Some(&strings(&["soy-salmon", "curry"])));
    assert_eq!(index.get(&s("quick")), Some(&strings(&["soy-salmon"])));
    assert!(index.get(&s("slow")).is_none());
}

#[test]
fn add_keeps_a_slug_that_comes_twice() {
    let mut index = TagIndex::new();
    index.add(&s("quick"), &s("omelette"));
    index.add(&s("quick"), &s("omelette"));
    assert_eq!(contents(&index), vec![(s("quick"), strings(&["omelette", "omelette"]))]);
}

#[test]
fn add_recipe_enters_the_recipe_under_each_tag() {
    let mut index = TagIndex::new();
    index.add_recipe(&s("soy-salmon"), &strings(&["asian", "fish"]));
    index.add_recipe(&s("curry"), &strings(&["asian"]));
    index.add_recipe(&s("toast"), &Vec::new());
    assert_eq!(
        contents(&index),
        vec![
            (s("asian"), strings(&["soy-salmon", "curry"])),
            (s("fish"), strings(&["soy-salmon"])),
        ]
    );
}

#[test]
fn no_tag_has_two_buckets_and_no_bucket_is_empty() {
    let mut index = TagIndex::new();
    for (slug, tags) in [("a", vec!["x", "y", "x"]), ("b", vec!["y", "z"]), ("c", vec!["x"])] {
        index.add_recipe(&s(slug), &strings(&tags));
    }
    let found = contents(&index);
    for (i, (tag, slugs)) in found.iter().enumerate() {
        assert!(!slugs.is_empty());
        assert!(found.iter().skip(i + 1).all(|(other, _)| other != tag));
    }
    assert_eq!(
        found,
        vec![
            (s("x"), strings(&["a", "a", "c"])),
            (s("y"), strings(&["a", "b"])),
            (s("z"), strings(&["b"])),
        ]
    );
}

#[test]
fn entering_in_two_runs_is_entering_in_one() {
    let mut two_runs = TagIndex::new();
    two_runs.add_recipe(&s("a"), &strings(&["x", "y"]));
    two_runs.add_recipe(&s("a"), &strings(&["z", "x"]));
    let mut one_run = TagIndex::new();
    one_run.add_recipe(&s("a"), &strings(&["x", "y", "z", "x"]));
    assert_eq!(contents(&two_runs), contents(&one_run));
}
