use recipe_site::compiler::Compiler;
use recipe_site::frontmatter::{extract_tags, process_node, tags_of_blocks, Frontmatter};
use recipe_site::markdown::{Block, MarkdownOptions};
use recipe_site::yaml::{Yaml, YamlEntry};

fn entry(key: Yaml, value: Yaml) -> YamlEntry {
    YamlEntry { key, value }
}

fn text(s: &str) -> Yaml {
    Yaml::Text(s.to_string())
}

fn tags_of(front: Option<Frontmatter>) -> Option<Vec<String>> {
    front.map(|f| f.tags)
}

#[test]
fn tags_extract_correctly() {
    let compiler = Compiler::new(&String::default(), &String::default());
    let content = "---
tags:
- asian
- curry
---
"
    .to_string();
    let expected_tags = vec![String::from("asian"), String::from("curry")];
    let tags = extract_tags(compiler.options(), &content);
    assert_eq!(expected_tags, tags);
}

#[test]
fn flow_style_tags_are_extracted_in_order() {
    let options = MarkdownOptions::site_default();
    let content = "---\ntags: [asian, curry]\n---\n# Curry\n".to_string();
    assert_eq!(extract_tags(&options, &content), vec!["asian".to_string(), "curry".to_string()]);
}

#[test]
fn no_front_matter_gives_no_tags() {
    let options = MarkdownOptions::site_default();
    let content = "# Honey Soy Salmon".to_string();
    assert_eq!(extract_tags(&options, &content), Vec::<String>::new());
}

#[test]
fn front_matter_behind_the_first_line_is_not_read() {
    let options = MarkdownOptions::site_default();
    let content = "# Title\n\n---\ntags: [late]\n---\n".to_string();
    assert_eq!(extract_tags(&options, &content), Vec::<String>::new());
}

#[test]
fn front_matter_is_not_read_without_a_delimiter_option() {
    let options = MarkdownOptions {
        relaxed_tasklist_matching: true,
        tasklist: true,
        front_matter_delimiter: None,
    };
    let content = "---\ntags: [asian]\n---\n".to_string();
    assert_eq!(extract_tags(&options, &content), Vec::<String>::new());
}

#[test]
fn duplicate_tags_are_kept() {
    let options = MarkdownOptions::site_default();
    let content = "---\ntags: [quick, quick, easy]\n---\n".to_string();
    assert_eq!(
        extract_tags(&options, &content),
        vec!["quick".to_string(), "quick".to_string(), "easy".to_string()]
    );
}

#[test]
fn other_keys_are_ignored() {
    let options = MarkdownOptions::site_default();
    let content = "---\ntitle: Salmon\ntags: [fish]\nserves: 2\n---\n".to_string();
    assert_eq!(extract_tags(&options, &content), vec!["fish".to_string()]);
}

#[test]
fn malformed_yaml_gives_no_tags() {
    let options = MarkdownOptions::site_default();
    let content = "---\ntags: [unclosed\n---\n".to_string();
    assert_eq!(extract_tags(&options, &content), Vec::<String>::new());
}

#[test]
fn tags_that_are_no_list_give_no_tags() {
    let options = MarkdownOptions::site_default();
    let content = "---\ntags: asian\n---\n".to_string();
    assert_eq!(extract_tags(&options, &content), Vec::<String>::new());
}

#[test]
fn missing_tags_key_gives_no_tags() {
    let options = MarkdownOptions::site_default();
    let content = "---\ntitle: Salmon\n---\n".to_string();
    assert_eq!(extract_tags(&options, &content), Vec::<String>::new());
}

#[test]
fn process_node_reads_a_front_matter_block() {
    let node = Block::FrontMatter("---\ntags:\n- asian\n- curry\n---\n".to_string());
    assert_eq!(process_node(&node), vec!["asian".to_string(), "curry".to_string()]);
}

#[test]
fn process_node_takes_the_delimiters_out_wherever_they_stand() {
    // Without its hyphen runs the block reads `tags: [ab]`.
    let node = Block::FrontMatter("---\ntags: [a---b]\n---\n".to_string());
    assert_eq!(process_node(&node), vec!["ab".to_string()]);
}

#[test]
fn process_node_finds_nothing_in_other_blocks() {
    assert_eq!(process_node(&Block::Other), Vec::<String>::new());
}

#[test]
fn tags_of_blocks_go_block_after_block() {
    let blocks = vec![
        Block::FrontMatter("---\ntags: [a, b]\n---\n".to_string()),
        Block::Other,
        Block::FrontMatter("---\ntags: [c]\n---\n".to_string()),
    ];
    assert_eq!(
        tags_of_blocks(&blocks),
        vec!["a".to_string(), "b".to_string(), "c".to_string()]
    );
    assert_eq!(tags_of_blocks(&Vec::new()), Vec::<String>::new());
}

#[test]
fn frontmatter_default_declares_nothing() {
    assert_eq!(Frontmatter::default().tags, Vec::<String>::new());
}

#[test]
fn from_yaml_reads_a_mapping_with_tags() {
    let doc = Yaml::Mapping(vec![
        entry(text("title"), text("Salmon")),
        entry(text("tags"), Yaml::Sequence(vec![text("asian"), text("curry")])),
    ]);
    assert_eq!(
        tags_of(Frontmatter::from_yaml(&doc)),
        Some(vec!["asian".to_string(), "curry".to_string()])
    );
}

#[test]
fn from_yaml_reads_an_empty_list_of_tags() {
    let doc = Yaml::Mapping(vec![entry(text("tags"), Yaml::Sequence(Vec::new()))]);
    assert_eq!(tags_of(Frontmatter::from_yaml(&doc)), Some(Vec::new()));
}

#[test]
fn from_yaml_goes_by_the_first_entry_for_tags() {
    let doc = Yaml::Mapping(vec![
        entry(text("tags"), Yaml::Sequence(vec![text("first")])),
        entry(text("tags"), Yaml::Sequence(vec![text("second")])),
    ]);
    assert_eq!(tags_of(Frontmatter::from_yaml(&doc)), Some(vec!["first".to_string()]));
}

#[test]
fn from_yaml_refuses_what_is_no_mapping() {
    assert!(Frontmatter::from_yaml(&Yaml::Null).is_none());
    assert!(Frontmatter::from_yaml(&text("tags")).is_none());
    assert!(Frontmatter::from_yaml(&Yaml::Sequence(vec![text("asian")])).is_none());
    assert!(Frontmatter::from_yaml(&Yaml::Bool(true)).is_none());
    assert!(Frontmatter::from_yaml(&Yaml::Number).is_none());
    assert!(Frontmatter::from_yaml(&Yaml::Tagged).is_none());
}

#[test]
fn from_yaml_refuses_a_mapping_without_tags() {
    let doc = Yaml::Mapping(vec![entry(text("title"), text("Salmon"))]);
    assert!(Frontmatter::from_yaml(&doc).is_none());
    assert!(Frontmatter::from_yaml(&Yaml::Mapping(Vec::new())).is_none());
}

#[test]
fn from_yaml_refuses_tags_that_are_no_sequence() {
    let doc = Yaml::Mapping(vec![entry(text("tags"), text("asian"))]);
    assert!(Frontmatter::from_yaml(&doc).is_none());
}

#[test]
fn from_yaml_refuses_a_tag_that_is_no_string() {
    let doc = Yaml::Mapping(vec![entry(
        text("tags"),
        Yaml::Sequence(vec![text("asian"), Yaml::Number]),
    )]);
    assert!(Frontmatter::from_yaml(&doc).is_none());
}

#[test]
fn from_yaml_goes_by_string_keys_only() {
    let doc = Yaml::Mapping(vec![
        entry(Yaml::Sequence(vec![text("tags")]), Yaml::Sequence(vec![text("wrong")])),
        entry(text("tags"), Yaml::Sequence(vec![text("right")])),
    ]);
    assert_eq!(tags_of(Frontmatter::from_yaml(&doc)), Some(vec!["right".to_string()]));
}

#[test]
fn from_document_falls_back_to_nothing() {
    assert_eq!(Frontmatter::from_document(&None).tags, Vec::<String>::new());
    assert_eq!(Frontmatter::from_document(&Some(Yaml::Null)).tags, Vec::<String>::new());
    let doc = Yaml::Mapping(vec![entry(text("tags"), Yaml::Sequence(vec![text("fish")]))]);
    assert_eq!(Frontmatter::from_document(&Some(doc)).tags, vec!["fish".to_string()]);
}

#[test]
fn numbers_among_the_tags_void_the_front_matter() {
    let options = MarkdownOptions::site_default();
    let content = "---\ntags: [dinner, 2024]\n---\n".to_string();
    assert_eq!(extract_tags(&options, &content), Vec::<String>::new());
}

#[test]
fn a_key_given_twice_voids_the_front_matter() {
    let options = MarkdownOptions::site_default();
    let content = "---\ntags: [a]\ntags: [b]\n---\n".to_string();
    assert_eq!(extract_tags(&options, &content), Vec::<String>::new());
}

#[test]
fn front_matter_with_windows_line_ends_is_read() {
    let options = MarkdownOptions::site_default();
    let content = "---\r\ntags: [asian]\r\n---\r\n# Curry\r\n".to_string();
    assert_eq!(extract_tags(&options, &content), vec!["asian".to_string()]);
}

#[test]
fn front_matter_behind_a_byte_order_mark_is_read() {
    let options = MarkdownOptions::site_default();
    let content = "\u{feff}---\ntags: [asian]\n---\n".to_string();
    assert_eq!(extract_tags(&options, &content), vec!["asian".to_string()]);
}

#[test]
fn empty_front_matter_gives_no_tags() {
    let options = MarkdownOptions::site_default();
    assert_eq!(extract_tags(&options, &"---\n\n---\n".to_string()), Vec::<String>::new());
    assert_eq!(extract_tags(&options, &"---\n---\n".to_string()), Vec::<String>::new());
    assert_eq!(extract_tags(&options, &String::new()), Vec::<String>::new());
}

#[test]
fn front_matter_goes_by_the_delimiter_of_the_options() {
    let options = MarkdownOptions {
        relaxed_tasklist_matching: false,
        tasklist: false,
        front_matter_delimiter: Some("+++".to_string()),
    };
    let content = "+++\ntags: [asian]\n+++\n".to_string();
    let tags = extract_tags(&options, &content);
    // The block is found, but `+++` is not what is taken out of it, so what is
    // left is no YAML mapping.
    assert_eq!(tags, Vec::<String>::new());
}
