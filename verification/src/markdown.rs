//! Markdown, as far as the site needs it: the options a document is read with,
//! the top-level blocks of a parsed document, and its rendering to HTML.
//! Parsing and rendering are comrak's; what they return is named here, not
//! described.

use vstd::prelude::*;

verus! {

/// The options that a markdown document is read with.
#[derive(Clone, Debug, PartialEq, Eq)]
pub struct MarkdownOptions {
    /// Whether any character may tick a task list item, not just `x`.
    pub relaxed_tasklist_matching: bool,
    /// Whether task lists are recognised.
    pub tasklist: bool,
    /// The line that opens and closes a front matter block, if front matter is
    /// recognised.
    pub front_matter_delimiter: Option<String>,
}

impl MarkdownOptions {
    /// The front matter delimiter as a character sequence.
    pub open spec fn delimiter(&self) -> Option<Seq<char>> {
        match self.front_matter_delimiter {
            Some(d) => Some(d@),
            None => None,
        }
    }

    /// The options of this site: task lists, ticked by any character, and front
    /// matter between lines of three hyphens.
    pub open spec fn is_site_default(&self) -> bool {
        &&& self.relaxed_tasklist_matching
        &&& self.tasklist
        &&& self.delimiter() == Some("---"@)
    }

    /// The options that every recipe of the site is read with.
    pub fn site_default() -> (options: MarkdownOptions)
        ensures
            options.is_site_default(),
    {
        MarkdownOptions {
            relaxed_tasklist_matching: true,
            tasklist: true,
            front_matter_delimiter: Some("---".to_owned()),
        }
    }
}

/// A top-level block of a parsed document, as far as the site reads it.
#[derive(Clone, Debug, PartialEq, Eq)]
pub enum Block {
    /// A front matter block, with its raw text, delimiter lines included.
    FrontMatter(String),
    /// Any other block.
    Other,
}

/// The mathematical value of a [`Block`].
pub enum BlockView {
    FrontMatter(Seq<char>),
    Other,
}

impl View for Block {
    type V = BlockView;

    open spec fn view(&self) -> BlockView {
        match self {
            Block::FrontMatter(text) => BlockView::FrontMatter(text@),
            Block::Other => BlockView::Other,
        }
    }
}

/// The views of a sequence of blocks.
pub open spec fn block_views(blocks: Seq<Block>) -> Seq<BlockView> {
    blocks.map_values(|b: Block| b@)
}

/// The top-level blocks that comrak's parser finds in `content` under the given
/// options, all other options at their defaults.
pub uninterp spec fn markdown_blocks(
    content: Seq<char>,
    relaxed_tasklist_matching: bool,
    tasklist: bool,
    front_matter_delimiter: Option<Seq<char>>,
) -> Seq<BlockView>;

/// The HTML that comrak renders `content` to under the given options, all other
/// options at their defaults.
pub uninterp spec fn markdown_html(
    content: Seq<char>,
    relaxed_tasklist_matching: bool,
    tasklist: bool,
    front_matter_delimiter: Option<Seq<char>>,
) -> Seq<char>;

/// Parses `content` with `comrak::parse_document` and hands out the direct
/// children of the document node, in order: a front matter node with its text,
/// any other node as [`Block::Other`]. Trusted: the result is the one named
/// [`markdown_blocks`]; nothing more is claimed of it.
#[verifier::external_body]
pub(crate) fn parse_blocks(content: &str, options: &MarkdownOptions) -> (blocks: Vec<Block>)
    ensures
        block_views(blocks@) == markdown_blocks(
            content@,
            options.relaxed_tasklist_matching,
            options.tasklist,
            options.delimiter(),
        ),
{
    let mut opts = comrak::Options::default();
    opts.parse.relaxed_tasklist_matching = options.relaxed_tasklist_matching;
    opts.extension.tasklist = options.tasklist;
    opts.extension.front_matter_delimiter = options.front_matter_delimiter.clone();
    let arena = comrak::Arena::new();
    let root = comrak::parse_document(&arena, content, &opts);
    root.children().map(|node| match node.data().value {
        comrak::nodes::NodeValue::FrontMatter(ref text) => Block::FrontMatter(text.clone()),
        _ => Block::Other,
    }).collect()
}

/// Renders `content` with `comrak::markdown_to_html`. Trusted: the result is the
/// one named [`markdown_html`]; nothing more is claimed of it.
#[verifier::external_body]
pub(crate) fn render_html(content: &str, options: &MarkdownOptions) -> (html: String)
    ensures
        html@ == markdown_html(
            content@,
            options.relaxed_tasklist_matching,
            options.tasklist,
            options.delimiter(),
        ),
{
    let mut opts = comrak::Options::default();
    opts.parse.relaxed_tasklist_matching = options.relaxed_tasklist_matching;
    opts.extension.tasklist = options.tasklist;
    opts.extension.front_matter_delimiter = options.front_matter_delimiter.clone();
    comrak::markdown_to_html(content, &opts)
}

} // verus!
