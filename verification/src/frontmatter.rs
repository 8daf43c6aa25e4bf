//! Front matter: the YAML block at the head of a recipe, and the tags it declares.

use vstd::prelude::*;
use crate::markdown::{block_views, markdown_blocks, parse_blocks, Block, BlockView, MarkdownOptions};
use crate::text::{lemma_flatten_step, remove_all, string_views, without_all};
use crate::yaml::{
    document_view, entry_views, item_views, lemma_mapping_view, lemma_sequence_view, parse_yaml,
    yaml_document, Yaml, YamlEntry, YamlEntryView, YamlView,
};

verus! {

/// What a recipe's front matter declares.
#[derive(Clone, Debug, PartialEq, Eq)]
pub struct Frontmatter {
    /// The tags, in the order of their declaration; one declared twice stands twice.
    pub tags: Vec<String>,
}

/// The value of the first entry of a mapping whose key is the string `key`.
pub open spec fn entry_value(entries: Seq<YamlEntryView>, key: Seq<char>) -> Option<YamlView>
    decreases entries.len(),
{
    if entries.len() == 0 {
        None
    } else if entries[0].key == YamlView::Text(key) {
        Some(entries[0].value)
    } else {
        entry_value(entries.skip(1), key)
    }
}

/// The strings that `items` holds, if it holds nothing but strings.
pub open spec fn text_items(items: Seq<YamlView>) -> Option<Seq<Seq<char>>> {
    if forall|i: int| 0 <= i < items.len() ==> items[i] is Text {
        Some(Seq::new(items.len(), |i: int| items[i]->Text_0))
    } else {
        None
    }
}

/// The tags that a document declares: the document is a mapping, the value under
/// its key `tags` is a sequence, and every item of that is a string. Any other
/// document declares none in a form that is read.
pub open spec fn declared_tags(doc: YamlView) -> Option<Seq<Seq<char>>> {
    match doc {
        YamlView::Mapping(entries) => match entry_value(entries, "tags"@) {
            Some(YamlView::Sequence(items)) => text_items(items),
            _ => None,
        },
        _ => None,
    }
}

/// The tags of an optional document: none where there is no document or where
/// it is not of the form that [`declared_tags`] reads.
pub open spec fn document_tags(doc: Option<YamlView>) -> Seq<Seq<char>> {
    match doc {
        Some(d) => match declared_tags(d) {
            Some(tags) => tags,
            None => Seq::empty(),
        },
        None => Seq::empty(),
    }
}

/// The tags of a top-level block: those of the YAML document that is left of a
/// front matter block when its `---` delimiters are taken out, none for any other
/// block.
pub open spec fn block_tags(block: BlockView) -> Seq<Seq<char>> {
    match block {
        BlockView::FrontMatter(text) => document_tags(yaml_document(without_all(text, "---"@))),
        BlockView::Other => Seq::empty(),
    }
}

/// The tags of a document's top-level blocks, block after block.
pub open spec fn blocks_tags(blocks: Seq<BlockView>) -> Seq<Seq<char>> {
    blocks.map_values(|b: BlockView| block_tags(b)).flatten()
}

/// A document without a front matter block among its top-level blocks declares
/// no tags.
pub proof fn no_front_matter_declares_no_tags(blocks: Seq<BlockView>)
    requires
        forall|i: int| 0 <= i < blocks.len() ==> blocks[i] is Other,
    ensures
        blocks_tags(blocks) == Seq::<Seq<char>>::empty(),
    decreases blocks.len(),
{
    let per_block = blocks.map_values(|b: BlockView| block_tags(b));
    if blocks.len() > 0 {
        let rest = blocks.drop_first();
        assert forall|i: int| 0 <= i < rest.len() implies rest[i] is Other by {
            assert(rest[i] == blocks[i + 1]);
        }
        no_front_matter_declares_no_tags(rest);
        assert(per_block.drop_first() =~= rest.map_values(|b: BlockView| block_tags(b)));
        assert(per_block.first() == block_tags(blocks[0]));
        assert(blocks_tags(blocks) =~= Seq::<Seq<char>>::empty());
    }
}

impl Frontmatter {
    /// The declared tags as character sequences.
    pub open spec fn tags_view(&self) -> Seq<Seq<char>> {
        string_views(self.tags@)
    }

    /// The front matter that declares nothing.
    pub fn default() -> (front: Frontmatter)
        ensures
            front.tags_view() == Seq::<Seq<char>>::empty(),
    {
        let front = Frontmatter { tags: Vec::new() };
        assert(front.tags_view() =~= Seq::<Seq<char>>::empty());
        front
    }

    /// Reads the front matter off a YAML document: `Some` exactly where the
    /// document declares tags in the form of [`declared_tags`], and then with those.
    pub fn from_yaml(doc: &Yaml) -> (front: Option<Frontmatter>)
        ensures
            match front {
                Some(f) => declared_tags(doc@) == Some(f.tags_view()),
                None => declared_tags(doc@) is None,
            },
    {
        match doc {
            Yaml::Mapping(entries) => {
                proof {
                    lemma_mapping_view(*entries);
                }
                match find_entry(entries, "tags") {
                    Some(at) => match &entries[at].value {
                        Yaml::Sequence(items) => {
                            proof {
                                lemma_sequence_view(*items);
                            }
                            match strings_of(items) {
                                Some(tags) => Some(Frontmatter { tags }),
                                None => None,
                            }
                        },
                        _ => None,
                    },
                    None => None,
                }
            },
            _ => None,
        }
    }

    /// The front matter of an optional document, the one that declares nothing
    /// where there is no document or where it cannot be read off it.
    pub fn from_document(doc: &Option<Yaml>) -> (front: Frontmatter)
        ensures
            front.tags_view() == document_tags(document_view(*doc)),
    {
        match doc {
            Some(d) => match Frontmatter::from_yaml(d) {
                Some(front) => front,
                None => Frontmatter::default(),
            },
            None => Frontmatter::default(),
        }
    }
}

/// The position of the first entry whose key is the string `key`.
fn find_entry(entries: &Vec<YamlEntry>, key: &str) -> (at: Option<usize>)
    ensures
        match at {
            Some(i) => i < entries@.len() && entry_value(entry_views(entries@), key@) == Some(
                entries@[i as int].value@,
            ),
            None => entry_value(entry_views(entries@), key@) is None,
        },
{
    let ghost all = entry_views(entries@);
    let wanted = key.to_owned();
    let mut i: usize = 0;
    assert(all.skip(0) =~= all);
    while i < entries.len()
        invariant
            i <= entries.len(),
            wanted@ == key@,
            all == entry_views(entries@),
            entry_value(all.skip(i as int), key@) == entry_value(all, key@),
        decreases entries.len() - i,
    {
        let ghost rest = all.skip(i as int);
        assert(rest[0] == all[i as int]);
        assert(rest.skip(1) =~= all.skip(i + 1));
        let hit = match &entries[i].key {
            Yaml::Text(name) => *name == wanted,
            _ => false,
        };
        if hit {
            return Some(i);
        }
        i += 1;
    }
    None
}

/// The strings that `items` holds, if it holds nothing but strings.
fn strings_of(items: &Vec<Yaml>) -> (out: Option<Vec<String>>)
    ensures
        match out {
            Some(strings) => text_items(item_views(items@)) == Some(string_views(strings@)),
            None => text_items(item_views(items@)) is None,
        },
{
    let ghost all = item_views(items@);
    let mut out: Vec<String> = Vec::new();
    let mut i: usize = 0;
    while i < items.len()
        invariant
            i <= items.len(),
            all == item_views(items@),
            out@.len() == i,
            forall|j: int| 0 <= j < i ==> all[j] == YamlView::Text(#[trigger] out@[j]@),
        decreases items.len() - i,
    {
        match &items[i] {
            Yaml::Text(s) => {
                out.push(s.clone());
            },
            _ => {
                assert(!(all[i as int] is Text));
                return None;
            },
        }
        i += 1;
    }
    assert forall|j: int| 0 <= j < all.len() implies all[j] is Text by {
        assert(all[j] == YamlView::Text(out@[j]@));
    }
    assert forall|j: int| 0 <= j < all.len() implies string_views(out@)[j] == all[j]->Text_0 by {
        assert(all[j] == YamlView::Text(out@[j]@));
    }
    assert(string_views(out@) =~= Seq::new(all.len(), |i: int| all[i]->Text_0));
    Some(out)
}

/// The tags that one top-level block of a document declares.
pub fn process_node(node: &Block) -> (tags: Vec<String>)
    ensures
        string_views(tags@) == block_tags(node@),
{
    match node {
        Block::FrontMatter(text) => {
            let raw = remove_all(text.as_str(), "---");
            let doc = parse_yaml(raw.as_str());
            Frontmatter::from_document(&doc).tags
        },
        Block::Other => {
            let tags: Vec<String> = Vec::new();
            assert(string_views(tags@) =~= Seq::<Seq<char>>::empty());
            tags
        },
    }
}

/// The tags that the given top-level blocks declare, block after block.
pub fn tags_of_blocks(blocks: &Vec<Block>) -> (tags: Vec<String>)
    ensures
        string_views(tags@) == blocks_tags(block_views(blocks@)),
{
    let ghost per_block = block_views(blocks@).map_values(|b: BlockView| block_tags(b));
    let mut tags: Vec<String> = Vec::new();
    let mut i: usize = 0;
    assert(string_views(tags@) =~= per_block.take(0).flatten());
    while i < blocks.len()
        invariant
            i <= blocks.len(),
            per_block == block_views(blocks@).map_values(|b: BlockView| block_tags(b)),
            string_views(tags@) == per_block.take(i as int).flatten(),
        decreases blocks.len() - i,
    {
        let mut found = process_node(&blocks[i]);
        let ghost before = tags@;
        let ghost added = found@;
        tags.append(&mut found);
        proof {
            assert(string_views(tags@) =~= string_views(before) + string_views(added));
            assert(per_block[i as int] == block_tags(blocks@[i as int]@));
            lemma_flatten_step(per_block, i as int);
        }
        i += 1;
    }
    assert(per_block.take(i as int) =~= per_block);
    tags
}

/// The tags that the markdown text `content` declares in its front matter, in
/// the order of their declaration; none where it has no front matter or where
/// that cannot be read.
pub fn extract_tags(options: &MarkdownOptions, content: &String) -> (tags: Vec<String>)
    ensures
        string_views(tags@) == blocks_tags(
            markdown_blocks(
                content@,
                options.relaxed_tasklist_matching,
                options.tasklist,
                options.delimiter(),
            ),
        ),
{
    let blocks = parse_blocks(content.as_str(), options);
    tags_of_blocks(&blocks)
}

} // verus!
