//! YAML documents as trees of plain values. Reading YAML text is serde_yaml's;
//! the tree it returns is named here, not described.

use vstd::prelude::*;

verus! {

/// A YAML value.
#[derive(Debug, PartialEq, Eq)]
pub enum Yaml {
    /// The null value.
    Null,
    /// A boolean.
    Bool(bool),
    /// A number, integer or floating point; its value is not kept.
    Number,
    /// A string.
    Text(String),
    /// A sequence of values.
    Sequence(Vec<Yaml>),
    /// A mapping, as its entries in the order of the text.
    Mapping(Vec<YamlEntry>),
    /// A value under a `!tag`; neither is kept.
    Tagged,
}

/// One entry of a YAML mapping.
#[derive(Debug, PartialEq, Eq)]
pub struct YamlEntry {
    pub key: Yaml,
    pub value: Yaml,
}

/// The mathematical value of a [`YamlEntry`].
pub struct YamlEntryView {
    pub key: YamlView,
    pub value: YamlView,
}

/// The mathematical value of a [`Yaml`].
pub enum YamlView {
    Null,
    Bool(bool),
    Number,
    Text(Seq<char>),
    Sequence(Seq<YamlView>),
    Mapping(Seq<YamlEntryView>),
    Tagged,
}

impl View for Yaml {
    type V = YamlView;

    open spec fn view(&self) -> YamlView
        decreases self,
    {
        match self {
            Yaml::Null => YamlView::Null,
            Yaml::Bool(b) => YamlView::Bool(*b),
            Yaml::Number => YamlView::Number,
            Yaml::Text(s) => YamlView::Text(s@),
            Yaml::Sequence(items) => YamlView::Sequence(
                Seq::new(
                    items@.len(),
                    |i: int|
                        if 0 <= i < items@.len() {
                            items@[i].view()
                        } else {
                            YamlView::Null
                        },
                ),
            ),
            Yaml::Mapping(entries) => YamlView::Mapping(
                Seq::new(
                    entries@.len(),
                    |i: int|
                        if 0 <= i < entries@.len() {
                            YamlEntryView {
                                key: entries@[i].key.view(),
                                value: entries@[i].value.view(),
                            }
                        } else {
                            YamlEntryView { key: YamlView::Null, value: YamlView::Null }
                        },
                ),
            ),
            Yaml::Tagged => YamlView::Tagged,
        }
    }
}

/// The views of the items of a sequence.
pub open spec fn item_views(items: Seq<Yaml>) -> Seq<YamlView> {
    Seq::new(items.len(), |i: int| items[i]@)
}

/// The views of the entries of a mapping.
pub open spec fn entry_views(entries: Seq<YamlEntry>) -> Seq<YamlEntryView> {
    Seq::new(entries.len(), |i: int| YamlEntryView { key: entries[i].key@, value: entries[i].value@ })
}

/// The view of a sequence is the sequence of its items' views.
pub proof fn lemma_sequence_view(items: Vec<Yaml>)
    ensures
        Yaml::Sequence(items)@ == YamlView::Sequence(item_views(items@)),
{
    assert(Yaml::Sequence(items)@->Sequence_0 =~= item_views(items@));
}

/// The view of a mapping is the sequence of its entries' views.
pub proof fn lemma_mapping_view(entries: Vec<YamlEntry>)
    ensures
        Yaml::Mapping(entries)@ == YamlView::Mapping(entry_views(entries@)),
{
    let views = Yaml::Mapping(entries)@->Mapping_0;
    assert(views =~= entry_views(entries@));
}

/// The view of an optional document.
pub open spec fn document_view(doc: Option<Yaml>) -> Option<YamlView> {
    match doc {
        Some(y) => Some(y@),
        None => None,
    }
}

/// The document that serde_yaml reads from `text`: `None` where it reports an
/// error, which it does, among others, for text that is no YAML, for more than
/// one document, and for a mapping with one key twice.
pub uninterp spec fn yaml_document(text: Seq<char>) -> Option<YamlView>;

#[verifier::external_type_specification]
#[verifier::external_body]
pub struct ExYamlValue(serde_yaml::Value);

/// Turns a `serde_yaml::Value` into a [`Yaml`], variant by variant: strings,
/// booleans, sequences and mappings keep what they hold, a mapping its entries
/// in their order. Trusted; nothing is claimed of the result.
#[verifier::external_body]
fn yaml_of(value: serde_yaml::Value) -> Yaml {
    match value {
        serde_yaml::Value::Null => Yaml::Null,
        serde_yaml::Value::Bool(b) => Yaml::Bool(b),
        serde_yaml::Value::Number(_) => Yaml::Number,
        serde_yaml::Value::String(s) => Yaml::Text(s),
        serde_yaml::Value::Sequence(items) => Yaml::Sequence(items.into_iter().map(yaml_of).collect()),
        serde_yaml::Value::Mapping(entries) => Yaml::Mapping(
            entries.into_iter().map(|(k, v)| YamlEntry { key: yaml_of(k), value: yaml_of(v) }).collect(),
        ),
        serde_yaml::Value::Tagged(_) => Yaml::Tagged,
    }
}

/// Reads `text` with `serde_yaml::from_str` as a `serde_yaml::Value`. Trusted:
/// the result is the document named [`yaml_document`], `None` where serde_yaml
/// returns an error; nothing more is claimed of it.
#[verifier::external_body]
pub(crate) fn parse_yaml(text: &str) -> (doc: Option<Yaml>)
    ensures
        document_view(doc) == yaml_document(text@),
{
    serde_yaml::from_str::<serde_yaml::Value>(text).ok().map(yaml_of)
}

} // verus!
