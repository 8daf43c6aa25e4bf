//! The tag index: for every tag, the slugs of the recipes that carry it.
//!
//! The index keeps its tags in the order in which they first came up, and under
//! each tag the slugs in the order in which the recipes were added.

use vstd::prelude::*;
use crate::text::string_views;

verus! {

/// One tag with the slugs of the recipes that carry it.
#[derive(Clone, Debug, PartialEq, Eq)]
pub struct Bucket {
    pub tag: String,
    pub slugs: Vec<String>,
}

/// The mathematical value of a [`Bucket`].
pub struct BucketView {
    pub tag: Seq<char>,
    pub slugs: Seq<Seq<char>>,
}

impl View for Bucket {
    type V = BucketView;

    open spec fn view(&self) -> BucketView {
        BucketView { tag: self.tag@, slugs: string_views(self.slugs@) }
    }
}

/// The views of a sequence of buckets.
pub open spec fn bucket_views(buckets: Seq<Bucket>) -> Seq<BucketView> {
    buckets.map_values(|b: Bucket| b@)
}

/// One recipe carrying one tag: what a front matter declares, once per tag.
pub struct Declaration {
    pub tag: Seq<char>,
    pub slug: Seq<char>,
}

/// The declarations that the recipe `slug` makes with its `tags`, in their order.
pub open spec fn declarations(slug: Seq<char>, tags: Seq<Seq<char>>) -> Seq<Declaration> {
    tags.map_values(|tag: Seq<char>| Declaration { tag, slug })
}

/// Whether `index` has a bucket for `tag`.
pub open spec fn has_tag(index: Seq<BucketView>, tag: Seq<char>) -> bool {
    exists|i: int| 0 <= i < index.len() && #[trigger] index[i].tag == tag
}

/// The position of the first bucket for `tag` in `index`; the length of `index`
/// where it has none.
pub open spec fn position(index: Seq<BucketView>, tag: Seq<char>) -> int
    decreases index.len(),
{
    if index.len() == 0 {
        0
    } else if index[0].tag == tag {
        0
    } else {
        1 + position(index.skip(1), tag)
    }
}

/// The slugs that `index` holds under `tag`: those of its first bucket for that
/// tag, none where it has no such bucket.
pub open spec fn slugs_under(index: Seq<BucketView>, tag: Seq<char>) -> Seq<Seq<char>> {
    if position(index, tag) < index.len() {
        index[position(index, tag)].slugs
    } else {
        Seq::empty()
    }
}

/// `index` after `slug` was added under `tag`: at the end of the first bucket
/// for that tag, or in a new bucket at the end of the index where it has none.
pub open spec fn with_entry(index: Seq<BucketView>, tag: Seq<char>, slug: Seq<char>) -> Seq<
    BucketView,
> {
    let at = position(index, tag);
    if at < index.len() {
        index.update(at, BucketView { tag, slugs: index[at].slugs.push(slug) })
    } else {
        index.push(BucketView { tag, slugs: seq![slug] })
    }
}

/// `index` after the declarations `added` were entered, one after the other.
pub open spec fn extended(index: Seq<BucketView>, added: Seq<Declaration>) -> Seq<BucketView>
    decreases added.len(),
{
    if added.len() == 0 {
        index
    } else {
        with_entry(extended(index, added.drop_last()), added.last().tag, added.last().slug)
    }
}

/// The index of the declarations `made`, entered into an empty index.
pub open spec fn index_of(made: Seq<Declaration>) -> Seq<BucketView> {
    extended(Seq::empty(), made)
}

/// Whether one of the declarations `made` is of `tag`.
pub open spec fn declares(made: Seq<Declaration>, tag: Seq<char>) -> bool {
    exists|i: int| 0 <= i < made.len() && #[trigger] made[i].tag == tag
}

/// The slugs of the declarations of `tag` among `made`, in their order.
pub open spec fn slugs_declared(made: Seq<Declaration>, tag: Seq<char>) -> Seq<Seq<char>>
    decreases made.len(),
{
    if made.len() == 0 {
        Seq::empty()
    } else if made.last().tag == tag {
        slugs_declared(made.drop_last(), tag).push(made.last().slug)
    } else {
        slugs_declared(made.drop_last(), tag)
    }
}

/// No tag has two buckets, and no bucket is empty.
pub open spec fn well_formed(index: Seq<BucketView>) -> bool {
    &&& forall|i: int, j: int|
        0 <= i < j < index.len() ==> #[trigger] index[i].tag != #[trigger] index[j].tag
    &&& forall|i: int| 0 <= i < index.len() ==> (#[trigger] index[i]).slugs.len() > 0
}

/// What [`position`] finds is the first bucket for the tag, and it finds one
/// exactly where the index has the tag.
pub proof fn lemma_position(index: Seq<BucketView>, tag: Seq<char>)
    ensures
        0 <= position(index, tag) <= index.len(),
        forall|j: int| 0 <= j < position(index, tag) ==> (#[trigger] index[j]).tag != tag,
        position(index, tag) < index.len() ==> index[position(index, tag)].tag == tag,
        has_tag(index, tag) <==> position(index, tag) < index.len(),
    decreases index.len(),
{
    if index.len() > 0 && index[0].tag != tag {
        let rest = index.skip(1);
        lemma_position(rest, tag);
        let at = position(index, tag);
        assert forall|j: int| 0 <= j < at implies (#[trigger] index[j]).tag != tag by {
            if j > 0 {
                assert(rest[j - 1] == index[j]);
            }
        }
        if at < index.len() {
            assert(rest[at - 1] == index[at]);
        }
        if has_tag(index, tag) {
            let i = choose|i: int| 0 <= i < index.len() && #[trigger] index[i].tag == tag;
            assert(rest[i - 1].tag == tag);
        }
    }
}

/// The first bucket for `tag` stands at `at` where the bucket at `at` is one and
/// none before it is; `at` is the length of the index where no bucket is one.
pub proof fn lemma_position_is(index: Seq<BucketView>, tag: Seq<char>, at: int)
    requires
        0 <= at <= index.len(),
        forall|j: int| 0 <= j < at ==> (#[trigger] index[j]).tag != tag,
        at < index.len() ==> index[at].tag == tag,
    ensures
        position(index, tag) == at,
{
    lemma_position(index, tag);
}

/// Adding under `tag` makes `tag` a tag of the index and no other, puts the slug
/// behind what stood under `tag`, and leaves what stands under any other tag.
pub proof fn adding_changes_one_tag(
    index: Seq<BucketView>,
    tag: Seq<char>,
    slug: Seq<char>,
    other: Seq<char>,
)
    ensures
        has_tag(with_entry(index, tag, slug), other) <==> other == tag || has_tag(index, other),
        slugs_under(with_entry(index, tag, slug), other) == if other == tag {
            slugs_under(index, tag).push(slug)
        } else {
            slugs_under(index, other)
        },
{
    let after = with_entry(index, tag, slug);
    let at = position(index, tag);
    lemma_position(index, tag);
    lemma_position(index, other);
    let found = position(index, other);
    assert forall|j: int| 0 <= j < index.len() implies (#[trigger] after[j]).tag
        == index[j].tag by {}
    if other == tag {
        lemma_position_is(after, tag, at);
        if at == index.len() {
            assert(slugs_under(index, tag).push(slug) =~= seq![slug]);
        }
    } else {
        assert forall|j: int| 0 <= j < found implies (#[trigger] after[j]).tag != other by {
            assert(after[j].tag == index[j].tag);
        }
        if found < index.len() {
            lemma_position_is(after, other, found);
        } else {
            assert forall|j: int| 0 <= j < after.len() implies (#[trigger] after[j]).tag
                != other by {
                if j < index.len() {
                    assert(after[j].tag == index[j].tag);
                }
            }
            lemma_position_is(after, other, after.len() as int);
        }
    }
    lemma_position(after, other);
}

/// Adding an entry to a well-formed index leaves it well formed.
pub proof fn adding_keeps_well_formed(index: Seq<BucketView>, tag: Seq<char>, slug: Seq<char>)
    requires
        well_formed(index),
    ensures
        well_formed(with_entry(index, tag, slug)),
{
    let after = with_entry(index, tag, slug);
    lemma_position(index, tag);
    assert forall|i: int| 0 <= i < index.len() implies (#[trigger] after[i]).tag
        == index[i].tag by {}
    assert forall|i: int, j: int| 0 <= i < j < after.len() implies #[trigger] after[i].tag
        != #[trigger] after[j].tag by {
        assert(after[i].tag == index[i].tag);
        if j < index.len() {
            assert(after[j].tag == index[j].tag);
        }
    }
    assert forall|i: int| 0 <= i < after.len() implies (#[trigger] after[i]).slugs.len() > 0 by {
        if i < index.len() && i != position(index, tag) {
            assert(after[i] == index[i]);
        }
    }
}

/// Entering declarations into a well-formed index leaves it well formed.
pub proof fn extending_keeps_well_formed(index: Seq<BucketView>, added: Seq<Declaration>)
    requires
        well_formed(index),
    ensures
        well_formed(extended(index, added)),
    decreases added.len(),
{
    if added.len() > 0 {
        extending_keeps_well_formed(index, added.drop_last());
        adding_keeps_well_formed(
            extended(index, added.drop_last()),
            added.last().tag,
            added.last().slug,
        );
    }
}

/// The index of any declarations holds each tag once, and no tag without a slug.
pub proof fn index_is_well_formed(made: Seq<Declaration>)
    ensures
        well_formed(index_of(made)),
{
    extending_keeps_well_formed(Seq::empty(), made);
}

/// After declarations were entered, the index has the tags that it had and those
/// that were declared, and under each tag the slugs that it had, followed by the
/// slugs declared for it, in their order.
pub proof fn extending_adds_what_was_declared(
    index: Seq<BucketView>,
    added: Seq<Declaration>,
    tag: Seq<char>,
)
    ensures
        has_tag(extended(index, added), tag) <==> has_tag(index, tag) || declares(added, tag),
        slugs_under(extended(index, added), tag) == slugs_under(index, tag) + slugs_declared(
            added,
            tag,
        ),
    decreases added.len(),
{
    if added.len() == 0 {
        assert(slugs_under(index, tag) + slugs_declared(added, tag) =~= slugs_under(index, tag));
    } else {
        let earlier = added.drop_last();
        let last = added.last();
        extending_adds_what_was_declared(index, earlier, tag);
        adding_changes_one_tag(extended(index, earlier), last.tag, last.slug, tag);
        if declares(earlier, tag) {
            let i = choose|i: int| 0 <= i < earlier.len() && #[trigger] earlier[i].tag == tag;
            assert(added[i].tag == tag);
        }
        if declares(added, tag) && last.tag != tag {
            let i = choose|i: int| 0 <= i < added.len() && #[trigger] added[i].tag == tag;
            assert(earlier[i].tag == tag);
        }
        if last.tag == tag {
            assert(added[added.len() - 1].tag == tag);
            assert(slugs_under(index, tag) + slugs_declared(added, tag) =~= (slugs_under(
                index,
                tag,
            ) + slugs_declared(earlier, tag)).push(last.slug));
        }
    }
}

/// The index of some declarations has exactly the declared tags, and under each
/// the slugs declared for it, in the order of the declarations.
pub proof fn index_holds_what_was_declared(made: Seq<Declaration>, tag: Seq<char>)
    ensures
        has_tag(index_of(made), tag) <==> declares(made, tag),
        slugs_under(index_of(made), tag) == slugs_declared(made, tag),
{
    let empty = Seq::<BucketView>::empty();
    extending_adds_what_was_declared(empty, made, tag);
    assert(slugs_under(empty, tag) + slugs_declared(made, tag) =~= slugs_declared(made, tag));
}

/// Entering declarations in two runs, one behind the other, gives the index that
/// entering them in one run gives.
pub proof fn extending_in_two_runs(
    index: Seq<BucketView>,
    first: Seq<Declaration>,
    second: Seq<Declaration>,
)
    ensures
        extended(extended(index, first), second) == extended(index, first + second),
    decreases second.len(),
{
    if second.len() == 0 {
        assert(first + second =~= first);
    } else {
        extending_in_two_runs(index, first, second.drop_last());
        assert((first + second).drop_last() =~= first + second.drop_last());
        assert((first + second).last() == second.last());
    }
}

/// The tag index of a site.
#[derive(Debug, PartialEq, Eq)]
pub struct TagIndex {
    buckets: Vec<Bucket>,
}

impl View for TagIndex {
    type V = Seq<BucketView>;

    closed spec fn view(&self) -> Seq<BucketView> {
        bucket_views(self.buckets@)
    }
}

impl TagIndex {
    #[verifier::type_invariant]
    spec fn holds_each_tag_once(self) -> bool {
        well_formed(bucket_views(self.buckets@))
    }

    /// The index without any tag.
    pub fn new() -> (index: TagIndex)
        ensures
            index@ == Seq::<BucketView>::empty(),
    {
        let index = TagIndex { buckets: Vec::new() };
        assert(bucket_views(index.buckets@) =~= Seq::<BucketView>::empty());
        index
    }

    /// The buckets of the index, in the order in which their tags first came up.
    /// No two of them share a tag, and none is empty.
    pub fn buckets(&self) -> (buckets: &Vec<Bucket>)
        ensures
            bucket_views(buckets@) == self@,
            well_formed(self@),
    {
        proof {
            use_type_invariant(self);
        }
        &self.buckets
    }

    /// The number of tags in the index.
    pub fn len(&self) -> (n: usize)
        ensures
            n == self@.len(),
    {
        self.buckets.len()
    }

    /// The slugs under `tag`, in the order in which they were added; `None` where
    /// the index does not have the tag.
    pub fn get(&self, tag: &String) -> (slugs: Option<&Vec<String>>)
        ensures
            match slugs {
                Some(found) => has_tag(self@, tag@) && string_views(found@) == slugs_under(
                    self@,
                    tag@,
                ),
                None => !has_tag(self@, tag@),
            },
    {
        let ghost all = self@;
        let mut i: usize = 0;
        while i < self.buckets.len()
            invariant
                i <= self.buckets.len(),
                all == bucket_views(self.buckets@),
                forall|j: int| 0 <= j < i ==> (#[trigger] all[j]).tag != tag@,
            decreases self.buckets.len() - i,
        {
            if self.buckets[i].tag == *tag {
                proof {
                    lemma_position_is(all, tag@, i as int);
                    lemma_position(all, tag@);
                }
                return Some(&self.buckets[i].slugs);
            }
            i += 1;
        }
        proof {
            lemma_position_is(all, tag@, all.len() as int);
            lemma_position(all, tag@);
        }
        None
    }

    /// Adds `slug` under `tag`: behind the slugs that the tag has, or as the first
    /// slug of a new tag behind the tags that the index has.
    pub fn add(&mut self, tag: &String, slug: &String)
        ensures
            final(self)@ == with_entry(old(self)@, tag@, slug@),
    {
        proof {
            use_type_invariant(&*self);
            adding_keeps_well_formed(self@, tag@, slug@);
        }
        let mut buckets: Vec<Bucket> = Vec::new();
        assert(bucket_views(buckets@) =~= Seq::<BucketView>::empty());
        std::mem::swap(&mut self.buckets, &mut buckets);
        enter(&mut buckets, tag, slug);
        self.buckets = buckets;
    }

    /// Adds the recipe `slug` under each of its `tags`, in their order.
    pub fn add_recipe(&mut self, slug: &String, tags: &Vec<String>)
        ensures
            final(self)@ == extended(old(self)@, declarations(slug@, string_views(tags@))),
    {
        let ghost made = declarations(slug@, string_views(tags@));
        let mut i: usize = 0;
        assert(made.take(0) =~= Seq::<Declaration>::empty());
        while i < tags.len()
            invariant
                i <= tags.len(),
                made == declarations(slug@, string_views(tags@)),
                self@ == extended(old(self)@, made.take(i as int)),
            decreases tags.len() - i,
        {
            self.add(&tags[i], slug);
            proof {
                let next = made.take(i + 1);
                assert(next.drop_last() =~= made.take(i as int));
                assert(next.last() == Declaration { tag: tags@[i as int]@, slug: slug@ });
            }
            i += 1;
        }
        assert(made.take(i as int) =~= made);
    }
}

/// Adds `slug` under `tag` to the buckets of an index.
fn enter(buckets: &mut Vec<Bucket>, tag: &String, slug: &String)
    ensures
        bucket_views(final(buckets)@) == with_entry(bucket_views(old(buckets)@), tag@, slug@),
{
    let ghost before = bucket_views(buckets@);
    let mut i: usize = 0;
    while i < buckets.len()
        invariant
            i <= buckets.len(),
            before == bucket_views(old(buckets)@),
            before == bucket_views(buckets@),
            forall|j: int| 0 <= j < i ==> (#[trigger] before[j]).tag != tag@,
        decreases buckets.len() - i,
    {
        if buckets[i].tag == *tag {
            proof {
                lemma_position_is(before, tag@, i as int);
            }
            let mut bucket = buckets.remove(i);
            let ghost held = string_views(bucket.slugs@);
            bucket.slugs.push(slug.clone());
            assert(string_views(bucket.slugs@) =~= held.push(slug@));
            let ghost target = with_entry(before, tag@, slug@);
            assert(bucket_views(buckets@.insert(i as int, bucket)) =~= target);
            buckets.insert(i, bucket);
            return ;
        }
        i += 1;
    }
    proof {
        lemma_position_is(before, tag@, before.len() as int);
    }
    let mut slugs: Vec<String> = Vec::new();
    slugs.push(slug.clone());
    let bucket = Bucket { tag: tag.clone(), slugs };
    assert(bucket@ == BucketView { tag: tag@, slugs: seq![slug@] }) by {
        assert(string_views(bucket.slugs@) =~= seq![slug@]);
    }
    assert(bucket_views(buckets@.push(bucket)) =~= with_entry(before, tag@, slug@));
    buckets.push(bucket);
}

} // verus!
