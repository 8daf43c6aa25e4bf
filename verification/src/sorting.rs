//! Strings in ascending order. The order is that of `String` itself: by code
//! point from the left, a prefix before what it is a prefix of. The sorting is
//! itertools'.

use vstd::prelude::*;
use vstd::relations::{sorted_by, total_ordering};
use crate::text::string_views;

verus! {

/// Whether `a` stands before `b`, or is `b`, in the order of strings.
pub open spec fn lex_le(a: Seq<char>, b: Seq<char>) -> bool
    decreases a.len(),
{
    if a.len() == 0 {
        true
    } else if b.len() == 0 {
        false
    } else if a[0] == b[0] {
        lex_le(a.skip(1), b.skip(1))
    } else {
        (a[0] as int) < (b[0] as int)
    }
}

/// The order of strings as a relation.
pub open spec fn string_order() -> spec_fn(Seq<char>, Seq<char>) -> bool {
    |a: Seq<char>, b: Seq<char>| lex_le(a, b)
}

/// `items` in ascending order: the one arrangement of `items` in which no string
/// stands behind a greater one.
pub open spec fn ascending(items: Seq<Seq<char>>) -> Seq<Seq<char>> {
    items.sort_by(string_order())
}

/// Every string is its own equal in the order.
pub proof fn lemma_lex_le_reflexive(a: Seq<char>)
    ensures
        lex_le(a, a),
    decreases a.len(),
{
    if a.len() > 0 {
        lemma_lex_le_reflexive(a.skip(1));
    }
}

/// Two strings that stand before each other are one string.
pub proof fn lemma_lex_le_antisymmetric(a: Seq<char>, b: Seq<char>)
    requires
        lex_le(a, b),
        lex_le(b, a),
    ensures
        a == b,
    decreases a.len(),
{
    if a.len() == 0 || b.len() == 0 {
        assert(a =~= b);
    } else {
        lemma_lex_le_antisymmetric(a.skip(1), b.skip(1));
        assert(a =~= seq![a[0]] + a.skip(1));
        assert(b =~= seq![b[0]] + b.skip(1));
    }
}

/// What stands before a string stands before all that the string stands before.
pub proof fn lemma_lex_le_transitive(a: Seq<char>, b: Seq<char>, c: Seq<char>)
    requires
        lex_le(a, b),
        lex_le(b, c),
    ensures
        lex_le(a, c),
    decreases a.len(),
{
    if a.len() > 0 && a[0] == b[0] && b[0] == c[0] {
        lemma_lex_le_transitive(a.skip(1), b.skip(1), c.skip(1));
    }
}

/// Of two strings, one stands before the other.
pub proof fn lemma_lex_le_total(a: Seq<char>, b: Seq<char>)
    ensures
        lex_le(a, b) || lex_le(b, a),
    decreases a.len(),
{
    if a.len() > 0 && b.len() > 0 {
        if a[0] == b[0] {
            lemma_lex_le_total(a.skip(1), b.skip(1));
        } else {
            assert((a[0] as int) != (b[0] as int));
        }
    }
}

/// The order of strings is a total order.
pub proof fn lemma_string_order_is_total()
    ensures
        total_ordering(string_order()),
{
    let r = string_order();
    assert forall|x: Seq<char>| #[trigger] r(x, x) by {
        lemma_lex_le_reflexive(x);
    }
    assert forall|x: Seq<char>, y: Seq<char>| #[trigger] r(x, y) && #[trigger] r(y, x) implies x
        == y by {
        lemma_lex_le_antisymmetric(x, y);
    }
    assert forall|x: Seq<char>, y: Seq<char>, z: Seq<char>| #[trigger]
        r(x, y) && #[trigger] r(y, z) implies r(x, z) by {
        lemma_lex_le_transitive(x, y, z);
    }
    assert forall|x: Seq<char>, y: Seq<char>| #[trigger] r(x, y) || #[trigger] r(y, x) by {
        lemma_lex_le_total(x, y);
    }
}

/// What [`ascending`] gives is in order and holds each string as often as
/// `items` does.
pub proof fn ascending_is_sorted(items: Seq<Seq<char>>)
    ensures
        sorted_by(ascending(items), string_order()),
        ascending(items).to_multiset() == items.to_multiset(),
        ascending(items).len() == items.len(),
{
    lemma_string_order_is_total();
    items.lemma_sort_by_ensures(string_order());
    vstd::seq_lib::to_multiset_len(items);
    vstd::seq_lib::to_multiset_len(ascending(items));
}

/// The ascending order of some strings does not depend on the order in which
/// they were given.
pub proof fn ascending_ignores_order(a: Seq<Seq<char>>, b: Seq<Seq<char>>)
    requires
        a.to_multiset() == b.to_multiset(),
    ensures
        ascending(a) == ascending(b),
{
    ascending_is_sorted(a);
    ascending_is_sorted(b);
    lemma_string_order_is_total();
    vstd::seq_lib::lemma_sorted_unique(ascending(a), ascending(b), string_order());
}

/// Sorts with `itertools::sorted`, which collects the strings and sorts them by
/// the order of `String`. Trusted: the result is in that order and holds each
/// string as often as `items` does.
#[verifier::external_body]
fn sorted(items: &Vec<String>) -> (out: Vec<String>)
    ensures
        sorted_by(string_views(out@), string_order()),
        string_views(out@).to_multiset() == string_views(items@).to_multiset(),
{
    itertools::sorted(items.iter().cloned()).collect()
}

/// The strings of `items` in ascending order.
pub fn sort_strings(items: &Vec<String>) -> (out: Vec<String>)
    ensures
        string_views(out@) == ascending(string_views(items@)),
{
    let out = sorted(items);
    proof {
        ascending_is_sorted(string_views(items@));
        lemma_string_order_is_total();
        vstd::seq_lib::lemma_sorted_unique(
            string_views(out@),
            ascending(string_views(items@)),
            string_order(),
        );
    }
    out
}

} // verus!
