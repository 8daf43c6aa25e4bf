//! Character-level helpers on strings, stated over `Seq<char>`.

use vstd::prelude::*;

verus! {

/// `String::push` appends one character to the end of the string.
pub assume_specification[ String::push ](s: &mut String, c: char)
    ensures
        final(s)@ == old(s)@.push(c),
;

/// The character sequences of a sequence of strings.
pub open spec fn string_views(strings: Seq<String>) -> Seq<Seq<char>> {
    strings.map_values(|s: String| s@)
}

/// `s` without its trailing `suffix`; `s` itself where it does not end in `suffix`.
pub open spec fn without_suffix(s: Seq<char>, suffix: Seq<char>) -> Seq<char> {
    if suffix.is_suffix_of(s) {
        s.take(s.len() - suffix.len())
    } else {
        s
    }
}

/// `s` with every `from` turned into `to`, position by position.
pub open spec fn with_char_replaced(s: Seq<char>, from: char, to: char) -> Seq<char> {
    Seq::new(
        s.len(),
        |i: int|
            if s[i] == from {
                to
            } else {
                s[i]
            },
    )
}

/// `s` with every occurrence of `pat` taken out. Occurrences are found from the
/// left and do not overlap: after one is taken out, the search goes on behind it.
/// An empty `pat` occurs nowhere.
pub open spec fn without_all(s: Seq<char>, pat: Seq<char>) -> Seq<char>
    decreases s.len(),
{
    if pat.len() == 0 || s.len() < pat.len() {
        s
    } else if pat.is_prefix_of(s) {
        without_all(s.skip(pat.len() as int), pat)
    } else {
        seq![s[0]] + without_all(s.skip(1), pat)
    }
}

/// The parts of `parts` up to and with the one at `i`, one behind the other,
/// are those before `i`, followed by the part at `i`.
pub proof fn lemma_flatten_step<A>(parts: Seq<Seq<A>>, i: int)
    requires
        0 <= i < parts.len(),
    ensures
        parts.take(i + 1).flatten() == parts.take(i).flatten() + parts[i],
{
    assert(parts.take(i + 1) =~= parts.take(i).push(parts[i]));
    parts.take(i).lemma_flatten_push(parts[i]);
}

/// The parts of two sequences, one behind the other, are the parts of the first
/// followed by the parts of the second.
pub proof fn lemma_flatten_concat<A>(a: Seq<Seq<A>>, b: Seq<Seq<A>>)
    ensures
        (a + b).flatten() == a.flatten() + b.flatten(),
    decreases b.len(),
{
    if b.len() == 0 {
        assert(a + b =~= a);
        assert(a.flatten() + b.flatten() =~= a.flatten());
    } else {
        lemma_flatten_concat(a, b.drop_last());
        assert(a + b =~= (a + b.drop_last()).push(b.last()));
        assert(b =~= b.drop_last().push(b.last()));
        (a + b.drop_last()).lemma_flatten_push(b.last());
        b.drop_last().lemma_flatten_push(b.last());
        assert((a + b).flatten() =~= a.flatten() + b.flatten());
    }
}

/// The characters of `s`, in order.
pub fn chars_of(s: &str) -> (out: Vec<char>)
    ensures
        out@ == s@,
{
    let mut out: Vec<char> = Vec::new();
    for c in it: s.chars()
        invariant
            it.seq() == s@,
            out@ == it.seq().take(it.index() as int),
    {
        out.push(c);
    }
    out
}

/// The string made of the characters `chars[from..to]`.
pub fn string_of(chars: &Vec<char>, from: usize, to: usize) -> (out: String)
    requires
        from <= to <= chars.len(),
    ensures
        out@ == chars@.subrange(from as int, to as int),
{
    let mut out = String::new();
    let mut i: usize = from;
    while i < to
        invariant
            from <= i <= to <= chars.len(),
            out@ == chars@.subrange(from as int, i as int),
        decreases to - i,
    {
        out.push(chars[i]);
        i += 1;
    }
    out
}

/// Whether `pat` stands in `text` at position `at`.
pub fn occurs_at(text: &Vec<char>, at: usize, pat: &Vec<char>) -> (found: bool)
    requires
        at <= text.len(),
    ensures
        found <==> pat@.is_prefix_of(text@.skip(at as int)),
{
    if pat.len() > text.len() - at {
        return false;
    }
    let mut k: usize = 0;
    while k < pat.len()
        invariant
            at <= text.len(),
            pat.len() <= text.len() - at,
            k <= pat.len(),
            forall|j: int| 0 <= j < k ==> pat@[j] == text@[at + j],
        decreases pat.len() - k,
    {
        if pat[k] != text[at + k] {
            assert(text@.skip(at as int).subrange(0, pat@.len() as int)[k as int] != pat@[k as int]);
            return false;
        }
        k += 1;
    }
    assert(pat@ =~= text@.skip(at as int).subrange(0, pat@.len() as int));
    true
}

/// `s` without its trailing `suffix`, if it has one.
pub fn strip_suffix(s: &str, suffix: &str) -> (out: String)
    ensures
        out@ == without_suffix(s@, suffix@),
{
    let text = chars_of(s);
    let tail = chars_of(suffix);
    if tail.len() <= text.len() {
        let cut: usize = text.len() - tail.len();
        if occurs_at(&text, cut, &tail) {
            assert(text@.skip(cut as int).subrange(0, tail@.len() as int) =~= text@.subrange(
                cut as int,
                text@.len() as int,
            ));
            assert(text@.subrange(0, cut as int) =~= text@.take(cut as int));
            return string_of(&text, 0, cut);
        }
        assert(text@.skip(cut as int).subrange(0, tail@.len() as int) =~= text@.subrange(
            cut as int,
            text@.len() as int,
        ));
    }
    assert(text@.subrange(0, text@.len() as int) =~= text@);
    string_of(&text, 0, text.len())
}

/// `s` with every `from` turned into `to`.
pub fn replace_char(s: &str, from: char, to: char) -> (out: String)
    ensures
        out@ == with_char_replaced(s@, from, to),
{
    let text = chars_of(s);
    let mut out = String::new();
    let mut i: usize = 0;
    while i < text.len()
        invariant
            i <= text.len(),
            out@ == with_char_replaced(text@, from, to).take(i as int),
        decreases text.len() - i,
    {
        let c = text[i];
        if c == from {
            out.push(to);
        } else {
            out.push(c);
        }
        i += 1;
        assert(out@ =~= with_char_replaced(text@, from, to).take(i as int));
    }
    assert(with_char_replaced(text@, from, to).take(i as int) =~= with_char_replaced(
        text@,
        from,
        to,
    ));
    out
}

/// `s` with every occurrence of `pat` taken out.
pub fn remove_all(s: &str, pat: &str) -> (out: String)
    ensures
        out@ == without_all(s@, pat@),
{
    let text = chars_of(s);
    let mark = chars_of(pat);
    let mut out = String::new();
    let mut i: usize = 0;
    assert(text@.skip(0) =~= text@);
    assert(out@ + without_all(text@, mark@) =~= without_all(text@, mark@));
    while i < text.len()
        invariant
            i <= text.len(),
            out@ + without_all(text@.skip(i as int), mark@) == without_all(text@, mark@),
        decreases text.len() - i,
    {
        let ghost rest = text@.skip(i as int);
        if mark.len() > 0 && occurs_at(&text, i, &mark) {
            assert(rest.skip(mark@.len() as int) =~= text@.skip(i + mark@.len()));
            i += mark.len();
        } else {
            assert(rest.skip(1) =~= text@.skip(i + 1));
            assert(without_all(rest, mark@) =~= seq![text@[i as int]] + without_all(
                rest.skip(1),
                mark@,
            )) by {
                if mark@.len() == 0 || rest.len() < mark@.len() {
                    lemma_without_all_short(rest.skip(1), mark@);
                    assert(rest =~= seq![rest[0]] + rest.skip(1));
                }
            }
            out.push(text[i]);
            i += 1;
            assert(out@ + without_all(text@.skip(i as int), mark@) =~= without_all(
                text@,
                mark@,
            ));
        }
    }
    assert(out@ + without_all(text@.skip(i as int), mark@) =~= out@);
    out
}

/// Nothing is taken out of a text that is shorter than `pat`, nor by an empty `pat`.
proof fn lemma_without_all_short(s: Seq<char>, pat: Seq<char>)
    requires
        pat.len() == 0 || s.len() < pat.len(),
    ensures
        without_all(s, pat) == s,
{
}

} // verus!
