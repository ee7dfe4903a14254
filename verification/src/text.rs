//! Text as sequences of characters: finding a delimiter, cutting a list at
//! its separators, trimming whitespace, and comparing.
//!
//! The specifications here are over `Seq<char>`, the view of `str` and
//! `String`. The executable helpers work on the characters of a string held
//! in a `Vec<char>`, so that every position is a character position.

use vstd::prelude::*;
use vstd::utf8::{encode_utf8, encode_utf8_decode_utf8};

verus! {

/// Whether `c` counts as whitespace: the answer of `char::is_whitespace`,
/// which goes by the Unicode property `White_Space`.
pub uninterp spec fn is_whitespace(c: char) -> bool;

/// `char::is_whitespace` of the standard library. It classifies a character
/// and depends on nothing else; its answer is what `is_whitespace` names.
pub assume_specification[ char::is_whitespace ](c: char) -> (r: bool)
    ensures
        r == is_whitespace(c),
;

/// The position of the first `x` in `s`, or `s.len()` where `s` holds none.
pub open spec fn first_index<A>(s: Seq<A>, x: A) -> int
    decreases s.len(),
{
    if s.len() == 0 {
        0
    } else if s[0] == x {
        0
    } else {
        1 + first_index(s.drop_first(), x)
    }
}

/// The pieces of `s` between occurrences of `sep`, in order. A text without
/// `sep` is one piece, the empty text included; a leading, trailing or
/// doubled `sep` gives an empty piece.
pub open spec fn split(s: Seq<char>, sep: char) -> Seq<Seq<char>>
    decreases s.len(),
{
    let i = first_index(s, sep);
    if 0 <= i < s.len() {
        seq![s.take(i)] + split(s.skip(i + 1), sep)
    } else {
        seq![s]
    }
}

/// `s` without its leading whitespace.
pub open spec fn trim_start(s: Seq<char>) -> Seq<char>
    decreases s.len(),
{
    if s.len() > 0 && is_whitespace(s.first()) {
        trim_start(s.drop_first())
    } else {
        s
    }
}

/// `s` without its trailing whitespace.
pub open spec fn trim_end(s: Seq<char>) -> Seq<char>
    decreases s.len(),
{
    if s.len() > 0 && is_whitespace(s.last()) {
        trim_end(s.drop_last())
    } else {
        s
    }
}

/// `s` without leading and trailing whitespace.
pub open spec fn trimmed(s: Seq<char>) -> Seq<char> {
    trim_end(trim_start(s))
}

/// `first_index` stays within `s`, passes over no `x`, and stops on one
/// unless it reaches the end.
pub proof fn lemma_first_index<A>(s: Seq<A>, x: A)
    ensures
        0 <= first_index(s, x) <= s.len(),
        forall|j: int| 0 <= j < first_index(s, x) ==> s[j] != x,
        first_index(s, x) < s.len() ==> s[first_index(s, x)] == x,
        first_index(s, x) < s.len() <==> s.contains(x),
    decreases s.len(),
{
    if s.len() > 0 && s[0] != x {
        let rest = s.drop_first();
        lemma_first_index(rest, x);
        let f = first_index(rest, x);
        assert forall|j: int| 0 <= j < 1 + f implies s[j] != x by {
            if j > 0 {
                assert(s[j] == rest[j - 1]);
            }
        }
        if f < rest.len() {
            assert(s[1 + f] == rest[f]);
        }
    }
    if s.contains(x) {
        let k = choose|k: int| 0 <= k < s.len() && s[k] == x;
        assert(first_index(s, x) <= k);
    }
}

/// A position that no `x` precedes, and that holds `x` or is the end, is
/// the one `first_index` gives.
pub proof fn lemma_first_index_is<A>(s: Seq<A>, x: A, i: int)
    requires
        0 <= i <= s.len(),
        forall|j: int| 0 <= j < i ==> s[j] != x,
        i < s.len() ==> s[i] == x,
    ensures
        first_index(s, x) == i,
{
    lemma_first_index(s, x);
}

/// Leading whitespace ends at `a`: all before `a` is whitespace, and `a` is
/// the end or holds something else.
pub proof fn lemma_trim_start_is(s: Seq<char>, a: int)
    requires
        0 <= a <= s.len(),
        forall|j: int| 0 <= j < a ==> is_whitespace(s[j]),
        a < s.len() ==> !is_whitespace(s[a]),
    ensures
        trim_start(s) == s.skip(a),
    decreases a,
{
    if a == 0 {
        assert(s.skip(0) =~= s);
    } else {
        let rest = s.drop_first();
        assert forall|j: int| 0 <= j < a - 1 implies is_whitespace(rest[j]) by {
            assert(rest[j] == s[j + 1]);
        }
        lemma_trim_start_is(rest, a - 1);
        assert(rest.skip(a - 1) =~= s.skip(a));
    }
}

/// Trailing whitespace begins at `b`: all from `b` on is whitespace, and `b`
/// is the start or follows something else.
pub proof fn lemma_trim_end_is(s: Seq<char>, b: int)
    requires
        0 <= b <= s.len(),
        forall|j: int| b <= j < s.len() ==> is_whitespace(s[j]),
        0 < b ==> !is_whitespace(s[b - 1]),
    ensures
        trim_end(s) == s.take(b),
    decreases s.len() - b,
{
    if b == s.len() {
        assert(s.take(b) =~= s);
    } else {
        let rest = s.drop_last();
        lemma_trim_end_is(rest, b);
        assert(rest.take(b) =~= s.take(b));
    }
}

/// Trimming leaves a text that neither starts nor ends with whitespace, and
/// removes whitespace only: what is left is a stretch of `s`, and all of `s`
/// outside it is whitespace.
pub proof fn lemma_trimmed(s: Seq<char>)
    ensures
        trimmed(s).len() > 0 ==> !is_whitespace(trimmed(s).first()) && !is_whitespace(
            trimmed(s).last(),
        ),
        exists|a: int, b: int|
            0 <= a <= b <= s.len() && #[trigger] s.subrange(a, b) == trimmed(s) && (forall|j: int|
                0 <= j < a || b <= j < s.len() ==> is_whitespace(s[j])),
{
    let n = s.len() as int;
    let a = leading_end(s, 0, n);
    lemma_leading_end(s, 0, n);
    let b = trailing_start(s, a, n);
    lemma_trailing_start(s, a, n);
    lemma_trim_range(s, 0, n, a, b);
    assert(s.subrange(0, n) =~= s);
}

/// The first position in `s[from..to]` that holds no whitespace, or `to`.
spec fn leading_end(s: Seq<char>, from: int, to: int) -> int
    decreases to - from,
{
    if from < to && is_whitespace(s[from]) {
        leading_end(s, from + 1, to)
    } else {
        from
    }
}

/// The position after the last one in `s[from..to]` that holds no
/// whitespace, or `from`.
spec fn trailing_start(s: Seq<char>, from: int, to: int) -> int
    decreases to - from,
{
    if from < to && is_whitespace(s[to - 1]) {
        trailing_start(s, from, to - 1)
    } else {
        to
    }
}

proof fn lemma_leading_end(s: Seq<char>, from: int, to: int)
    requires
        from <= to,
    ensures
        from <= leading_end(s, from, to) <= to,
        forall|j: int| from <= j < leading_end(s, from, to) ==> is_whitespace(s[j]),
        leading_end(s, from, to) < to ==> !is_whitespace(s[leading_end(s, from, to)]),
    decreases to - from,
{
    if from < to && is_whitespace(s[from]) {
        lemma_leading_end(s, from + 1, to);
    }
}

proof fn lemma_trailing_start(s: Seq<char>, from: int, to: int)
    requires
        from <= to,
    ensures
        from <= trailing_start(s, from, to) <= to,
        forall|j: int| trailing_start(s, from, to) <= j < to ==> is_whitespace(s[j]),
        from < trailing_start(s, from, to) ==> !is_whitespace(s[trailing_start(s, from, to) - 1]),
    decreases to - from,
{
    if from < to && is_whitespace(s[to - 1]) {
        lemma_trailing_start(s, from, to - 1);
    }
}

/// Bounds found by scanning `s[from..to]` from both ends cut out what
/// `trimmed` gives for that range.
pub proof fn lemma_trim_range(s: Seq<char>, from: int, to: int, a: int, b: int)
    requires
        0 <= from <= a <= b <= to <= s.len(),
        forall|j: int| from <= j < a ==> is_whitespace(s[j]),
        a < to ==> !is_whitespace(s[a]),
        forall|j: int| b <= j < to ==> is_whitespace(s[j]),
        a < b ==> !is_whitespace(s[b - 1]),
    ensures
        s.subrange(a, b) == trimmed(s.subrange(from, to)),
{
    let piece = s.subrange(from, to);
    lemma_trim_start_is(piece, a - from);
    let tail = piece.skip(a - from);
    assert(tail =~= s.subrange(a, to));
    lemma_trim_end_is(tail, b - a);
    assert(tail.take(b - a) =~= s.subrange(a, b));
}

/// The characters of `s`, one element for each.
pub fn chars_of(s: &str) -> (cs: Vec<char>)
    ensures
        cs@ == s@,
{
    let mut cs: Vec<char> = Vec::new();
    for c in it: s.chars()
        invariant
            it.seq() == s@,
            cs@ == it.seq().take(it.index() as int),
    {
        cs.push(c);
    }
    cs
}

/// Whether `a` and `b` hold the same characters. Two texts are equal exactly
/// when their UTF-8 encodings are, so the bytes are compared.
pub fn same_text(a: &str, b: &str) -> (r: bool)
    ensures
        r == (a@ == b@),
{
    let x = a.as_bytes();
    let y = b.as_bytes();
    proof {
        encode_utf8_decode_utf8(a@);
        encode_utf8_decode_utf8(b@);
    }
    if x.len() != y.len() {
        return false;
    }
    let mut i: usize = 0;
    while i < x.len()
        invariant
            i <= x.len() == y.len(),
            x@ == encode_utf8(a@),
            y@ == encode_utf8(b@),
            forall|j: int| 0 <= j < i ==> x[j] == y[j],
        decreases x.len() - i,
    {
        if x[i] != y[i] {
            return false;
        }
        i += 1;
    }
    assert(x@ =~= y@);
    true
}

/// The first position at or after `from`, and before `to`, that holds `c`;
/// `to` where there is none.
pub(crate) fn find(cs: &Vec<char>, from: usize, to: usize, c: char) -> (i: usize)
    requires
        from <= to <= cs.len(),
    ensures
        from <= i <= to,
        i - from == first_index(cs@.subrange(from as int, to as int), c),
        forall|j: int| from <= j < i ==> cs[j] != c,
        i < to ==> cs[i as int] == c,
{
    let mut i: usize = from;
    while i < to && cs[i] != c
        invariant
            from <= i <= to <= cs.len(),
            forall|j: int| from <= j < i ==> cs[j] != c,
        decreases to - i,
    {
        i += 1;
    }
    proof {
        lemma_first_index_is(cs@.subrange(from as int, to as int), c, i - from);
    }
    i
}

/// The bounds of `cs[from..to]` without its leading and trailing whitespace.
pub(crate) fn trim_bounds(cs: &Vec<char>, from: usize, to: usize) -> (r: (usize, usize))
    requires
        from <= to <= cs.len(),
    ensures
        from <= r.0 <= r.1 <= to,
        cs@.subrange(r.0 as int, r.1 as int) == trimmed(cs@.subrange(from as int, to as int)),
{
    let mut a: usize = from;
    while a < to && cs[a].is_whitespace()
        invariant
            from <= a <= to <= cs.len(),
            forall|j: int| from <= j < a ==> is_whitespace(cs[j]),
        decreases to - a,
    {
        a += 1;
    }
    let mut b: usize = to;
    while a < b && cs[b - 1].is_whitespace()
        invariant
            a <= b <= to <= cs.len(),
            forall|j: int| b <= j < to ==> is_whitespace(cs[j]),
        decreases b - a,
    {
        b -= 1;
    }
    proof {
        lemma_trim_range(cs@, from as int, to as int, a as int, b as int);
    }
    (a, b)
}

} // verus!
