//! Texts read character by character.
//!
//! What a text literal holds is known one character at a time. The
//! predicates here split a text into its characters, so that a statement
//! about every character of a literal unfolds into one fact per character.

use vstd::prelude::*;

verus! {

/// The characters of a text from `lo` up to `hi` meet `p`. The span is halved
/// until one character is left, so that a span of `n` characters unfolds to a
/// depth of about `log n`.
pub open spec fn holds_on(text: Seq<char>, p: spec_fn(char) -> bool, lo: int, hi: int) -> bool
    decreases hi - lo,
{
    if hi <= lo {
        true
    } else if hi == lo + 1 {
        p(text[lo])
    } else {
        let mid = lo + (hi - lo) / 2;
        holds_on(text, p, lo, mid) && holds_on(text, p, mid, hi)
    }
}

/// What holds of the characters of a span one by one holds of each of them.
pub proof fn lemma_holds_on(text: Seq<char>, p: spec_fn(char) -> bool, lo: int, hi: int)
    requires
        holds_on(text, p, lo, hi),
    ensures
        forall|i: int| lo <= i < hi ==> p(#[trigger] text[i]),
    decreases hi - lo,
{
    if hi > lo + 1 {
        let mid = lo + (hi - lo) / 2;
        lemma_holds_on(text, p, lo, mid);
        lemma_holds_on(text, p, mid, hi);
    }
}

/// The characters of `part` from `lo` up to `hi` stand in `whole`, `part`
/// starting at position `at`. The span is halved as in `holds_on`.
pub open spec fn stands_at(whole: Seq<char>, at: int, part: Seq<char>, lo: int, hi: int) -> bool
    decreases hi - lo,
{
    if hi <= lo {
        true
    } else if hi == lo + 1 {
        whole[at + lo] == part[lo]
    } else {
        let mid = lo + (hi - lo) / 2;
        stands_at(whole, at, part, lo, mid) && stands_at(whole, at, part, mid, hi)
    }
}

/// A part that stands in a text character by character is a slice of it.
pub proof fn lemma_stands_at(whole: Seq<char>, at: int, part: Seq<char>)
    requires
        0 <= at,
        at + part.len() <= whole.len(),
        stands_at(whole, at, part, 0, part.len() as int),
    ensures
        whole.subrange(at, at + part.len()) == part,
{
    lemma_stands_between(whole, at, part, 0, part.len() as int);
    assert(whole.subrange(at, at + part.len()) =~= part);
}

proof fn lemma_stands_between(whole: Seq<char>, at: int, part: Seq<char>, lo: int, hi: int)
    requires
        stands_at(whole, at, part, lo, hi),
    ensures
        forall|i: int| lo <= i < hi ==> whole[at + i] == part[i],
    decreases hi - lo,
{
    if hi > lo + 1 {
        let mid = lo + (hi - lo) / 2;
        lemma_stands_between(whole, at, part, lo, mid);
        lemma_stands_between(whole, at, part, mid, hi);
    }
}

} // verus!
