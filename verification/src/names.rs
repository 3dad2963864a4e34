//! Names: which are plain, and whether a list holds one twice.

use vstd::prelude::*;

verus! {

/// A character of a plain name: a lower-case ASCII letter, a digit or an underscore.
pub open spec fn is_plain_char(c: char) -> bool {
    ('a' <= c && c <= 'z') || is_digit(c) || c == '_'
}

/// A decimal digit.
pub open spec fn is_digit(c: char) -> bool {
    '0' <= c && c <= '9'
}

/// A plain name is not empty, holds plain characters only and does not start
/// with a digit. The store takes names without quotes and compares them
/// without regard to case; on plain names that is comparison character by
/// character, which is how this library compares names.
///
/// To be plain is necessary for a name to be taken as it is written, and not
/// sufficient: the store rejects a plain name that is one of its reserved
/// words, such as `order` or `table`, and no list of them is kept here.
pub open spec fn is_plain_name(name: Seq<char>) -> bool {
    &&& name.len() > 0
    &&& !is_digit(name[0])
    &&& forall|i: int| 0 <= i < name.len() ==> is_plain_char(#[trigger] name[i])
}

/// Tells whether a text holds no single quote, so that it can stand between
/// two of them.
pub fn quote_free(text: &str) -> (ok: bool)
    ensures
        ok == !text@.contains('\''),
{
    for c in it: text.chars()
        invariant
            it.seq() == text@,
            forall|a: int| 0 <= a < it.index() ==> text@[a] != '\'',
    {
        if c == '\'' {
            return false;
        }
    }
    true
}

/// Tells whether a name is plain. A plain name may still be a word that the
/// store reserves.
pub fn plain_name(name: &str) -> (ok: bool)
    ensures
        ok == is_plain_name(name@),
{
    let mut first: bool = true;
    for c in it: name.chars()
        invariant
            it.seq() == name@,
            first == (it.index() == 0),
            it.index() > 0 ==> !is_digit(name@[0]),
            forall|a: int| 0 <= a < it.index() ==> is_plain_char(#[trigger] name@[a]),
    {
        let digit: bool = c >= '0' && c <= '9';
        if (first && digit) || !((c >= 'a' && c <= 'z') || digit || c == '_') {
            assert(is_digit(name@[0]) || !is_plain_char(name@[it.index()]));
            return false;
        }
        first = false;
    }
    !first
}

/// The names of a list as sequences of characters, in order.
pub open spec fn name_views(names: Seq<String>) -> Seq<Seq<char>> {
    names.map_values(|s: String| s@)
}

/// Tells whether no name occurs twice in `names`.
pub fn all_distinct(names: &Vec<String>) -> (ok: bool)
    ensures
        ok == name_views(names@).no_duplicates(),
{
    let n: usize = names.len();
    let mut j: usize = 0;
    while j < n
        invariant
            j <= n,
            n == names.len(),
            forall|a: int, b: int|
                0 <= a < b < j ==> name_views(names@)[a] != name_views(names@)[b],
        decreases n - j,
    {
        let mut i: usize = 0;
        while i < j
            invariant
                i <= j < n,
                n == names.len(),
                forall|a: int| 0 <= a < i ==> name_views(names@)[a] != name_views(names@)[j as int],
            decreases j - i,
        {
            if names[i] == names[j] {
                assert(name_views(names@)[i as int] == name_views(names@)[j as int]);
                return false;
            }
            i += 1;
        }
        j += 1;
    }
    assert forall|a: int, b: int|
        0 <= a < n && 0 <= b < n && a != b implies name_views(names@)[a] != name_views(names@)[b] by {
        if a < b {
            assert(name_views(names@)[a] != name_views(names@)[b]);
        } else {
            assert(name_views(names@)[b] != name_views(names@)[a]);
        }
    }
    true
}

} // verus!
