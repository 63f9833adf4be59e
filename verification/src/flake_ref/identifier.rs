//! The grammar of flake identifiers: a letter, then letters, digits, `_`
//! and `-`.

use crate::text::{lacks, to_chars};
use vstd::prelude::*;

verus! {

/// An ASCII letter: what an identifier may begin with.
pub open spec fn is_id_start(c: char) -> bool {
    ('a' <= c && c <= 'z') || ('A' <= c && c <= 'Z')
}

/// What may follow the first character of an identifier.
pub open spec fn is_id_continue(c: char) -> bool {
    is_id_start(c) || ('0' <= c && c <= '9') || c == '_' || c == '-'
}

/// The identifier grammar, matched against the whole of `s`.
pub open spec fn is_flake_id(s: Seq<char>) -> bool {
    &&& s.len() > 0
    &&& is_id_start(s[0])
    &&& forall|i: int| 1 <= i < s.len() ==> is_id_continue(#[trigger] s[i])
}

/// An identifier holds none of the characters that part a reference.
pub proof fn lemma_identifier_chars(s: Seq<char>)
    requires
        is_flake_id(s),
    ensures
        forall|i: int| 0 <= i < s.len() ==> is_id_continue(#[trigger] s[i]),
        lacks(s, '/'),
        lacks(s, '?'),
        lacks(s, ':'),
{
    assert forall|i: int| 0 <= i < s.len() implies is_id_continue(#[trigger] s[i]) by {
        if i == 0 {
        }
    }
}

fn id_start(c: char) -> (r: bool)
    ensures
        r == is_id_start(c),
{
    (c >= 'a' && c <= 'z') || (c >= 'A' && c <= 'Z')
}

fn id_continue(c: char) -> (r: bool)
    ensures
        r == is_id_continue(c),
{
    id_start(c) || (c >= '0' && c <= '9') || c == '_' || c == '-'
}

/// Whether the characters form a flake identifier.
pub fn is_identifier(s: &[char]) -> (r: bool)
    ensures
        r == is_flake_id(s@),
{
    if s.len() == 0 || !id_start(s[0]) {
        return false;
    }
    let mut i: usize = 1;
    while i < s.len()
        invariant
            1 <= i <= s.len(),
            forall|j: int| 1 <= j < i ==> is_id_continue(#[trigger] s@[j]),
        decreases s.len() - i,
    {
        if !id_continue(s[i]) {
            return false;
        }
        i = i + 1;
    }
    true
}

/// Whether `s` is a flake identifier: it begins with a letter and goes on
/// with letters, digits, `_` and `-` to its end.
pub fn is_flake_identifier(s: &str) -> (r: bool)
    ensures
        r == is_flake_id(s@),
{
    let chars = to_chars(s);
    is_identifier(chars.as_slice())
}

} // verus!
