//! Loops over the bytes of the input, one for each way the grammar scans.

use vstd::prelude::*;
use crate::grammar;
use crate::grammar::{is_space, lemma_scan_is};
use crate::policy::{Policy, BACKSLASH, EQUALS, QUOTE, SEMICOLON, SPACE, TAB};

verus! {

/// Where the run of token characters that starts at `from` ends.
pub fn token_end<P: Policy>(bytes: &[u8], from: usize) -> (end: usize)
    requires
        from <= bytes@.len(),
    ensures
        end == grammar::token_end::<P>(bytes@, from as int),
        from <= end <= bytes@.len(),
        forall|i: int| from <= i < end ==> P::token_char(#[trigger] bytes@[i]),
        end < bytes@.len() ==> !P::token_char(bytes@[end as int]),
{
    let mut i: usize = from;
    while i < bytes.len() && P::is_token_char(bytes[i])
        invariant
            from <= i <= bytes@.len(),
            forall|j: int| from <= j < i ==> P::token_char(#[trigger] bytes@[j]),
        decreases bytes@.len() - i,
    {
        i += 1;
    }
    proof {
        lemma_scan_is(bytes@, from as int, |b: u8| !P::token_char(b), i as int);
    }
    i
}

/// Where the run of spaces and tabs that starts at `from` ends.
pub fn space_end(bytes: &[u8], from: usize) -> (end: usize)
    requires
        from <= bytes@.len(),
    ensures
        end == grammar::space_end(bytes@, from as int),
        from <= end <= bytes@.len(),
        forall|i: int| from <= i < end ==> is_space(#[trigger] bytes@[i]),
        end < bytes@.len() ==> !is_space(bytes@[end as int]),
{
    let mut i: usize = from;
    while i < bytes.len() && (bytes[i] == SPACE || bytes[i] == TAB)
        invariant
            from <= i <= bytes@.len(),
            forall|j: int| from <= j < i ==> is_space(#[trigger] bytes@[j]),
        decreases bytes@.len() - i,
    {
        i += 1;
    }
    proof {
        lemma_scan_is(bytes@, from as int, |b: u8| !is_space(b), i as int);
    }
    i
}

/// The first index from `from` on and before `to` that holds `byte`, or `to`.
pub fn index_of(bytes: &[u8], from: usize, to: usize, byte: u8) -> (end: usize)
    requires
        from <= to <= bytes@.len(),
    ensures
        from <= end <= to,
        forall|i: int| from <= i < end ==> #[trigger] bytes@[i] != byte,
        end < to ==> bytes@[end as int] == byte,
{
    let mut i: usize = from;
    while i < to && bytes[i] != byte
        invariant
            from <= i <= to <= bytes@.len(),
            forall|j: int| from <= j < i ==> #[trigger] bytes@[j] != byte,
        decreases to - i,
    {
        i += 1;
    }
    i
}

/// The first `=` or `;` at or after `from`, or `bytes.len()`.
pub fn name_stop(bytes: &[u8], from: usize) -> (end: usize)
    requires
        from <= bytes@.len(),
    ensures
        end == grammar::name_stop(bytes@, from as int),
        from <= end <= bytes@.len(),
        end < bytes@.len() ==> bytes@[end as int] == EQUALS || bytes@[end as int] == SEMICOLON,
{
    let mut i: usize = from;
    while i < bytes.len() && bytes[i] != EQUALS && bytes[i] != SEMICOLON
        invariant
            from <= i <= bytes@.len(),
            forall|j: int|
                from <= j < i ==> #[trigger] bytes@[j] != EQUALS && bytes@[j] != SEMICOLON,
        decreases bytes@.len() - i,
    {
        i += 1;
    }
    proof {
        lemma_scan_is(bytes@, from as int, |b: u8| b == EQUALS || b == SEMICOLON, i as int);
    }
    i
}

/// The index of the quote that closes the quoted string whose content starts
/// at `from`, or `bytes.len()`; and whether a backslash was met on the way.
pub fn closing_quote(bytes: &[u8], from: usize) -> (found: (usize, bool))
    requires
        from <= bytes@.len(),
    ensures
        found.0 == grammar::closing_quote(bytes@, from as int),
        from <= found.0 <= bytes@.len(),
        found.0 < bytes@.len() ==> bytes@[found.0 as int] == QUOTE,
        !found.1 ==> forall|i: int| from <= i < found.0 ==> #[trigger] bytes@[i] != BACKSLASH,
{
    let mut i: usize = from;
    let mut escaped = false;
    while i < bytes.len() && bytes[i] != QUOTE
        invariant
            from <= i <= bytes@.len(),
            grammar::closing_quote(bytes@, from as int) == grammar::closing_quote(bytes@, i as int),
            !escaped ==> forall|j: int| from <= j < i ==> #[trigger] bytes@[j] != BACKSLASH,
        decreases bytes@.len() - i,
    {
        if bytes[i] == BACKSLASH {
            escaped = true;
            if i + 1 < bytes.len() {
                i += 2;
            } else {
                assert(grammar::closing_quote(bytes@, i + 2) == bytes@.len());
                i = bytes.len();
            }
        } else {
            i += 1;
        }
    }
    (i, escaped)
}

} // verus!
