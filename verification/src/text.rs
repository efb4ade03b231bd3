//! Cutting a `&str` by byte offsets.
//!
//! The grammar is read byte by byte, and its parts are handed out as `&str`.
//! A string may only be cut between two characters. Every place where the
//! parser cuts has an ASCII byte on one side, or is an end of the string, and
//! such a place always lies between two characters.

use vstd::prelude::*;
use vstd::string::StringSliceAdditionalSpecFns;
use vstd::utf8::*;

verus! {

/// Whether `at` is a place of `s` that [`slice`] may cut at: an end of `s`,
/// or a place with an ASCII byte before or behind it.
pub open spec fn is_cut(s: Seq<u8>, at: int) -> bool {
    ||| at == 0
    ||| at == s.len()
    ||| 0 <= at < s.len() && s[at] < 0x80
    ||| 0 < at <= s.len() && s[at - 1] < 0x80
}

/// In UTF-8, a character starts behind every ASCII byte.
pub proof fn lemma_boundary_behind_ascii(bytes: Seq<u8>, i: int)
    requires
        valid_utf8(bytes),
        0 <= i < bytes.len(),
        bytes[i] < 0x80,
    ensures
        is_char_boundary(bytes, i + 1),
    decreases bytes.len(),
{
    reveal_with_fuel(is_char_boundary, 2);
    let first = length_of_first_scalar(bytes);
    if i >= first {
        let rest = pop_first_scalar(bytes);
        lemma_boundary_behind_ascii(rest, i - first);
    }
}

/// Every place that [`is_cut`] admits lies between two characters.
pub proof fn lemma_cut_is_char_boundary(bytes: Seq<u8>, at: int)
    requires
        valid_utf8(bytes),
        0 <= at <= bytes.len(),
        is_cut(bytes, at),
    ensures
        is_char_boundary(bytes, at),
{
    if at == 0 || at == bytes.len() {
        is_char_boundary_start_end_of_seq(bytes);
    } else if bytes[at] < 0x80 {
        is_char_boundary_iff_not_is_continuation_byte(bytes, at);
    } else {
        lemma_boundary_behind_ascii(bytes, at - 1);
    }
}

/// The bytes of a text made of two texts are the bytes of the first followed
/// by the bytes of the second.
pub proof fn lemma_encode_concat(a: Seq<char>, b: Seq<char>)
    ensures
        encode_utf8(a + b) == encode_utf8(a) + encode_utf8(b),
    decreases a.len(),
{
    if a.len() > 0 {
        assert((a + b).drop_first() =~= a.drop_first() + b);
        lemma_encode_concat(a.drop_first(), b);
    }
}

/// The part of `s` from byte `from` up to byte `to`.
pub fn slice<'a>(s: &'a str, from: usize, to: usize) -> (part: &'a str)
    requires
        from <= to <= s.spec_bytes().len(),
        is_cut(s.spec_bytes(), from as int),
        is_cut(s.spec_bytes(), to as int),
    ensures
        part.spec_bytes() == s.spec_bytes().subrange(from as int, to as int),
{
    proof {
        encode_utf8_valid_utf8(s@);
        lemma_cut_is_char_boundary(s.spec_bytes(), to as int);
    }
    let (head, _) = s.split_at(to);
    proof {
        encode_utf8_valid_utf8(head@);
        lemma_cut_is_char_boundary(head.spec_bytes(), from as int);
    }
    let (_, part) = head.split_at(from);
    part
}

} // verus!
