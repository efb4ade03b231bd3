//! Grammar policies: which variant of the media type grammar a parser enforces.
//!
//! The policy is a type parameter of [`crate::MediaType`], so a parsed value
//! carries in its type the grammar it was checked against. The set of policies
//! is closed: [`Strict`] and [`Obsolete`].

use vstd::prelude::*;
use crate::sealed::Sealed;

verus! {

/// Horizontal tab.
pub const TAB: u8 = 0x09;

/// Space.
pub const SPACE: u8 = 0x20;

/// `"`, which opens and closes a quoted string.
pub const QUOTE: u8 = 0x22;

/// `+`, which splits a suffix off a subtype.
pub const PLUS: u8 = 0x2b;

/// `/`, which parts type and subtype.
pub const SLASH: u8 = 0x2f;

/// `;`, which stands before each parameter.
pub const SEMICOLON: u8 = 0x3b;

/// `=`, which parts the name of a parameter and its value.
pub const EQUALS: u8 = 0x3d;

/// `\`, which escapes the byte behind it in a quoted string.
pub const BACKSLASH: u8 = 0x5c;

/// Whether `b` is an ASCII letter.
pub open spec fn is_alpha(b: u8) -> bool {
    0x41 <= b <= 0x5a || 0x61 <= b <= 0x7a
}

/// Whether `b` is an ASCII digit.
pub open spec fn is_digit(b: u8) -> bool {
    0x30 <= b <= 0x39
}

/// The bytes that no policy may count as token characters: everything but
/// visible ASCII, and the four bytes `/`, `;`, `=` and `"` by which the
/// grammar tells the parts of a media type apart.
pub open spec fn is_reserved(b: u8) -> bool {
    ||| b < 0x21
    ||| b > 0x7e
    ||| b == SLASH
    ||| b == SEMICOLON
    ||| b == EQUALS
    ||| b == QUOTE
}

/// A variant of the grammar.
pub trait Policy: Sealed {
    /// The bytes that may stand in a type, subtype, suffix, parameter name or
    /// unquoted parameter value.
    spec fn token_char(b: u8) -> bool;

    /// Whether forms that the current grammar has dropped are still taken: a
    /// dangling `;`, whitespace at the end, an empty unquoted parameter value.
    spec fn obsolete_syntax() -> bool;

    /// Whether the first `+` of a subtype splits a suffix off it.
    spec fn splits_suffix() -> bool;

    /// Whether `b` may stand in a token.
    fn is_token_char(b: u8) -> (r: bool)
        ensures
            r == Self::token_char(b),
    ;

    /// Whether the forms that the current grammar has dropped are taken.
    fn allows_obsolete_syntax() -> (r: bool)
        ensures
            r == Self::obsolete_syntax(),
    ;

    /// Whether a suffix is split off a subtype.
    fn allows_suffix() -> (r: bool)
        ensures
            r == Self::splits_suffix(),
    ;

    /// No reserved byte is a token character.
    proof fn token_chars_are_not_reserved()
        ensures
            forall|b: u8| #[trigger] Self::token_char(b) ==> !is_reserved(b),
    ;

    /// A `+` is a token character, so that a suffix can be split off a
    /// subtype.
    proof fn plus_is_a_token_char()
        ensures
            Self::token_char(PLUS),
    ;
}

/// The current grammar. A token is made of letters, digits and
/// ``!#$%&'*+-.^_`|~``; a subtype is split at its first `+`; nothing may
/// follow the last parameter.
#[derive(Clone, Copy, Debug)]
pub struct Strict;

/// The older, more lenient grammar. A token is made of any visible ASCII but
/// ``()<>@,;:\"/[]?=``, which adds `{` and `}` to the tokens of [`Strict`]; a
/// `+` is a subtype character like any other; a dangling `;`, whitespace at
/// the end and an empty unquoted parameter value are taken.
#[derive(Clone, Copy, Debug)]
pub struct Obsolete;

impl Policy for Strict {
    open spec fn token_char(b: u8) -> bool {
        ||| is_alpha(b)
        ||| is_digit(b)
        ||| b == 0x21
        ||| 0x23 <= b <= 0x27
        ||| b == 0x2a
        ||| b == 0x2b
        ||| b == 0x2d
        ||| b == 0x2e
        ||| 0x5e <= b <= 0x60
        ||| b == 0x7c
        ||| b == 0x7e
    }

    open spec fn obsolete_syntax() -> bool {
        false
    }

    open spec fn splits_suffix() -> bool {
        true
    }

    fn is_token_char(b: u8) -> (r: bool) {
        (0x41 <= b && b <= 0x5a) || (0x61 <= b && b <= 0x7a) || (0x30 <= b && b <= 0x39) || b
            == 0x21 || (0x23 <= b && b <= 0x27) || b == 0x2a || b == 0x2b || b == 0x2d || b == 0x2e
            || (0x5e <= b && b <= 0x60) || b == 0x7c || b == 0x7e
    }

    fn allows_obsolete_syntax() -> (r: bool) {
        false
    }

    fn allows_suffix() -> (r: bool) {
        true
    }

    proof fn token_chars_are_not_reserved() {
    }

    proof fn plus_is_a_token_char() {
    }
}

impl Policy for Obsolete {
    open spec fn token_char(b: u8) -> bool {
        &&& 0x21 <= b <= 0x7e
        &&& b != 0x22
        &&& b != 0x28
        &&& b != 0x29
        &&& b != 0x2c
        &&& b != 0x2f
        &&& !(0x3a <= b <= 0x40)
        &&& !(0x5b <= b <= 0x5d)
    }

    open spec fn obsolete_syntax() -> bool {
        true
    }

    open spec fn splits_suffix() -> bool {
        false
    }

    fn is_token_char(b: u8) -> (r: bool) {
        0x21 <= b && b <= 0x7e && b != 0x22 && b != 0x28 && b != 0x29 && b != 0x2c && b != 0x2f
            && !(0x3a <= b && b <= 0x40) && !(0x5b <= b && b <= 0x5d)
    }

    fn allows_obsolete_syntax() -> (r: bool) {
        true
    }

    fn allows_suffix() -> (r: bool) {
        false
    }

    proof fn token_chars_are_not_reserved() {
    }

    proof fn plus_is_a_token_char() {
    }
}

/// The two policies differ on `{` and `}` only: every token character of
/// [`Strict`] is one of [`Obsolete`], and the other way round but for these
/// two.
pub proof fn law_token_chars_differ_on_braces(b: u8)
    ensures
        Strict::token_char(b) ==> Obsolete::token_char(b),
        Obsolete::token_char(b) ==> Strict::token_char(b) || b == 0x7b || b == 0x7d,
        Obsolete::token_char(0x7b) && !Strict::token_char(0x7b),
        Obsolete::token_char(0x7d) && !Strict::token_char(0x7d),
{
}

} // verus!
