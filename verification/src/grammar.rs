//! The grammar of media types, as functions on the bytes of the input.
//!
//! ```text
//! media-type = type "/" subtype [ "+" suffix ] *( OWS ";" OWS parameter )
//! parameter  = token "=" ( token / quoted-string )
//! ```
//!
//! [`parse`] says, for every byte string and policy, which media type the
//! string is or which fault it has. The head is read first, then one parameter
//! after the other, and the first fault that is met is the answer. Each
//! function lists the faults it knows in the order in which it looks for them.

use vstd::prelude::*;
use crate::error::ParseError;
use crate::policy::{Policy, BACKSLASH, EQUALS, PLUS, QUOTE, SEMICOLON, SLASH, SPACE, TAB};

verus! {

/// One parameter: its name as written, and its value. The value of a quoted
/// string is what stands between the quotes, with each backslash dropped and
/// the byte behind it kept.
pub struct ParamModel {
    pub name: Seq<u8>,
    pub value: Seq<u8>,
}

/// A media type: the whole text it was read from, its parts as written, and
/// its parameters in the order in which they stand in the text.
pub struct MediaTypeModel {
    pub source: Seq<u8>,
    pub type_: Seq<u8>,
    pub subtype: Seq<u8>,
    pub suffix: Option<Seq<u8>>,
    pub params: Seq<ParamModel>,
}

/// Optional whitespace is made of spaces and horizontal tabs.
pub open spec fn is_space(b: u8) -> bool {
    b == SPACE || b == TAB
}

/// The first index at or after `from` whose byte satisfies `stop`, or the
/// length of `s` where there is none. Meant for `0 <= from <= s.len()`.
pub open spec fn scan(s: Seq<u8>, from: int, stop: spec_fn(u8) -> bool) -> int
    decreases s.len() - from,
{
    if 0 <= from < s.len() && !stop(s[from]) {
        scan(s, from + 1, stop)
    } else {
        from
    }
}

/// Where the run of token characters that starts at `from` ends.
pub open spec fn token_end<P: Policy>(s: Seq<u8>, from: int) -> int {
    scan(s, from, |b: u8| !P::token_char(b))
}

/// Where the run of whitespace that starts at `from` ends.
pub open spec fn space_end(s: Seq<u8>, from: int) -> int {
    scan(s, from, |b: u8| !is_space(b))
}

/// The index of the first `/`, or `s.len()`.
pub open spec fn slash_index(s: Seq<u8>) -> int {
    scan(s, 0, |b: u8| b == SLASH)
}

/// The index of the first `+` at or after `from`, or `s.len()`.
pub open spec fn plus_index(s: Seq<u8>, from: int) -> int {
    scan(s, from, |b: u8| b == PLUS)
}

/// Where the name of the parameter that starts at `from` has to end: the
/// first `=` or `;` at or after `from`, or `s.len()`.
pub open spec fn name_stop(s: Seq<u8>, from: int) -> int {
    scan(s, from, |b: u8| b == EQUALS || b == SEMICOLON)
}

/// Whether a token may end at `at`: there the input ends, or whitespace or a
/// `;` follows.
pub open spec fn ends_token(s: Seq<u8>, at: int) -> bool {
    at >= s.len() || is_space(s[at]) || s[at] == SEMICOLON
}

/// The index of the quote that closes a quoted string whose content starts
/// at `from`, or `s.len()` where the string is never closed. A backslash
/// takes the byte behind it along, whatever it is.
pub open spec fn closing_quote(s: Seq<u8>, from: int) -> int
    decreases s.len() + 1 - from,
{
    if !(0 <= from < s.len()) {
        s.len() as int
    } else if s[from] == QUOTE {
        from
    } else if s[from] == BACKSLASH {
        closing_quote(s, from + 2)
    } else {
        closing_quote(s, from + 1)
    }
}

/// The content of a quoted string without its escapes: each backslash that
/// has a byte behind it is dropped, and that byte is kept.
pub open spec fn unescape(content: Seq<u8>) -> Seq<u8>
    decreases content.len(),
{
    if content.len() == 0 {
        Seq::empty()
    } else if content[0] == BACKSLASH && content.len() >= 2 {
        seq![content[1]] + unescape(content.skip(2))
    } else {
        seq![content[0]] + unescape(content.skip(1))
    }
}

/// The part before the parameters.
pub struct HeadModel {
    pub type_: Seq<u8>,
    pub subtype: Seq<u8>,
    pub suffix: Option<Seq<u8>>,
    /// Where the part ends in the input.
    pub end: int,
}

/// Reads `type "/" subtype [ "+" suffix ]` from the start of `s`.
///
/// * No `/` anywhere: `MissingSlash`.
/// * The first `/` is the first byte: `EmptyType`.
/// * A byte before the first `/` is no token character: `InvalidToken`, at
///   the first such byte.
/// * No token character stands behind the `/`, or, under a policy that
///   splits suffixes, a `+` does: `EmptySubtype`.
/// * The run of token characters behind the `/` ends with the `+` that
///   splits it, or something other than whitespace, `;` or the end of the
///   input follows the run: `InvalidToken`, at the end of the run.
pub open spec fn parse_head<P: Policy>(s: Seq<u8>) -> Result<HeadModel, ParseError> {
    let slash = slash_index(s);
    let type_end = token_end::<P>(s, 0);
    let end = token_end::<P>(s, slash + 1);
    let first_plus = plus_index(s, slash + 1);
    let plus = if P::splits_suffix() && first_plus < end {
        first_plus
    } else {
        end
    };
    if slash >= s.len() {
        Err(ParseError::MissingSlash)
    } else if slash == 0 {
        Err(ParseError::EmptyType)
    } else if type_end < slash {
        Err(ParseError::InvalidToken(type_end as usize))
    } else if plus == slash + 1 {
        Err(ParseError::EmptySubtype)
    } else if plus + 1 == end || !ends_token(s, end) {
        Err(ParseError::InvalidToken(end as usize))
    } else {
        Ok(
            HeadModel {
                type_: s.subrange(0, slash),
                subtype: s.subrange(slash + 1, plus),
                suffix: if plus < end {
                    Some(s.subrange(plus + 1, end))
                } else {
                    None
                },
                end,
            },
        )
    }
}

/// Reads `token "=" ( token / quoted-string )` at `at`, and says where the
/// parameter ends.
///
/// * No `=` before the next `;` or the end of the input: `MissingEquals`, at
///   that `;` or end.
/// * A byte before the `=` is no token character, or the `=` is the first
///   byte: `InvalidToken`, at the first byte that is no token character.
/// * The value opens with `"` and is never closed:
///   `UnterminatedQuotedString`, at the opening quote.
/// * The value is unquoted and empty, under a policy without obsolete syntax:
///   `InvalidToken`, at the place of the value.
/// * Something other than whitespace, `;` or the end of the input follows an
///   unquoted value: `InvalidToken`, at that byte.
pub open spec fn parse_param<P: Policy>(s: Seq<u8>, at: int) -> Result<(ParamModel, int), ParseError> {
    let stop = name_stop(s, at);
    let name_end = token_end::<P>(s, at);
    let value_at = stop + 1;
    let close = closing_quote(s, value_at + 1);
    let value_end = token_end::<P>(s, value_at);
    if stop >= s.len() || s[stop] == SEMICOLON {
        Err(ParseError::MissingEquals(stop as usize))
    } else if name_end < stop || stop == at {
        Err(ParseError::InvalidToken(name_end as usize))
    } else if value_at < s.len() && s[value_at] == QUOTE {
        if close >= s.len() {
            Err(ParseError::UnterminatedQuotedString(value_at as usize))
        } else {
            Ok(
                (
                    ParamModel {
                        name: s.subrange(at, stop),
                        value: unescape(s.subrange(value_at + 1, close)),
                    },
                    close + 1,
                ),
            )
        }
    } else if value_end == value_at && !P::obsolete_syntax() {
        Err(ParseError::InvalidToken(value_at as usize))
    } else if !ends_token(s, value_end) {
        Err(ParseError::InvalidToken(value_end as usize))
    } else {
        Ok((ParamModel { name: s.subrange(at, stop), value: s.subrange(value_at, value_end) }, value_end))
    }
}

/// Reads `*( OWS ";" OWS parameter )` from `at` to the end of `s`.
///
/// * Whitespace alone, or a `;` with nothing but whitespace behind it, is
///   left over: nothing more is read under a policy with obsolete syntax;
///   `TrailingGarbage` at `at` under one without.
/// * Something other than a `;` stands where a parameter should begin:
///   `TrailingGarbage`, at `at`.
/// * Otherwise whatever [`parse_param`] finds behind the `;`.
pub open spec fn parse_params<P: Policy>(s: Seq<u8>, at: int) -> Result<Seq<ParamModel>, ParseError>
    decreases s.len() - at,
    when 0 <= at
    via parse_params_decreases::<P>
{
    let semicolon = space_end(s, at);
    let start = space_end(s, semicolon + 1);
    if at >= s.len() {
        Ok(Seq::empty())
    } else if semicolon >= s.len() || (s[semicolon] == SEMICOLON && start >= s.len()) {
        if P::obsolete_syntax() {
            Ok(Seq::empty())
        } else {
            Err(ParseError::TrailingGarbage(at as usize))
        }
    } else if s[semicolon] != SEMICOLON {
        Err(ParseError::TrailingGarbage(at as usize))
    } else {
        match parse_param::<P>(s, start) {
            Err(e) => Err(e),
            Ok((param, end)) => match parse_params::<P>(s, end) {
                Err(e) => Err(e),
                Ok(rest) => Ok(seq![param] + rest),
            },
        }
    }
}

#[via_fn]
proof fn parse_params_decreases<P: Policy>(s: Seq<u8>, at: int) {
    let semicolon = space_end(s, at);
    let start = space_end(s, semicolon + 1);
    if at < s.len() && semicolon < s.len() && s[semicolon] == SEMICOLON && start < s.len() {
        lemma_scan(s, at, |b: u8| !is_space(b));
        lemma_scan(s, semicolon + 1, |b: u8| !is_space(b));
        lemma_param_end::<P>(s, start);
    }
}

/// The media type that `s` is under policy `P`, or the first fault of `s`.
pub open spec fn parse<P: Policy>(s: Seq<u8>) -> Result<MediaTypeModel, ParseError> {
    match parse_head::<P>(s) {
        Err(e) => Err(e),
        Ok(head) => match parse_params::<P>(s, head.end) {
            Err(e) => Err(e),
            Ok(params) => Ok(
                MediaTypeModel {
                    source: s,
                    type_: head.type_,
                    subtype: head.subtype,
                    suffix: head.suffix,
                    params,
                },
            ),
        },
    }
}

/// What [`scan`] finds: it stops within the input, at the first byte that
/// satisfies `stop`.
pub proof fn lemma_scan(s: Seq<u8>, from: int, stop: spec_fn(u8) -> bool)
    requires
        0 <= from <= s.len(),
    ensures
        from <= scan(s, from, stop) <= s.len(),
        forall|i: int| from <= i < scan(s, from, stop) ==> !stop(#[trigger] s[i]),
        scan(s, from, stop) < s.len() ==> stop(s[scan(s, from, stop)]),
    decreases s.len() - from,
{
    if from < s.len() && !stop(s[from]) {
        lemma_scan(s, from + 1, stop);
    }
}

/// An index with these three properties is what [`scan`] finds.
pub proof fn lemma_scan_is(s: Seq<u8>, from: int, stop: spec_fn(u8) -> bool, end: int)
    requires
        0 <= from <= end <= s.len(),
        forall|i: int| from <= i < end ==> !stop(#[trigger] s[i]),
        end < s.len() ==> stop(s[end]),
    ensures
        scan(s, from, stop) == end,
    decreases end - from,
{
    if from < end {
        lemma_scan_is(s, from + 1, stop, end);
    }
}

/// The closing quote lies within the input, or is `s.len()`.
pub proof fn lemma_closing_quote(s: Seq<u8>, from: int)
    requires
        0 <= from,
    ensures
        from <= closing_quote(s, from) || closing_quote(s, from) == s.len(),
        closing_quote(s, from) <= s.len(),
        closing_quote(s, from) < s.len() ==> s[closing_quote(s, from)] == QUOTE,
    decreases s.len() + 1 - from,
{
    if from < s.len() && s[from] != QUOTE {
        if s[from] == BACKSLASH {
            lemma_closing_quote(s, from + 2);
        } else {
            lemma_closing_quote(s, from + 1);
        }
    }
}

/// The content of a quoted string that holds no backslash is its own value.
pub proof fn lemma_unescape_plain(content: Seq<u8>)
    requires
        forall|i: int| 0 <= i < content.len() ==> #[trigger] content[i] != BACKSLASH,
    ensures
        unescape(content) == content,
    decreases content.len(),
{
    if content.len() > 0 {
        lemma_unescape_plain(content.skip(1));
    }
}

/// A parameter is not empty: where one is read, it ends behind its start and
/// within the input.
pub proof fn lemma_param_end<P: Policy>(s: Seq<u8>, at: int)
    requires
        0 <= at <= s.len(),
    ensures
        parse_param::<P>(s, at) matches Ok((_, end)) ==> at < end <= s.len(),
{
    lemma_scan(s, at, |b: u8| b == EQUALS || b == SEMICOLON);
    let stop = name_stop(s, at);
    if stop < s.len() {
        lemma_scan(s, stop + 1, |b: u8| !P::token_char(b));
        lemma_closing_quote(s, stop + 2);
    }
}

} // verus!
