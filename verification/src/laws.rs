//! What holds of every string that parses.

use vstd::prelude::*;
use crate::ascii::eq_ignore_case;
use crate::error::ParseError;
use crate::grammar::{
    is_space, lemma_param_end, lemma_scan, lemma_scan_is, name_stop, parse, parse_head,
    parse_param, parse_params, slash_index, space_end, token_end, MediaTypeModel,
};
use crate::policy::{Obsolete, Policy, Strict, EQUALS, PLUS, SEMICOLON, SLASH};

verus! {

/// Whether `text` is a token under `P`: not empty, and made of token
/// characters.
pub open spec fn is_token<P: Policy>(text: Seq<u8>) -> bool {
    &&& text.len() > 0
    &&& forall|i: int| 0 <= i < text.len() ==> P::token_char(#[trigger] text[i])
}

/// A media type keeps the text it was parsed from, and its type is the text
/// before the first `/` as it stands there, so that the two are equal up to
/// case as well. Parsing the kept text again gives the same media type.
pub proof fn law_parse_keeps_text<P: Policy>(s: Seq<u8>)
    requires
        parse::<P>(s) is Ok,
    ensures
        parse::<P>(s).unwrap().source == s,
        parse::<P>(parse::<P>(s).unwrap().source) == parse::<P>(s),
        parse::<P>(s).unwrap().type_ == s.subrange(0, slash_index(s)),
        eq_ignore_case(parse::<P>(s).unwrap().type_, s.subrange(0, slash_index(s))),
        slash_index(s) < s.len() && s[slash_index(s)] == SLASH,
{
    lemma_scan(s, 0, |b: u8| b == SLASH);
}

/// Every fault of a parameter has a place.
pub proof fn lemma_param_faults_have_a_place<P: Policy>(s: Seq<u8>, at: int)
    requires
        0 <= at <= s.len(),
    ensures
        parse_params::<P>(s, at) matches Err(e) ==> e.spec_position() is Some,
    decreases s.len() - at,
{
    let semicolon = space_end(s, at);
    let start = space_end(s, semicolon + 1);
    if at < s.len() && semicolon < s.len() && s[semicolon] == SEMICOLON && start < s.len() {
        lemma_scan(s, at, |b: u8| !is_space(b));
        lemma_scan(s, semicolon + 1, |b: u8| !is_space(b));
        lemma_param_end::<P>(s, start);
        if let Ok((_, end)) = parse_param::<P>(s, start) {
            lemma_param_faults_have_a_place::<P>(s, end);
        }
    }
}

/// The slash is missing exactly where the text holds no `/`, and the type is
/// empty exactly where the text starts with one.
pub proof fn law_slash_faults<P: Policy>(s: Seq<u8>)
    ensures
        parse::<P>(s) == Err::<MediaTypeModel, ParseError>(ParseError::MissingSlash)
            <==> !s.contains(SLASH),
        parse::<P>(s) == Err::<MediaTypeModel, ParseError>(ParseError::EmptyType) <==> s.len() > 0
            && s[0] == SLASH,
{
    lemma_scan(s, 0, |b: u8| b == SLASH);
    let slash = slash_index(s);
    if s.contains(SLASH) {
        let i = choose|i: int| 0 <= i < s.len() && s[i] == SLASH;
    }
    if let Ok(head) = parse_head::<P>(s) {
        lemma_scan(s, slash + 1, |b: u8| !P::token_char(b));
        lemma_param_faults_have_a_place::<P>(s, head.end);
    }
}

/// The head of a media type is the start of its text, part by part: the
/// type, a `/`, the subtype and, where there is a suffix, a `+` and the
/// suffix.
pub proof fn law_head_is_prefix<P: Policy>(s: Seq<u8>)
    requires
        parse::<P>(s) is Ok,
    ensures
        ({
            let m = parse::<P>(s).unwrap();
            let head = m.type_ + seq![SLASH] + m.subtype + match m.suffix {
                Some(suffix) => seq![PLUS] + suffix,
                None => Seq::empty(),
            };
            head.len() <= s.len() && s.subrange(0, head.len() as int) == head
        }),
{
    P::token_chars_are_not_reserved();
    let slash = slash_index(s);
    lemma_scan(s, 0, |b: u8| b == SLASH);
    lemma_scan(s, slash + 1, |b: u8| !P::token_char(b));
    lemma_scan(s, slash + 1, |b: u8| b == PLUS);
}

/// Type and subtype of a media type are tokens, and so is its suffix where
/// it has one. Only a policy that splits suffixes gives a media type a
/// suffix, and then the subtype holds no `+`.
pub proof fn law_parts_are_tokens<P: Policy>(s: Seq<u8>)
    requires
        parse::<P>(s) is Ok,
    ensures
        is_token::<P>(parse::<P>(s).unwrap().type_),
        is_token::<P>(parse::<P>(s).unwrap().subtype),
        parse::<P>(s).unwrap().suffix matches Some(suffix) ==> is_token::<P>(suffix)
            && P::splits_suffix(),
        P::splits_suffix() ==> !parse::<P>(s).unwrap().subtype.contains(PLUS),
{
    P::token_chars_are_not_reserved();
    let slash = slash_index(s);
    lemma_scan(s, 0, |b: u8| b == SLASH);
    lemma_scan(s, 0, |b: u8| !P::token_char(b));
    lemma_scan(s, slash + 1, |b: u8| !P::token_char(b));
    lemma_scan(s, slash + 1, |b: u8| b == PLUS);
}

/// The names of the parameters that are read from `at` on are tokens.
pub proof fn lemma_param_names_are_tokens<P: Policy>(s: Seq<u8>, at: int)
    requires
        0 <= at <= s.len(),
        parse_params::<P>(s, at) is Ok,
    ensures
        forall|i: int|
            0 <= i < parse_params::<P>(s, at).unwrap().len() ==> is_token::<P>(
                (#[trigger] parse_params::<P>(s, at).unwrap()[i]).name,
            ),
    decreases s.len() - at,
{
    let semicolon = space_end(s, at);
    let start = space_end(s, semicolon + 1);
    if at < s.len() && semicolon < s.len() && s[semicolon] == SEMICOLON && start < s.len() {
        lemma_scan(s, at, |b: u8| !is_space(b));
        lemma_scan(s, semicolon + 1, |b: u8| !is_space(b));
        lemma_param_end::<P>(s, start);
        lemma_param_names_are_tokens::<P>(s, parse_param::<P>(s, start).unwrap().1);
        lemma_scan(s, start, |b: u8| !P::token_char(b));
        lemma_scan(s, start, |b: u8| b == EQUALS || b == SEMICOLON);
    }
}

/// The name of every parameter of a media type is a token.
pub proof fn law_param_names_are_tokens<P: Policy>(s: Seq<u8>)
    requires
        parse::<P>(s) is Ok,
    ensures
        forall|i: int|
            0 <= i < parse::<P>(s).unwrap().params.len() ==> is_token::<P>(
                (#[trigger] parse::<P>(s).unwrap().params[i]).name,
            ),
{
    P::token_chars_are_not_reserved();
    let slash = slash_index(s);
    lemma_scan(s, 0, |b: u8| b == SLASH);
    lemma_scan(s, slash + 1, |b: u8| !P::token_char(b));
    lemma_param_names_are_tokens::<P>(s, parse_head::<P>(s).unwrap().end);
}

/// A run of tokens of the strict grammar that ends where no token of the
/// obsolete grammar goes on is the same run under both.
pub proof fn lemma_token_runs_agree(s: Seq<u8>, from: int)
    requires
        0 <= from <= s.len(),
        token_end::<Strict>(s, from) < s.len() ==> !Obsolete::token_char(
            s[token_end::<Strict>(s, from)],
        ),
    ensures
        token_end::<Obsolete>(s, from) == token_end::<Strict>(s, from),
{
    lemma_scan(s, from, |b: u8| !Strict::token_char(b));
    lemma_scan_is(s, from, |b: u8| !Obsolete::token_char(b), token_end::<Strict>(s, from));
}

/// A parameter of the strict grammar is the same parameter under the
/// obsolete grammar.
pub proof fn lemma_params_agree_one(s: Seq<u8>, at: int)
    requires
        0 <= at <= s.len(),
        parse_param::<Strict>(s, at) is Ok,
    ensures
        parse_param::<Obsolete>(s, at) == parse_param::<Strict>(s, at),
{
    lemma_scan(s, at, |b: u8| b == EQUALS || b == SEMICOLON);
    let stop = name_stop(s, at);
    lemma_scan(s, at, |b: u8| !Strict::token_char(b));
    lemma_token_runs_agree(s, at);
    lemma_scan(s, stop + 1, |b: u8| !Strict::token_char(b));
    lemma_token_runs_agree(s, stop + 1);
}

/// Parameters of the strict grammar are the same parameters under the
/// obsolete grammar.
pub proof fn lemma_params_agree(s: Seq<u8>, at: int)
    requires
        0 <= at <= s.len(),
        parse_params::<Strict>(s, at) is Ok,
    ensures
        parse_params::<Obsolete>(s, at) == parse_params::<Strict>(s, at),
    decreases s.len() - at,
{
    let semicolon = space_end(s, at);
    let start = space_end(s, semicolon + 1);
    if at < s.len() {
        lemma_scan(s, at, |b: u8| !is_space(b));
        lemma_scan(s, semicolon + 1, |b: u8| !is_space(b));
        lemma_params_agree_one(s, start);
        lemma_param_end::<Strict>(s, start);
        lemma_params_agree(s, parse_param::<Strict>(s, start).unwrap().1);
    }
}

/// The obsolete grammar takes every text that the strict one takes, and
/// finds the same type and the same parameters in it. Where the strict
/// grammar splits a suffix off, the obsolete one has the whole of it as the
/// subtype.
pub proof fn law_obsolete_accepts_what_strict_accepts(s: Seq<u8>)
    requires
        parse::<Strict>(s) is Ok,
    ensures
        parse::<Obsolete>(s) is Ok,
        parse::<Obsolete>(s).unwrap().type_ == parse::<Strict>(s).unwrap().type_,
        parse::<Obsolete>(s).unwrap().params == parse::<Strict>(s).unwrap().params,
        parse::<Obsolete>(s).unwrap().suffix is None,
        parse::<Obsolete>(s).unwrap().subtype == parse::<Strict>(s).unwrap().subtype + match parse::<
            Strict,
        >(s).unwrap().suffix {
            Some(suffix) => seq![PLUS] + suffix,
            None => Seq::empty(),
        },
{
    let slash = slash_index(s);
    lemma_scan(s, 0, |b: u8| b == SLASH);
    lemma_scan(s, 0, |b: u8| !Strict::token_char(b));
    lemma_token_runs_agree(s, 0);
    lemma_scan(s, slash + 1, |b: u8| !Strict::token_char(b));
    lemma_token_runs_agree(s, slash + 1);
    lemma_scan(s, slash + 1, |b: u8| b == PLUS);
    lemma_params_agree(s, parse_head::<Strict>(s).unwrap().end);
}

} // verus!
