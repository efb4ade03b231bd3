//! Writing a media type out, and reading it back.

use vstd::prelude::*;
use crate::error::ParseError;
use crate::grammar::{
    closing_quote, is_space, lemma_scan, lemma_scan_is, parse, parse_params, unescape,
    MediaTypeModel, ParamModel,
};
use crate::laws::{is_token, law_param_names_are_tokens, law_parts_are_tokens};
use crate::policy::{Policy, BACKSLASH, EQUALS, PLUS, QUOTE, SEMICOLON, SLASH, SPACE};

verus! {

/// `value` with a backslash put before each `"` and each backslash.
pub open spec fn escape(value: Seq<u8>) -> Seq<u8>
    decreases value.len(),
{
    if value.len() == 0 {
        Seq::empty()
    } else if value[0] == QUOTE || value[0] == BACKSLASH {
        seq![BACKSLASH, value[0]] + escape(value.drop_first())
    } else {
        seq![value[0]] + escape(value.drop_first())
    }
}

/// A parameter value written out: as it is where it is a token, else in
/// quotes and escaped.
pub open spec fn render_value<P: Policy>(value: Seq<u8>) -> Seq<u8> {
    if is_token::<P>(value) {
        value
    } else {
        seq![QUOTE] + escape(value) + seq![QUOTE]
    }
}

/// Parameters written out one after the other, each as `; name=value`.
pub open spec fn render_params<P: Policy>(params: Seq<ParamModel>) -> Seq<u8>
    decreases params.len(),
{
    if params.len() == 0 {
        Seq::empty()
    } else {
        seq![SEMICOLON, SPACE] + params[0].name + seq![EQUALS] + render_value::<P>(params[0].value)
            + render_params::<P>(params.drop_first())
    }
}

/// A media type written out: `type/subtype`, `+suffix` where it has a
/// suffix, and its parameters in their order.
pub open spec fn render<P: Policy>(m: MediaTypeModel) -> Seq<u8> {
    m.type_ + seq![SLASH] + m.subtype + match m.suffix {
        Some(suffix) => seq![PLUS] + suffix,
        None => Seq::empty(),
    } + render_params::<P>(m.params)
}

/// Whether the name of every parameter is a token under `P`.
pub open spec fn have_token_names<P: Policy>(params: Seq<ParamModel>) -> bool {
    forall|i: int| 0 <= i < params.len() ==> is_token::<P>((#[trigger] params[i]).name)
}

/// Whether `m` is made of tokens in the way that `P` would split them, and
/// its text is `m` written out. The values of its parameters may be any
/// bytes.
pub open spec fn is_written_out<P: Policy>(m: MediaTypeModel) -> bool {
    &&& is_token::<P>(m.type_)
    &&& is_token::<P>(m.subtype)
    &&& P::splits_suffix() ==> forall|i: int|
        0 <= i < m.subtype.len() ==> #[trigger] m.subtype[i] != PLUS
    &&& match m.suffix {
        Some(suffix) => P::splits_suffix() && is_token::<P>(suffix),
        None => true,
    }
    &&& have_token_names::<P>(m.params)
    &&& m.source == render::<P>(m)
}

/// Taking the escapes out of an escaped value gives the value.
pub proof fn law_unescape_undoes_escape(value: Seq<u8>)
    ensures
        unescape(escape(value)) == value,
    decreases value.len(),
{
    if value.len() > 0 {
        let rest = value.drop_first();
        law_unescape_undoes_escape(rest);
        if value[0] == QUOTE || value[0] == BACKSLASH {
            assert(escape(value).skip(2) =~= escape(rest));
        } else {
            assert(escape(value).skip(1) =~= escape(rest));
        }
    }
}

/// Behind an escaped value the first quote that is not escaped is the one
/// that was put behind the value.
pub proof fn lemma_closing_quote_of_escaped(s: Seq<u8>, from: int, value: Seq<u8>)
    requires
        0 <= from,
        from + escape(value).len() < s.len(),
        s.subrange(from, from + escape(value).len() + 1) == escape(value) + seq![QUOTE],
    ensures
        closing_quote(s, from) == from + escape(value).len(),
    decreases value.len(),
{
    let written = escape(value) + seq![QUOTE];
    let n = escape(value).len() as int;
    assert(s[from] == written[0]);
    if value.len() > 0 {
        let rest = value.drop_first();
        let step: int = if value[0] == QUOTE || value[0] == BACKSLASH {
            2
        } else {
            1
        };
        assert(s.subrange(from + step, from + n + 1) =~= escape(rest) + seq![QUOTE]) by {
            assert forall|k: int| 0 <= k <= escape(rest).len() implies s[from + step + k] == (
            escape(rest) + seq![QUOTE])[k] by {
                assert(s[from + step + k] == written[step + k]);
            }
        }
        lemma_closing_quote_of_escaped(s, from + step, rest);
    }
}

/// Parameters that were written out are read back as they were, one by one
/// and in their order.
pub proof fn lemma_written_params_parse<P: Policy>(s: Seq<u8>, at: int, params: Seq<ParamModel>)
    requires
        0 <= at <= s.len(),
        s.subrange(at, s.len() as int) == render_params::<P>(params),
        have_token_names::<P>(params),
    ensures
        parse_params::<P>(s, at) == Ok::<Seq<ParamModel>, ParseError>(params),
    decreases params.len(),
{
    P::token_chars_are_not_reserved();
    let text = s.subrange(at, s.len() as int);
    if params.len() == 0 {
        assert(params =~= Seq::empty());
    } else {
        let p = params[0];
        let rest = params.drop_first();
        let written = render_value::<P>(p.value);
        let n = p.name.len() as int;
        let v = written.len() as int;
        let tail = render_params::<P>(rest);
        assert(text.len() == 3 + n + v + tail.len());
        let stop = at + 2 + n;
        let value_at = stop + 1;
        let end = value_at + v;
        assert(s[at] == text[0] && text[0] == SEMICOLON);
        assert(s[at + 1] == text[1] && text[1] == SPACE);
        assert forall|k: int| 0 <= k < n implies s[at + 2 + k] == p.name[k] by {
            assert(s[at + 2 + k] == text[2 + k]);
        }
        assert(s[stop] == text[2 + n] && text[2 + n] == EQUALS);
        assert forall|k: int| 0 <= k < v implies s[value_at + k] == written[k] by {
            assert(s[value_at + k] == text[3 + n + k]);
        }
        assert(s.subrange(end, s.len() as int) =~= tail) by {
            assert forall|k: int| 0 <= k < tail.len() implies s[end + k] == tail[k] by {
                assert(s[end + k] == text[3 + n + v + k]);
            }
        }
        if end < s.len() {
            assert(s[end] == text[3 + n + v]);
        }
        lemma_scan_is(s, at, |b: u8| !is_space(b), at);
        assert(s[at + 2] == p.name[0]);
        lemma_scan_is(s, at + 1, |b: u8| !is_space(b), at + 2);
        assert forall|i: int| at + 2 <= i < stop implies P::token_char(#[trigger] s[i]) by {
            assert(s[i] == p.name[i - at - 2]);
        }
        lemma_scan_is(s, at + 2, |b: u8| b == EQUALS || b == SEMICOLON, stop);
        lemma_scan_is(s, at + 2, |b: u8| !P::token_char(b), stop);
        assert(s.subrange(at + 2, stop) =~= p.name);
        if is_token::<P>(p.value) {
            assert forall|i: int| value_at <= i < end implies P::token_char(#[trigger] s[i]) by {
                assert(s[i] == p.value[i - value_at]);
            }
            lemma_scan_is(s, value_at, |b: u8| !P::token_char(b), end);
            assert(s.subrange(value_at, end) =~= p.value);
        } else {
            let inner = escape(p.value);
            assert(s[value_at] == written[0] && written[0] == QUOTE);
            assert(s.subrange(value_at + 1, value_at + 1 + inner.len() + 1) =~= inner + seq![
                QUOTE,
            ]) by {
                assert forall|k: int| 0 <= k <= inner.len() implies s[value_at + 1 + k] == (inner
                    + seq![QUOTE])[k] by {
                    assert(s[value_at + 1 + k] == written[1 + k]);
                }
            }
            lemma_closing_quote_of_escaped(s, value_at + 1, p.value);
            assert(s.subrange(value_at + 1, value_at + 1 + inner.len()) =~= inner);
            law_unescape_undoes_escape(p.value);
        }
        lemma_written_params_parse::<P>(s, end, rest);
        assert(seq![p] + rest =~= params);
    }
}

/// Writing a media type out and parsing the text gives the media type back:
/// every text of this form is accepted, its parts are found where they were
/// written, its parameters come in the order in which they were written, and
/// each value is read as it was before it was quoted.
pub proof fn law_written_out_parses_back<P: Policy>(m: MediaTypeModel)
    requires
        is_written_out::<P>(m),
    ensures
        parse::<P>(m.source) == Ok::<MediaTypeModel, ParseError>(m),
{
    P::token_chars_are_not_reserved();
    P::plus_is_a_token_char();
    let s = m.source;
    let t = m.type_.len() as int;
    let u = m.subtype.len() as int;
    let mark = match m.suffix {
        Some(suffix) => seq![PLUS] + suffix,
        None => Seq::empty(),
    };
    let tail = render_params::<P>(m.params);
    let plus = t + 1 + u;
    let end = plus + mark.len();
    assert(s.subrange(end, s.len() as int) =~= tail);
    lemma_scan_is(s, 0, |b: u8| b == SLASH, t);
    lemma_scan_is(s, 0, |b: u8| !P::token_char(b), t);
    lemma_scan_is(s, t + 1, |b: u8| !P::token_char(b), end);
    lemma_scan(s, t + 1, |b: u8| b == PLUS);
    assert(s.subrange(0, t) =~= m.type_);
    assert(s.subrange(t + 1, plus) =~= m.subtype);
    if m.suffix is Some {
        assert(s.subrange(plus + 1, end) =~= m.suffix.unwrap());
    }
    lemma_written_params_parse::<P>(s, end, m.params);
}

/// Every media type has a text of the written-out form: what a text parses
/// to, written out, parses to the same parts and parameters again, however
/// the first text was spaced and quoted.
pub proof fn law_parsed_can_be_written_out<P: Policy>(s: Seq<u8>)
    requires
        parse::<P>(s) is Ok,
    ensures
        ({
            let m = parse::<P>(s).unwrap();
            let written = MediaTypeModel { source: render::<P>(m), ..m };
            parse::<P>(render::<P>(m)) == Ok::<MediaTypeModel, ParseError>(written)
        }),
{
    let m = parse::<P>(s).unwrap();
    let written = MediaTypeModel { source: render::<P>(m), ..m };
    law_parts_are_tokens::<P>(s);
    law_param_names_are_tokens::<P>(s);
    law_written_out_parses_back::<P>(written);
}

} // verus!
