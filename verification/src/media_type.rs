//! Parsed media types.

use core::marker::PhantomData;
use vstd::prelude::*;
use vstd::string::StringExecFns;
use vstd::string::StringSliceAdditionalSpecFns;
use vstd::utf8::encode_utf8;
use crate::ascii::{bytes_eq, bytes_eq_ignore_case, eq_ignore_case, to_lower};
use crate::equivalence;
use crate::error::ParseError;
use crate::grammar;
use crate::grammar::{MediaTypeModel, ParamModel};
use crate::laws::{is_token, law_parts_are_tokens};
use crate::name::Name;
use crate::policy::{Policy, BACKSLASH, PLUS, QUOTE, SEMICOLON, SLASH, SPACE, TAB};
use crate::scanner;
use crate::text::{is_cut, lemma_encode_concat, slice};

verus! {

/// The value of a parameter: a piece of the input where that is the value as
/// it stands, a text of its own where escapes had to be taken out.
#[derive(Debug)]
enum Value<'a> {
    Borrowed(&'a str),
    Unescaped(String),
}

impl<'a> View for Value<'a> {
    type V = Seq<u8>;

    closed spec fn view(&self) -> Seq<u8> {
        match *self {
            Value::Borrowed(s) => s.spec_bytes(),
            Value::Unescaped(s) => encode_utf8(s@),
        }
    }
}

impl<'a> Value<'a> {
    fn as_str(&self) -> (text: &str)
        ensures
            text.spec_bytes() == self@,
    {
        match self {
            Value::Borrowed(s) => s,
            Value::Unescaped(s) => s.as_str(),
        }
    }
}

#[derive(Debug)]
struct Param<'a> {
    name: Name<'a>,
    value: Value<'a>,
}

impl<'a> View for Param<'a> {
    type V = ParamModel;

    closed spec fn view(&self) -> ParamModel {
        ParamModel { name: self.name@, value: self.value@ }
    }
}

spec fn param_models<'a>(params: Seq<Param<'a>>) -> Seq<ParamModel> {
    params.map_values(|p: Param<'a>| p@)
}

spec fn with_prefix(prefix: Seq<ParamModel>, rest: Result<Seq<ParamModel>, ParseError>) -> Result<
    Seq<ParamModel>,
    ParseError,
> {
    match rest {
        Ok(params) => Ok(prefix + params),
        Err(e) => Err(e),
    }
}

/// Takes the escapes out of the content of a quoted string: the bytes of
/// `input` from `from` up to the closing quote at `to`.
fn unescape(input: &str, from: usize, to: usize) -> (out: String)
    requires
        from <= to < input.spec_bytes().len(),
        grammar::closing_quote(input.spec_bytes(), from as int) == to,
        is_cut(input.spec_bytes(), from as int),
    ensures
        encode_utf8(out@) == grammar::unescape(input.spec_bytes().subrange(from as int, to as int)),
{
    let bytes = input.as_bytes();
    let ghost s = input.spec_bytes();
    let mut out = String::new();
    let mut run: usize = from;
    let mut i: usize = from;
    while i < to
        invariant
            s == input.spec_bytes(),
            bytes@ == s,
            from <= run <= i <= to < s.len(),
            grammar::closing_quote(s, i as int) == to,
            is_cut(s, run as int),
            grammar::unescape(s.subrange(from as int, to as int)) == encode_utf8(out@) + s.subrange(
                run as int,
                i as int,
            ) + grammar::unescape(s.subrange(i as int, to as int)),
        decreases to - i,
    {
        let ghost rest = s.subrange(i as int, to as int);
        if bytes[i] == BACKSLASH {
            proof {
                grammar::lemma_closing_quote(s, i + 2);
            }
            let piece = slice(input, run, i);
            proof {
                lemma_encode_concat(out@, piece@);
            }
            out.append(piece);
            proof {
                assert(rest.skip(2) =~= s.subrange(i + 2, to as int));
            }
            run = i + 1;
            i = i + 2;
        } else {
            proof {
                assert(rest.skip(1) =~= s.subrange(i + 1, to as int));
            }
            i = i + 1;
        }
    }
    proof {
        grammar::lemma_closing_quote(s, from as int);
    }
    let piece = slice(input, run, to);
    proof {
        lemma_encode_concat(out@, piece@);
    }
    out.append(piece);
    out
}

/// Whether a token may end at `at`.
fn ends_token(bytes: &[u8], at: usize) -> (r: bool)
    requires
        at <= bytes@.len(),
    ensures
        r == grammar::ends_token(bytes@, at as int),
{
    at >= bytes.len() || bytes[at] == SPACE || bytes[at] == TAB || bytes[at] == SEMICOLON
}

/// Reads the parameter that starts at `at`, and says where it ends.
fn read_param<'a, P: Policy>(input: &'a str, at: usize) -> (r: Result<(Param<'a>, usize), ParseError>)
    requires
        at <= input.spec_bytes().len(),
        is_cut(input.spec_bytes(), at as int),
    ensures
        match r {
            Ok((param, end)) => grammar::parse_param::<P>(input.spec_bytes(), at as int) == Ok::<
                (ParamModel, int),
                ParseError,
            >((param@, end as int)),
            Err(e) => grammar::parse_param::<P>(input.spec_bytes(), at as int) == Err::<
                (ParamModel, int),
                ParseError,
            >(e),
        },
{
    let bytes = input.as_bytes();
    let ghost s = input.spec_bytes();
    proof {
        P::token_chars_are_not_reserved();
    }
    let stop = scanner::name_stop(bytes, at);
    if stop >= bytes.len() || bytes[stop] == SEMICOLON {
        return Err(ParseError::MissingEquals(stop));
    }
    let name_end = scanner::token_end::<P>(bytes, at);
    if name_end < stop || stop == at {
        return Err(ParseError::InvalidToken(name_end));
    }
    let name = Name::new(slice(input, at, stop));
    let value_at = stop + 1;
    if value_at < bytes.len() && bytes[value_at] == QUOTE {
        let (close, escaped) = scanner::closing_quote(bytes, value_at + 1);
        if close >= bytes.len() {
            return Err(ParseError::UnterminatedQuotedString(value_at));
        }
        let value = if escaped {
            Value::Unescaped(unescape(input, value_at + 1, close))
        } else {
            proof {
                grammar::lemma_unescape_plain(s.subrange(value_at + 1, close as int));
            }
            Value::Borrowed(slice(input, value_at + 1, close))
        };
        Ok((Param { name, value }, close + 1))
    } else {
        let value_end = scanner::token_end::<P>(bytes, value_at);
        if value_end == value_at && !P::allows_obsolete_syntax() {
            return Err(ParseError::InvalidToken(value_at));
        }
        if !ends_token(bytes, value_end) {
            return Err(ParseError::InvalidToken(value_end));
        }
        let value = Value::Borrowed(slice(input, value_at, value_end));
        Ok((Param { name, value }, value_end))
    }
}

/// Reads the parameters that stand from `from` to the end of `input`.
fn read_params<'a, P: Policy>(input: &'a str, from: usize) -> (r: Result<Vec<Param<'a>>, ParseError>)
    requires
        from <= input.spec_bytes().len(),
    ensures
        match r {
            Ok(params) => grammar::parse_params::<P>(input.spec_bytes(), from as int) == Ok::<
                Seq<ParamModel>,
                ParseError,
            >(param_models(params@)),
            Err(e) => grammar::parse_params::<P>(input.spec_bytes(), from as int) == Err::<
                Seq<ParamModel>,
                ParseError,
            >(e),
        },
{
    let bytes = input.as_bytes();
    let ghost s = input.spec_bytes();
    let mut params: Vec<Param<'a>> = Vec::new();
    let mut at: usize = from;
    loop
        invariant
            s == input.spec_bytes(),
            bytes@ == s,
            from <= at <= s.len(),
            grammar::parse_params::<P>(s, from as int) == with_prefix(
                param_models(params@),
                grammar::parse_params::<P>(s, at as int),
            ),
        decreases s.len() - at,
    {
        let ghost found = param_models(params@);
        if at >= bytes.len() {
            return Ok(params);
        }
        let semicolon = scanner::space_end(bytes, at);
        if semicolon >= bytes.len() {
            if P::allows_obsolete_syntax() {
                return Ok(params);
            } else {
                return Err(ParseError::TrailingGarbage(at));
            }
        }
        if bytes[semicolon] != SEMICOLON {
            return Err(ParseError::TrailingGarbage(at));
        }
        let start = scanner::space_end(bytes, semicolon + 1);
        if start >= bytes.len() {
            if P::allows_obsolete_syntax() {
                return Ok(params);
            } else {
                return Err(ParseError::TrailingGarbage(at));
            }
        }
        match read_param::<P>(input, start) {
            Err(e) => {
                return Err(e);
            },
            Ok((param, end)) => {
                proof {
                    grammar::lemma_param_end::<P>(s, start as int);
                    let rest = grammar::parse_params::<P>(s, end as int);
                    assert(param_models(params@.push(param)) =~= found.push(param@));
                    if let Ok(more) = rest {
                        assert(found + (seq![param@] + more) =~= found.push(param@) + more);
                    }
                }
                params.push(param);
                at = end;
            },
        }
    }
}

/// A media type that was parsed under the grammar policy `P`.
///
/// The value borrows the string it was parsed from and keeps its parts as
/// pieces of that string, in the case they were written in. Only the value of
/// a quoted string that holds escapes is kept as a text of its own.
/// Parameters are kept as they were written: in their order, and each as
/// often as it occurs. Nothing changes a value once it is made.
///
/// `==` between two media types is [`equivalence::media_type_eq`]: it
/// ignores the case of names and the order of parameters.
#[derive(Debug)]
pub struct MediaType<'a, P: Policy> {
    source: &'a str,
    type_: Name<'a>,
    subtype: Name<'a>,
    suffix: Option<Name<'a>>,
    params: Vec<Param<'a>>,
    policy: PhantomData<P>,
}

impl<'a, P: Policy> View for MediaType<'a, P> {
    type V = MediaTypeModel;

    closed spec fn view(&self) -> MediaTypeModel {
        MediaTypeModel {
            source: self.source.spec_bytes(),
            type_: self.type_@,
            subtype: self.subtype@,
            suffix: match self.suffix {
                Some(name) => Some(name@),
                None => None,
            },
            params: param_models(self.params@),
        }
    }
}

impl<'a, P: Policy> MediaType<'a, P> {
    /// Every value is what its own text parses to under `P`.
    #[verifier::type_invariant]
    spec fn parsed(&self) -> bool {
        grammar::parse::<P>(self.source.spec_bytes()) == Ok::<MediaTypeModel, ParseError>(self@)
    }

    /// Parses `input` under the policy `P`.
    ///
    /// The result is a media type exactly where [`grammar::parse`] says that
    /// `input` is one, and then it is that media type; otherwise it is the
    /// fault that [`grammar::parse`] names.
    pub fn parse(input: &'a str) -> (r: Result<MediaType<'a, P>, ParseError>)
        ensures
            match r {
                Ok(media_type) => grammar::parse::<P>(input.spec_bytes()) == Ok::<
                    MediaTypeModel,
                    ParseError,
                >(media_type@),
                Err(e) => grammar::parse::<P>(input.spec_bytes()) == Err::<
                    MediaTypeModel,
                    ParseError,
                >(e),
            },
            r matches Ok(media_type) ==> media_type@.source == input.spec_bytes(),
    {
        let bytes = input.as_bytes();
        let ghost s = input.spec_bytes();
        proof {
            P::token_chars_are_not_reserved();
        }
        let slash = scanner::index_of(bytes, 0, bytes.len(), SLASH);
        proof {
            grammar::lemma_scan_is(s, 0, |b: u8| b == SLASH, slash as int);
        }
        if slash >= bytes.len() {
            return Err(ParseError::MissingSlash);
        }
        if slash == 0 {
            return Err(ParseError::EmptyType);
        }
        let type_end = scanner::token_end::<P>(bytes, 0);
        if type_end < slash {
            return Err(ParseError::InvalidToken(type_end));
        }
        let end = scanner::token_end::<P>(bytes, slash + 1);
        let mut plus = end;
        if P::allows_suffix() {
            plus = scanner::index_of(bytes, slash + 1, end, PLUS);
            proof {
                if plus < end {
                    grammar::lemma_scan_is(s, slash + 1, |b: u8| b == PLUS, plus as int);
                } else {
                    grammar::lemma_scan(s, slash + 1, |b: u8| b == PLUS);
                }
            }
        }
        if plus == slash + 1 {
            return Err(ParseError::EmptySubtype);
        }
        if (plus < end && end - plus == 1) || !ends_token(bytes, end) {
            return Err(ParseError::InvalidToken(end));
        }
        let type_ = Name::new(slice(input, 0, slash));
        let subtype = Name::new(slice(input, slash + 1, plus));
        let suffix = if plus < end {
            Some(Name::new(slice(input, plus + 1, end)))
        } else {
            None
        };
        match read_params::<P>(input, end) {
            Err(e) => Err(e),
            Ok(params) => Ok(
                MediaType { source: input, type_, subtype, suffix, params, policy: PhantomData },
            ),
        }
    }

    /// The type: what stands before the `/`. It is never empty.
    pub fn type_(&self) -> (name: Name<'a>)
        ensures
            name@ == self@.type_,
            is_token::<P>(name@),
    {
        proof {
            use_type_invariant(self);
            law_parts_are_tokens::<P>(self.source.spec_bytes());
        }
        self.type_
    }

    /// The subtype: what stands behind the `/`, without the suffix. It is
    /// never empty.
    pub fn subtype(&self) -> (name: Name<'a>)
        ensures
            name@ == self@.subtype,
            is_token::<P>(name@),
    {
        proof {
            use_type_invariant(self);
            law_parts_are_tokens::<P>(self.source.spec_bytes());
        }
        self.subtype
    }

    /// The suffix: what stands behind the `+` that splits the subtype. Where
    /// there is one, it is not empty.
    pub fn suffix(&self) -> (name: Option<Name<'a>>)
        ensures
            match name {
                Some(n) => self@.suffix == Some(n@) && is_token::<P>(n@),
                None => self@.suffix.is_none(),
            },
    {
        proof {
            use_type_invariant(self);
            law_parts_are_tokens::<P>(self.source.spec_bytes());
        }
        self.suffix
    }

    /// The parameters, name and value, in the order in which they stand in
    /// the text. A value that was quoted comes without its quotes and
    /// escapes.
    pub fn params(&self) -> (list: Vec<(Name<'_>, Name<'_>)>)
        ensures
            list@.len() == self@.params.len(),
            forall|i: int|
                0 <= i < list@.len() ==> (#[trigger] list@[i]).0@ == self@.params[i].name
                    && list@[i].1@ == self@.params[i].value,
    {
        let mut list: Vec<(Name<'_>, Name<'_>)> = Vec::new();
        let mut i: usize = 0;
        while i < self.params.len()
            invariant
                i <= self.params.len(),
                list@.len() == i,
                forall|j: int|
                    0 <= j < i ==> (#[trigger] list@[j]).0@ == self.params@[j]@.name && list@[j].1@
                        == self.params@[j]@.value,
            decreases self.params.len() - i,
        {
            let param = &self.params[i];
            list.push((param.name, Name::new(param.value.as_str())));
            i += 1;
        }
        list
    }

    /// The value of the first parameter called `name`, whatever the case of
    /// its letters, or `None` where no parameter has that name.
    pub fn get_param(&self, name: &str) -> (value: Option<Name<'_>>)
        ensures
            match value {
                Some(v) => exists|i: int|
                    {
                        &&& 0 <= i < self@.params.len()
                        &&& eq_ignore_case(#[trigger] self@.params[i].name, name.spec_bytes())
                        &&& v@ == self@.params[i].value
                        &&& forall|j: int|
                            0 <= j < i ==> !eq_ignore_case(
                                #[trigger] self@.params[j].name,
                                name.spec_bytes(),
                            )
                    },
                None => forall|i: int|
                    0 <= i < self@.params.len() ==> !eq_ignore_case(
                        #[trigger] self@.params[i].name,
                        name.spec_bytes(),
                    ),
            },
    {
        let mut i: usize = 0;
        while i < self.params.len()
            invariant
                i <= self.params.len(),
                forall|j: int|
                    0 <= j < i ==> !eq_ignore_case(
                        #[trigger] self@.params[j].name,
                        name.spec_bytes(),
                    ),
            decreases self.params.len() - i,
        {
            let param = &self.params[i];
            if param.name == *name {
                let value = Name::new(param.value.as_str());
                assert(eq_ignore_case(self@.params[i as int].name, name.spec_bytes()));
                return Some(value);
            }
            i += 1;
        }
        None
    }

    /// The text that the value was parsed from, whole and unchanged.
    pub fn as_str_repr(&self) -> (text: &'a str)
        ensures
            text.spec_bytes() == self@.source,
            grammar::parse::<P>(text.spec_bytes()) == Ok::<MediaTypeModel, ParseError>(self@),
    {
        proof {
            use_type_invariant(self);
        }
        self.source
    }
}

/// Whether the value of the parameter called `name` is compared without
/// regard to case.
fn value_ignores_case(name: &[u8]) -> (r: bool)
    ensures
        r == equivalence::value_ignores_case(name@),
{
    name.len() == 7 && to_lower(name[0]) == 0x63 && to_lower(name[1]) == 0x68 && to_lower(name[2])
        == 0x61 && to_lower(name[3]) == 0x72 && to_lower(name[4]) == 0x73 && to_lower(name[5])
        == 0x65 && to_lower(name[6]) == 0x74
}

/// Whether two parameters are the same parameter.
fn same_param(p: &Param<'_>, q: &Param<'_>) -> (r: bool)
    ensures
        r == equivalence::param_eq(p@, q@),
{
    if p.name != q.name {
        return false;
    }
    let p_value = p.value.as_str().as_bytes();
    let q_value = q.value.as_str().as_bytes();
    if value_ignores_case(p.name.as_str().as_bytes()) {
        bytes_eq_ignore_case(p_value, q_value)
    } else {
        bytes_eq(p_value, q_value)
    }
}

/// How many of `params` are the same parameter as `p`.
fn count_like(params: &Vec<Param<'_>>, p: &Param<'_>) -> (n: usize)
    ensures
        n == equivalence::count_like(param_models(params@), p@),
{
    let ghost models = param_models(params@);
    let mut n: usize = 0;
    let mut i: usize = 0;
    while i < params.len()
        invariant
            models == param_models(params@),
            i <= params.len(),
            n <= i,
            n == equivalence::count_like(models.take(i as int), p@),
        decreases params.len() - i,
    {
        proof {
            assert(models.take(i + 1).drop_last() =~= models.take(i as int));
        }
        if same_param(&params[i], p) {
            n += 1;
        }
        i += 1;
    }
    assert(models.take(i as int) =~= models);
    n
}

/// Whether every parameter of `a` occurs in `a` as often as in `b`.
fn members_match(a: &Vec<Param<'_>>, b: &Vec<Param<'_>>) -> (r: bool)
    ensures
        r == (forall|i: int|
            0 <= i < a@.len() ==> equivalence::count_like(
                param_models(a@),
                #[trigger] param_models(a@)[i],
            ) == equivalence::count_like(param_models(b@), param_models(a@)[i])),
{
    let mut i: usize = 0;
    while i < a.len()
        invariant
            i <= a.len(),
            forall|j: int|
                0 <= j < i ==> equivalence::count_like(
                    param_models(a@),
                    #[trigger] param_models(a@)[j],
                ) == equivalence::count_like(param_models(b@), param_models(a@)[j]),
        decreases a.len() - i,
    {
        if count_like(a, &a[i]) != count_like(b, &a[i]) {
            assert(param_models(a@)[i as int] == a@[i as int]@);
            return false;
        }
        i += 1;
    }
    true
}

impl<'a, P: Policy> PartialEq for MediaType<'a, P> {
    /// Whether two media types are the same, as [`equivalence::media_type_eq`]
    /// has it.
    fn eq(&self, other: &MediaType<'a, P>) -> (r: bool) {
        let suffixes = match (&self.suffix, &other.suffix) {
            (Some(x), Some(y)) => *x == *y,
            (None, None) => true,
            _ => false,
        };
        if !suffixes || self.type_ != other.type_ || self.subtype != other.subtype {
            return false;
        }
        let r = members_match(&self.params, &other.params) && members_match(
            &other.params,
            &self.params,
        );
        proof {
            if r {
                equivalence::lemma_params_eq_by_members(self@.params, other@.params);
            }
        }
        r
    }
}

impl<'a, P: Policy> Eq for MediaType<'a, P> {

}

impl<'a, P: Policy> vstd::std_specs::cmp::PartialEqSpecImpl for MediaType<'a, P> {
    open spec fn obeys_eq_spec() -> bool {
        true
    }

    open spec fn eq_spec(&self, other: &MediaType<'a, P>) -> bool {
        equivalence::media_type_eq(self@, other@)
    }
}

} // verus!
