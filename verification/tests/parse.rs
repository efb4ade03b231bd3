use media_type::{MediaType, Obsolete, ParseError, Strict};

fn pairs<'m>(list: Vec<(media_type::Name<'m>, media_type::Name<'m>)>) -> Vec<(&'m str, &'m str)> {
    list.into_iter().map(|(name, value)| (name.as_str(), value.as_str())).collect()
}

#[test]
fn parses_type_and_subtype() {
    let m = MediaType::<Strict>::parse("text/plain").unwrap();
    assert_eq!(m.type_(), "text");
    assert_eq!(m.type_().as_str(), "text");
    assert_eq!(m.subtype().as_str(), "plain");
    assert!(m.suffix().is_none());
    assert!(m.params().is_empty());
    assert_eq!(m.as_str_repr(), "text/plain");
}

#[test]
fn keeps_the_text_and_its_case() {
    let input = "TEXT/Plain; Charset=UTF-8";
    let m = MediaType::<Strict>::parse(input).unwrap();
    assert_eq!(m.as_str_repr(), input);
    assert_eq!(m.type_().as_str(), "TEXT");
    assert_eq!(m.type_(), "text");
    assert_eq!(m.subtype().as_str(), "Plain");
    assert_eq!(pairs(m.params()), vec![("Charset", "UTF-8")]);
    let again = MediaType::<Strict>::parse(m.as_str_repr()).unwrap();
    assert_eq!(again, m);
}

#[test]
fn case_does_not_matter_for_equality() {
    assert_eq!(
        MediaType::<Strict>::parse("TEXT/Plain; Charset=UTF-8"),
        MediaType::<Strict>::parse("text/plain; charset=utf-8")
    );
}

#[test]
fn parameter_order_does_not_matter_for_equality() {
    let a = MediaType::<Strict>::parse("text/plain; a=1; b=2").unwrap();
    let b = MediaType::<Strict>::parse("text/plain; b=2; a=1").unwrap();
    assert_eq!(a, b);
    assert_eq!(pairs(a.params()), vec![("a", "1"), ("b", "2")]);
    assert_eq!(pairs(b.params()), vec![("b", "2"), ("a", "1")]);
}

#[test]
fn missing_slash() {
    assert_eq!(MediaType::<Strict>::parse("textplain").unwrap_err(), ParseError::MissingSlash);
    assert_eq!(MediaType::<Obsolete>::parse("textplain").unwrap_err(), ParseError::MissingSlash);
    assert_eq!(MediaType::<Strict>::parse("").unwrap_err(), ParseError::MissingSlash);
    assert_eq!(MediaType::<Strict>::parse("te xtplain").unwrap_err(), ParseError::MissingSlash);
    assert_eq!(MediaType::<Strict>::parse("text; a=1").unwrap_err(), ParseError::MissingSlash);
}

#[test]
fn unterminated_quote() {
    assert_eq!(
        MediaType::<Strict>::parse("text/plain; foo=\"bar").unwrap_err(),
        ParseError::UnterminatedQuotedString(16)
    );
    assert_eq!(
        MediaType::<Obsolete>::parse("text/plain; foo=\"bar").unwrap_err(),
        ParseError::UnterminatedQuotedString(16)
    );
    assert_eq!(
        MediaType::<Strict>::parse("text/plain; foo=\"").unwrap_err(),
        ParseError::UnterminatedQuotedString(16)
    );
    assert_eq!(
        MediaType::<Strict>::parse("text/plain; foo=\"bar\\\"").unwrap_err(),
        ParseError::UnterminatedQuotedString(16)
    );
    assert_eq!(
        MediaType::<Strict>::parse("text/plain; foo=\"bar\\").unwrap_err(),
        ParseError::UnterminatedQuotedString(16)
    );
}

#[test]
fn suffix_is_split_off() {
    let m = MediaType::<Strict>::parse("image/svg+xml").unwrap();
    assert_eq!(m.type_().as_str(), "image");
    assert_eq!(m.subtype().as_str(), "svg");
    assert_eq!(m.suffix().unwrap().as_str(), "xml");
    assert_eq!(m.suffix().unwrap(), "xml");
    assert_eq!(m.as_str_repr(), "image/svg+xml");
}

#[test]
fn suffix_is_split_at_the_first_plus() {
    let m = MediaType::<Strict>::parse("application/a+b+json; q=1").unwrap();
    assert_eq!(m.subtype().as_str(), "a");
    assert_eq!(m.suffix().unwrap().as_str(), "b+json");
    assert_eq!(pairs(m.params()), vec![("q", "1")]);
}

#[test]
fn obsolete_policy_keeps_the_plus_in_the_subtype() {
    let m = MediaType::<Obsolete>::parse("image/svg+xml").unwrap();
    assert_eq!(m.subtype().as_str(), "svg+xml");
    assert!(m.suffix().is_none());
    let n = MediaType::<Obsolete>::parse("text/+xml").unwrap();
    assert_eq!(n.subtype().as_str(), "+xml");
}

#[test]
fn policies_differ_on_braces() {
    let input = "text/x-{a}";
    assert_eq!(MediaType::<Strict>::parse(input).unwrap_err(), ParseError::InvalidToken(7));
    let m = MediaType::<Obsolete>::parse(input).unwrap();
    assert_eq!(m.subtype().as_str(), "x-{a}");
    assert_eq!(
        MediaType::<Strict>::parse("a/b; {=1").unwrap_err(),
        ParseError::InvalidToken(5)
    );
    assert!(MediaType::<Obsolete>::parse("a/b; {=1").is_ok());
}

#[test]
fn policies_differ_on_a_dangling_semicolon() {
    assert_eq!(MediaType::<Strict>::parse("text/plain;").unwrap_err(), ParseError::TrailingGarbage(10));
    assert_eq!(
        MediaType::<Strict>::parse("text/plain; a=1 ; ").unwrap_err(),
        ParseError::TrailingGarbage(15)
    );
    let m = MediaType::<Obsolete>::parse("text/plain;").unwrap();
    assert!(m.params().is_empty());
    assert_eq!(m.as_str_repr(), "text/plain;");
    let n = MediaType::<Obsolete>::parse("text/plain; a=1 ; ").unwrap();
    assert_eq!(pairs(n.params()), vec![("a", "1")]);
}

#[test]
fn policies_differ_on_whitespace_at_the_end() {
    assert_eq!(MediaType::<Strict>::parse("text/plain ").unwrap_err(), ParseError::TrailingGarbage(10));
    assert_eq!(
        MediaType::<Strict>::parse("text/plain; a=\"b\"\t").unwrap_err(),
        ParseError::TrailingGarbage(17)
    );
    assert!(MediaType::<Obsolete>::parse("text/plain ").is_ok());
    assert!(MediaType::<Obsolete>::parse("text/plain; a=\"b\"\t").is_ok());
}

#[test]
fn policies_differ_on_an_empty_value() {
    assert_eq!(MediaType::<Strict>::parse("text/plain; a=").unwrap_err(), ParseError::InvalidToken(14));
    assert_eq!(
        MediaType::<Strict>::parse("text/plain; a=; b=1").unwrap_err(),
        ParseError::InvalidToken(14)
    );
    let m = MediaType::<Obsolete>::parse("text/plain; a=").unwrap();
    assert_eq!(pairs(m.params()), vec![("a", "")]);
    let n = MediaType::<Obsolete>::parse("text/plain; a=; b=1").unwrap();
    assert_eq!(pairs(n.params()), vec![("a", ""), ("b", "1")]);
}

#[test]
fn empty_type() {
    assert_eq!(MediaType::<Strict>::parse("/plain").unwrap_err(), ParseError::EmptyType);
    assert_eq!(MediaType::<Strict>::parse("/").unwrap_err(), ParseError::EmptyType);
    assert_eq!(MediaType::<Obsolete>::parse("/plain").unwrap_err(), ParseError::EmptyType);
}

#[test]
fn empty_subtype() {
    assert_eq!(MediaType::<Strict>::parse("text/").unwrap_err(), ParseError::EmptySubtype);
    assert_eq!(MediaType::<Strict>::parse("text/; a=1").unwrap_err(), ParseError::EmptySubtype);
    assert_eq!(MediaType::<Strict>::parse("text/ plain").unwrap_err(), ParseError::EmptySubtype);
    assert_eq!(MediaType::<Strict>::parse("text/+xml").unwrap_err(), ParseError::EmptySubtype);
    assert_eq!(MediaType::<Strict>::parse("text//").unwrap_err(), ParseError::EmptySubtype);
    assert_eq!(MediaType::<Obsolete>::parse("text/").unwrap_err(), ParseError::EmptySubtype);
}

#[test]
fn invalid_token_in_the_head() {
    assert_eq!(MediaType::<Strict>::parse("te xt/plain").unwrap_err(), ParseError::InvalidToken(2));
    assert_eq!(MediaType::<Strict>::parse(" text/plain").unwrap_err(), ParseError::InvalidToken(0));
    assert_eq!(MediaType::<Strict>::parse("text/pl@in").unwrap_err(), ParseError::InvalidToken(7));
    assert_eq!(MediaType::<Strict>::parse("text/plain/x").unwrap_err(), ParseError::InvalidToken(10));
    assert_eq!(MediaType::<Strict>::parse("text/plain=x").unwrap_err(), ParseError::InvalidToken(10));
    assert_eq!(MediaType::<Strict>::parse("image/svg+").unwrap_err(), ParseError::InvalidToken(10));
    assert_eq!(MediaType::<Strict>::parse("image/svg+; a=1").unwrap_err(), ParseError::InvalidToken(10));
    assert_eq!(MediaType::<Strict>::parse("t\u{eb}xt/plain").unwrap_err(), ParseError::InvalidToken(1));
    assert_eq!(MediaType::<Obsolete>::parse("text/pl@in").unwrap_err(), ParseError::InvalidToken(7));
}

#[test]
fn missing_equals() {
    assert_eq!(MediaType::<Strict>::parse("text/plain; foo").unwrap_err(), ParseError::MissingEquals(15));
    assert_eq!(
        MediaType::<Strict>::parse("text/plain; foo; bar=1").unwrap_err(),
        ParseError::MissingEquals(15)
    );
    assert_eq!(
        MediaType::<Strict>::parse("text/plain;; bar=1").unwrap_err(),
        ParseError::MissingEquals(11)
    );
    assert_eq!(
        MediaType::<Strict>::parse("text/plain; a=1; f o").unwrap_err(),
        ParseError::MissingEquals(20)
    );
    assert_eq!(MediaType::<Obsolete>::parse("text/plain; foo").unwrap_err(), ParseError::MissingEquals(15));
}

#[test]
fn invalid_token_in_a_parameter() {
    assert_eq!(
        MediaType::<Strict>::parse("text/plain; fo o=1").unwrap_err(),
        ParseError::InvalidToken(14)
    );
    assert_eq!(MediaType::<Strict>::parse("text/plain; =1").unwrap_err(), ParseError::InvalidToken(12));
    assert_eq!(
        MediaType::<Strict>::parse("text/plain; foo =1").unwrap_err(),
        ParseError::InvalidToken(15)
    );
    assert_eq!(
        MediaType::<Strict>::parse("text/plain; a=b@c").unwrap_err(),
        ParseError::InvalidToken(15)
    );
    assert_eq!(
        MediaType::<Strict>::parse("text/plain; a=b\"c\"").unwrap_err(),
        ParseError::InvalidToken(15)
    );
    assert_eq!(
        MediaType::<Strict>::parse("text/plain; a= b").unwrap_err(),
        ParseError::InvalidToken(14)
    );
    assert_eq!(
        MediaType::<Obsolete>::parse("text/plain; a=b=c").unwrap_err(),
        ParseError::InvalidToken(15)
    );
}

#[test]
fn trailing_garbage() {
    assert_eq!(
        MediaType::<Strict>::parse("text/plain; a=1 b").unwrap_err(),
        ParseError::TrailingGarbage(15)
    );
    assert_eq!(
        MediaType::<Strict>::parse("text/plain; a=\"x\"y").unwrap_err(),
        ParseError::TrailingGarbage(17)
    );
    assert_eq!(MediaType::<Strict>::parse("text/plain x").unwrap_err(), ParseError::TrailingGarbage(10));
    assert_eq!(
        MediaType::<Obsolete>::parse("text/plain; a=1 b").unwrap_err(),
        ParseError::TrailingGarbage(15)
    );
    assert_eq!(
        MediaType::<Obsolete>::parse("text/plain x").unwrap_err(),
        ParseError::TrailingGarbage(10)
    );
}

#[test]
fn whitespace_around_the_semicolon() {
    let m = MediaType::<Strict>::parse("text/plain \t;\t a=1;b=2 ;c=3").unwrap();
    assert_eq!(pairs(m.params()), vec![("a", "1"), ("b", "2"), ("c", "3")]);
    assert_eq!(m.subtype().as_str(), "plain");
}

#[test]
fn quoted_values() {
    let m = MediaType::<Strict>::parse("text/plain; a=\"x y\"; b=\"\"; c=\"p;q=r\"").unwrap();
    assert_eq!(pairs(m.params()), vec![("a", "x y"), ("b", ""), ("c", "p;q=r")]);
}

#[test]
fn escapes_are_taken_out() {
    let m = MediaType::<Strict>::parse("text/plain; a=\"x\\\"y\\\\z\"; b=\"\\q\"; c=\"\\\\\"").unwrap();
    assert_eq!(pairs(m.params()), vec![("a", "x\"y\\z"), ("b", "q"), ("c", "\\")]);
    assert_eq!(m.as_str_repr(), "text/plain; a=\"x\\\"y\\\\z\"; b=\"\\q\"; c=\"\\\\\"");
}

#[test]
fn quoted_values_may_hold_any_character() {
    let m = MediaType::<Strict>::parse("text/plain; title=\"na\u{ef}ve \u{1f600}\"; t=\"a\\\u{ef}b\\\u{1f600}\"").unwrap();
    assert_eq!(pairs(m.params()), vec![("title", "na\u{ef}ve \u{1f600}"), ("t", "a\u{ef}b\u{1f600}")]);
}

#[test]
fn duplicate_parameters_are_kept_in_order() {
    let m = MediaType::<Strict>::parse("text/plain; a=1; A=2; a=1").unwrap();
    assert_eq!(pairs(m.params()), vec![("a", "1"), ("A", "2"), ("a", "1")]);
    assert_eq!(m.get_param("a").unwrap().as_str(), "1");
    assert_eq!(m.get_param("A").unwrap().as_str(), "1");
}

#[test]
fn get_param_finds_the_first_match() {
    let m = MediaType::<Strict>::parse("multipart/mixed; Boundary=\"a b\"; charset=utf-8; boundary=x").unwrap();
    assert_eq!(m.get_param("boundary").unwrap().as_str(), "a b");
    assert_eq!(m.get_param("CHARSET").unwrap().as_str(), "utf-8");
    assert!(m.get_param("q").is_none());
    assert!(m.get_param("").is_none());
    assert!(MediaType::<Strict>::parse("a/b").unwrap().get_param("a").is_none());
}

#[test]
fn every_token_character_is_accepted() {
    let input = "a!#$%&'*+-.^_`|~0/Zz9!#$%&'*-.^_`|~; n!#=v$%";
    let m = MediaType::<Strict>::parse(input).unwrap();
    assert_eq!(m.type_().as_str(), "a!#$%&'*+-.^_`|~0");
    assert_eq!(m.subtype().as_str(), "Zz9!#$%&'*-.^_`|~");
    assert_eq!(pairs(m.params()), vec![("n!#", "v$%")]);
}

#[test]
fn error_positions() {
    assert_eq!(ParseError::MissingSlash.position(), None);
    assert_eq!(ParseError::EmptyType.position(), None);
    assert_eq!(ParseError::EmptySubtype.position(), None);
    assert_eq!(ParseError::InvalidToken(3).position(), Some(3));
    assert_eq!(ParseError::MissingEquals(4).position(), Some(4));
    assert_eq!(ParseError::UnterminatedQuotedString(5).position(), Some(5));
    assert_eq!(ParseError::TrailingGarbage(6).position(), Some(6));
}
