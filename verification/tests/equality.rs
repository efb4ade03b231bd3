use media_type::{MediaType, Obsolete, Strict};

fn strict(input: &str) -> MediaType<'_, Strict> {
    MediaType::<Strict>::parse(input).unwrap()
}

#[test]
fn equal_media_types() {
    assert_eq!(strict("text/plain"), strict("text/plain"));
    assert_eq!(strict("text/plain"), strict("TEXT/PLAIN"));
    assert_eq!(strict("image/svg+xml"), strict("Image/SVG+XML"));
    assert_eq!(strict("text/plain;a=1"), strict("text/plain \t;  A=1"));
}

#[test]
fn different_media_types() {
    assert_ne!(strict("text/plain"), strict("text/css"));
    assert_ne!(strict("text/plain"), strict("audio/plain"));
    assert_ne!(strict("image/svg+xml"), strict("image/svg"));
    assert_ne!(strict("image/svg"), strict("image/svg+xml"));
    assert_ne!(strict("image/svg+xml"), strict("image/svg+json"));
    assert_ne!(strict("text/plain; a=1"), strict("text/plain"));
    assert_ne!(strict("text/plain"), strict("text/plain; a=1"));
    assert_ne!(strict("text/plain; a=1"), strict("text/plain; a=2"));
    assert_ne!(strict("text/plain; a=1"), strict("text/plain; b=1"));
}

#[test]
fn charset_values_ignore_case() {
    assert_eq!(strict("text/plain; charset=UTF-8"), strict("text/plain; charset=utf-8"));
    assert_eq!(strict("text/plain; CharSet=UTF-8"), strict("text/plain; charset=utf-8"));
    assert_ne!(strict("text/plain; charset=utf-8"), strict("text/plain; charset=utf-16"));
}

#[test]
fn other_values_keep_their_case() {
    assert_ne!(strict("text/plain; foo=BAR"), strict("text/plain; foo=bar"));
    assert_ne!(strict("text/plain; charsets=UTF-8"), strict("text/plain; charsets=utf-8"));
    assert_ne!(strict("text/plain; charse=UTF-8"), strict("text/plain; charse=utf-8"));
    assert_eq!(strict("text/plain; FOO=bar"), strict("text/plain; foo=bar"));
}

#[test]
fn quoting_does_not_matter() {
    assert_eq!(strict("text/plain; a=\"1\""), strict("text/plain; a=1"));
    assert_eq!(strict("text/plain; a=\"\\1\""), strict("text/plain; a=1"));
    assert_ne!(strict("text/plain; a=\"1 \""), strict("text/plain; a=1"));
}

#[test]
fn parameters_are_counted() {
    assert_ne!(strict("a/b; x=1; x=1"), strict("a/b; x=1"));
    assert_ne!(strict("a/b; x=1; x=1; y=2"), strict("a/b; x=1; y=2; y=2"));
    assert_eq!(strict("a/b; x=1; y=2; X=1"), strict("a/b; x=1; x=1; y=2"));
    assert_eq!(strict("a/b; x=1; y=2; z=3"), strict("a/b; z=3; y=2; x=1"));
    assert_ne!(strict("a/b; x=1; x=2"), strict("a/b; x=1; x=1"));
}

#[test]
fn the_text_plays_no_part() {
    let a = strict("text/plain;a=1");
    let b = strict("text/plain; a=1");
    assert_eq!(a, b);
    assert_ne!(a.as_str_repr(), b.as_str_repr());
}

#[test]
fn obsolete_media_types_compare_too() {
    let a = MediaType::<Obsolete>::parse("image/SVG+xml; a=1;").unwrap();
    let b = MediaType::<Obsolete>::parse("image/svg+XML; A=1").unwrap();
    let c = MediaType::<Obsolete>::parse("image/svg; a=1").unwrap();
    assert_eq!(a, b);
    assert_ne!(a, c);
}
