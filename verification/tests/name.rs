use media_type::ascii::{bytes_are_lowercase, bytes_eq, bytes_eq_ignore_case, to_lower};
use media_type::Name;

#[test]
fn test_name_eq_str() {
    let param = Name::new_unchecked("abc");

    assert_eq!(param, param);
    assert_eq!(param, "ABC");
    assert_eq!("ABC", param);
    assert_eq!(param, "abc");
    assert_eq!("abc", param);
}

#[test]
fn test_name_eq_name() {
    let n1 = Name::new_unchecked("abc");
    let n2 = Name::new_unchecked("abc");
    assert_eq!(n1, n2);

    let n3 = Name::new_unchecked("aBc");
    assert_eq!(n1, n3);

    assert_eq!(n1, n3.as_str());
    assert_eq!(n3, n1.as_str());
}

#[test]
fn as_str_keeps_the_case() {
    let name = Name::new("Charset");
    assert_eq!(name.as_str(), "Charset");
    assert!(name.as_str() != "charset");
}

#[test]
fn as_str_outlives_the_name() {
    let text = String::from("boundary");
    let borrowed: &str = {
        let name = Name::new(&text);
        name.as_str()
    };
    assert_eq!(borrowed, "boundary");
}

#[test]
fn name_differs_from_other_text() {
    let name = Name::new_unchecked("abc");
    assert!(name != "abd");
    assert!(name != "ab");
    assert!(name != "abcd");
    assert!("abd" != name);
    assert!(name != "");
}

#[test]
fn empty_name_equals_empty_text() {
    let name = Name::new_unchecked("");
    assert_eq!(name, "");
    assert_eq!("", name);
    assert!(name.is_lowercase());
}

#[test]
fn unsized_str_compares_both_ways() {
    let name = Name::new("Text");
    let text: &str = "tEXT";
    assert!(name == *text);
    assert!(*text == name);
}

#[test]
fn every_casing_compares_equal() {
    let casings = ["abc", "abC", "aBc", "aBC", "Abc", "AbC", "ABc", "ABC"];
    for a in casings {
        for b in casings {
            let x = Name::new(a);
            let y = Name::new(b);
            assert!(x == y);
            assert!(y == x);
            assert!(!(x != y));
            assert!(x == b);
            assert!(b == x);
            assert!(a == y);
            assert!(x == *b);
            assert!(*b == x);
            assert_eq!(x == y, x == y.as_str());
            assert_eq!(x == y, x.as_str().eq_ignore_ascii_case(y.as_str()));
        }
    }
}

#[test]
fn all_comparisons_agree_on_every_pair() {
    let texts = ["abc", "aBc", "ABC", "abd", "ab", "abcd", "", "\u{e9}", "\u{c9}", "a-b", "A-B", "a_b"];
    for a in texts {
        for b in texts {
            let x = Name::new(a);
            let y = Name::new(b);
            let expected = a.eq_ignore_ascii_case(b);
            assert_eq!(x == y, expected);
            assert_eq!(y == x, expected);
            assert_eq!(x == b, expected);
            assert_eq!(b == x, expected);
            assert_eq!(x == *b, expected);
            assert_eq!(*b == x, expected);
            assert_eq!(x != y, !expected);
        }
    }
}

#[test]
fn equality_of_names_is_transitive() {
    let texts = ["abc", "aBc", "ABC", "abd", "ABD", ""];
    for a in texts {
        for b in texts {
            for c in texts {
                let (x, y, z) = (Name::new(a), Name::new(b), Name::new(c));
                if x == y && y == z {
                    assert!(x == z);
                }
            }
        }
    }
}

#[test]
fn both_constructors_keep_the_text() {
    assert_eq!(Name::new("Text").as_str(), "Text");
    assert_eq!(Name::new("").as_str(), "");
    assert_eq!(Name::new_unchecked("text").as_str(), "text");
    assert_eq!(Name::new("text"), Name::new_unchecked("text"));
    assert_eq!(Name::new("TEXT"), Name::new_unchecked("text"));
    assert!(!Name::new("TEXT").is_lowercase());
    assert!(Name::new_unchecked("text").is_lowercase());
}

#[test]
fn lowercase_names_are_equal_where_their_bytes_are() {
    let names = ["text", "plain", "tex", "text"];
    for a in names {
        for b in names {
            let x = Name::new_unchecked(a);
            let y = Name::new_unchecked(b);
            assert!(x.is_lowercase() && y.is_lowercase());
            assert_eq!(x == y, a.as_bytes() == b.as_bytes());
            assert_eq!(x == y, x.cmp(&y) == std::cmp::Ordering::Equal);
        }
    }
}

#[test]
fn is_lowercase_looks_at_ascii_letters_only() {
    assert!(Name::new_unchecked("svg+xml").is_lowercase());
    assert!(Name::new_unchecked("utf-8").is_lowercase());
    assert!(!Name::new("UTF-8").is_lowercase());
    assert!(!Name::new("utF-8").is_lowercase());
    assert!(Name::new("É").is_lowercase());
}

#[test]
fn only_ascii_letters_fold() {
    let name = Name::new("é");
    assert!(name != "É");
    assert_eq!(name, "é");
    assert!(Name::new_unchecked("[") != "{");
    assert!(Name::new_unchecked("@") != "`");
}

#[test]
fn name_derefs_to_its_text() {
    let name = Name::new("Latin1");
    assert_eq!(name.len(), 6);
    assert!(name.eq_ignore_ascii_case("latin1"));
    assert!(name.starts_with("Lat"));
    let text: &str = &name;
    assert_eq!(text, "Latin1");
}

#[test]
fn name_converts_to_its_text() {
    let name = Name::new("Latin1");
    let by_ref: &str = name.as_ref();
    assert_eq!(by_ref, "Latin1");
    let by_from: &str = name.into();
    assert_eq!(by_from, "Latin1");
    assert_eq!(<&str>::from(name), "Latin1");
}

#[test]
fn names_order_and_copy_by_their_text() {
    let a = Name::new_unchecked("audio");
    let b = Name::new_unchecked("text");
    let c = a;
    assert!(a < b);
    assert_eq!(a, c);
    assert_eq!(format!("{:?}", a.as_str()), "\"audio\"");
    assert!(format!("{:?}", Name::new("aBc")).contains("aBc"));
}

#[test]
fn to_lower_folds_capitals_and_nothing_else() {
    assert_eq!(to_lower(b'A'), b'a');
    assert_eq!(to_lower(b'Z'), b'z');
    assert_eq!(to_lower(b'M'), b'm');
    assert_eq!(to_lower(b'a'), b'a');
    assert_eq!(to_lower(b'z'), b'z');
    assert_eq!(to_lower(b'@'), b'@');
    assert_eq!(to_lower(b'['), b'[');
    assert_eq!(to_lower(b'0'), b'0');
    assert_eq!(to_lower(0xc9), 0xc9);
    assert_eq!(to_lower(0x00), 0x00);
    assert_eq!(to_lower(0xff), 0xff);
}

#[test]
fn byte_comparisons() {
    assert!(bytes_eq(b"abc", b"abc"));
    assert!(!bytes_eq(b"abc", b"abC"));
    assert!(!bytes_eq(b"abc", b"ab"));
    assert!(bytes_eq(b"", b""));
    assert!(bytes_eq_ignore_case(b"abc", b"ABC"));
    assert!(bytes_eq_ignore_case(b"", b""));
    assert!(!bytes_eq_ignore_case(b"abc", b"abd"));
    assert!(!bytes_eq_ignore_case(b"abc", b"abcd"));
    assert!(!bytes_eq_ignore_case(&[0xc3, 0xa9], &[0xc3, 0x89]));
    assert!(bytes_are_lowercase(b"utf-8"));
    assert!(!bytes_are_lowercase(b"utf-8Z"));
    assert!(bytes_are_lowercase(b""));
}
