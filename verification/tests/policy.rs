use media_type::{Obsolete, Policy, Strict};

#[test]
fn strict_token_characters() {
    let allowed = "!#$%&'*+-.^_`|~0123456789ABCDEFGHIJKLMNOPQRSTUVWXYZabcdefghijklmnopqrstuvwxyz";
    for b in 0..=255u8 {
        assert_eq!(Strict::is_token_char(b), allowed.as_bytes().contains(&b), "byte {}", b);
    }
}

#[test]
fn obsolete_token_characters() {
    let special = "()<>@,;:\\\"/[]?=";
    for b in 0..=255u8 {
        let expected = 0x21 <= b && b <= 0x7e && !special.as_bytes().contains(&b);
        assert_eq!(Obsolete::is_token_char(b), expected, "byte {}", b);
    }
}

#[test]
fn policies_differ_on_two_characters() {
    let mut differ = Vec::new();
    for b in 0..=255u8 {
        if Strict::is_token_char(b) != Obsolete::is_token_char(b) {
            differ.push(b);
        }
    }
    assert_eq!(differ, vec![b'{', b'}']);
}

#[test]
fn policy_switches() {
    assert!(!Strict::allows_obsolete_syntax());
    assert!(Obsolete::allows_obsolete_syntax());
    assert!(Strict::allows_suffix());
    assert!(!Obsolete::allows_suffix());
}
