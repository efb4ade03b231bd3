//! ASCII case folding over bytes.
//!
//! Only the 26 ASCII capital letters fold; every other byte, a byte of a
//! multi-byte UTF-8 character included, stands for itself.

use vstd::prelude::*;

verus! {

/// Whether `b` is an ASCII capital letter.
pub open spec fn is_upper(b: u8) -> bool {
    0x41 <= b <= 0x5a
}

/// `b` with an ASCII capital letter replaced by its small letter.
pub open spec fn fold(b: u8) -> u8 {
    if is_upper(b) {
        (b + 0x20) as u8
    } else {
        b
    }
}

/// Whether `a` holds no ASCII capital letter.
pub open spec fn is_lowercase(a: Seq<u8>) -> bool {
    forall|i: int| 0 <= i < a.len() ==> !is_upper(#[trigger] a[i])
}

/// Whether `a` and `b` are the same text up to the case of ASCII letters.
pub open spec fn eq_ignore_case(a: Seq<u8>, b: Seq<u8>) -> bool {
    &&& a.len() == b.len()
    &&& forall|i: int|
        #![trigger a[i]]
        #![trigger b[i]]
        0 <= i < a.len() ==> fold(a[i]) == fold(b[i])
}

/// Folds one byte.
pub fn to_lower(b: u8) -> (r: u8)
    ensures
        r == fold(b),
{
    if 0x41 <= b && b <= 0x5a {
        b + 0x20
    } else {
        b
    }
}

/// Compares two byte strings exactly.
pub fn bytes_eq(a: &[u8], b: &[u8]) -> (r: bool)
    ensures
        r == (a@ == b@),
{
    if a.len() != b.len() {
        return false;
    }
    let mut i: usize = 0;
    while i < a.len()
        invariant
            i <= a.len(),
            a.len() == b.len(),
            forall|j: int| 0 <= j < i ==> a@[j] == b@[j],
        decreases a.len() - i,
    {
        if a[i] != b[i] {
            return false;
        }
        i += 1;
    }
    assert(a@ =~= b@);
    true
}

/// Compares two byte strings up to the case of ASCII letters.
pub fn bytes_eq_ignore_case(a: &[u8], b: &[u8]) -> (r: bool)
    ensures
        r == eq_ignore_case(a@, b@),
{
    if a.len() != b.len() {
        return false;
    }
    let mut i: usize = 0;
    while i < a.len()
        invariant
            i <= a.len(),
            a.len() == b.len(),
            forall|j: int| 0 <= j < i ==> fold(a@[j]) == fold(b@[j]),
        decreases a.len() - i,
    {
        if to_lower(a[i]) != to_lower(b[i]) {
            return false;
        }
        i += 1;
    }
    true
}

/// Whether a byte string holds no ASCII capital letter.
pub fn bytes_are_lowercase(a: &[u8]) -> (r: bool)
    ensures
        r == is_lowercase(a@),
{
    let mut i: usize = 0;
    while i < a.len()
        invariant
            i <= a.len(),
            forall|j: int| 0 <= j < i ==> !is_upper(a@[j]),
        decreases a.len() - i,
    {
        if 0x41 <= a[i] && a[i] <= 0x5a {
            return false;
        }
        i += 1;
    }
    true
}

/// Folding equality holds of every text and itself.
pub proof fn law_eq_ignore_case_reflexive(a: Seq<u8>)
    ensures
        eq_ignore_case(a, a),
{
}

/// Folding equality does not depend on the order of its operands.
pub proof fn law_eq_ignore_case_symmetric(a: Seq<u8>, b: Seq<u8>)
    ensures
        eq_ignore_case(a, b) == eq_ignore_case(b, a),
{
}

/// Two texts that each equal a third up to case equal each other up to case.
pub proof fn law_eq_ignore_case_transitive(a: Seq<u8>, b: Seq<u8>, c: Seq<u8>)
    requires
        eq_ignore_case(a, b),
        eq_ignore_case(b, c),
    ensures
        eq_ignore_case(a, c),
{
}

/// Texts that are equal byte for byte are equal up to case.
pub proof fn law_exact_implies_eq_ignore_case(a: Seq<u8>, b: Seq<u8>)
    requires
        a == b,
    ensures
        eq_ignore_case(a, b),
{
}

/// On texts without capital letters, folding equality is exact equality.
pub proof fn law_lowercase_eq_is_exact(a: Seq<u8>, b: Seq<u8>)
    requires
        is_lowercase(a),
        is_lowercase(b),
    ensures
        eq_ignore_case(a, b) == (a == b),
{
    if eq_ignore_case(a, b) {
        assert(a =~= b);
    }
}

} // verus!
