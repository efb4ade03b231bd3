//! The name of one component of a media type.

use vstd::prelude::*;
use vstd::std_specs::cmp::PartialEqSpec;
use vstd::string::StringSliceAdditionalSpecFns;
use crate::ascii::{bytes_are_lowercase, bytes_eq_ignore_case, eq_ignore_case, is_lowercase};

verus! {

/// A type, subtype, suffix, parameter name or parameter value: a borrowed
/// piece of text that keeps the case it was written in.
///
/// Every comparison for equality ignores the case of ASCII letters: `==`
/// between two names, a name against a string (`name == "text"`) and a
/// string against a name (`"text" == name`). They all say the same of the
/// same two texts, see [`law_comparisons_agree`].
///
/// The ordering and the hash of names are derived: they go by the stored
/// bytes as they are, and so tell apart names that `==` holds equal. On
/// lowercase names they agree with `==`, see [`law_lowercase_names`]. A name
/// that is to be a key of an ordered or hashed collection should therefore be
/// lowercase.
///
/// There are two ways to make a name. [`Name::new`] is for text of any case,
/// such as a piece that a parser cut out of its input.
/// [`Name::new_unchecked`] is for text that the caller knows to be lowercase,
/// such as the well-known names of [`crate::names`]; it checks nothing.
#[derive(Clone, Copy, Eq, PartialOrd, Ord, Hash, Debug)]
pub struct Name<'a> {
    source: &'a str,
}

impl<'a> View for Name<'a> {
    type V = Seq<u8>;

    /// The UTF-8 bytes of the name, in the case they were written in.
    open spec fn view(&self) -> Seq<u8> {
        self.text().spec_bytes()
    }
}

impl<'a> Name<'a> {
    /// The text that the name holds.
    pub closed spec fn text(&self) -> &'a str {
        self.source
    }

    /// The name that holds `source`, which may be of any case. The text is
    /// kept as it is; the case of its letters is ignored when the name is
    /// compared.
    pub fn new(source: &'a str) -> (name: Name<'a>)
        ensures
            name.text() == source,
    {
        Name { source }
    }

    /// The name that holds `source`, for text that is lowercase. The text is
    /// kept as it is and nothing is checked: it is for the caller to pass
    /// lowercase text only, and then the name is lowercase too, so that its
    /// ordering and its hash agree with `==`. For any other text there is
    /// [`Name::new`].
    pub fn new_unchecked(source: &'a str) -> (name: Name<'a>)
        ensures
            name.text() == source,
            is_lowercase(source.spec_bytes()) ==> is_lowercase(name@),
    {
        Name { source }
    }

    /// The text of the name, unchanged. The borrow is that of the text the
    /// name was built from, so the string may outlive the name.
    pub fn as_str(&self) -> (s: &'a str)
        ensures
            s == self.text(),
    {
        self.source
    }

    /// Whether the name holds no ASCII capital letter, that is, whether its
    /// ordering and its hash agree with `==`.
    pub fn is_lowercase(&self) -> (r: bool)
        ensures
            r == is_lowercase(self@),
    {
        bytes_are_lowercase(self.source.as_bytes())
    }

}

impl<'a> PartialEq for Name<'a> {
    /// Whether two names are the same up to the case of ASCII letters.
    fn eq(&self, other: &Name<'a>) -> (r: bool) {
        bytes_eq_ignore_case(self.source.as_bytes(), other.source.as_bytes())
    }
}

impl<'a> vstd::std_specs::cmp::PartialEqSpecImpl for Name<'a> {
    open spec fn obeys_eq_spec() -> bool {
        true
    }

    open spec fn eq_spec(&self, other: &Name<'a>) -> bool {
        eq_ignore_case(self@, other@)
    }
}

impl<'a> PartialEq<str> for Name<'a> {
    fn eq(&self, other: &str) -> (r: bool) {
        bytes_eq_ignore_case(self.source.as_bytes(), other.as_bytes())
    }
}

impl<'a> vstd::std_specs::cmp::PartialEqSpecImpl<str> for Name<'a> {
    open spec fn obeys_eq_spec() -> bool {
        true
    }

    open spec fn eq_spec(&self, other: &str) -> bool {
        eq_ignore_case(self@, other.spec_bytes())
    }
}

impl<'a, 'b> PartialEq<&'b str> for Name<'a> {
    fn eq(&self, other: &&'b str) -> (r: bool) {
        bytes_eq_ignore_case(self.source.as_bytes(), (*other).as_bytes())
    }
}

impl<'a, 'b> vstd::std_specs::cmp::PartialEqSpecImpl<&'b str> for Name<'a> {
    open spec fn obeys_eq_spec() -> bool {
        true
    }

    open spec fn eq_spec(&self, other: &&'b str) -> bool {
        eq_ignore_case(self@, other.spec_bytes())
    }
}

impl<'a> PartialEq<Name<'a>> for str {
    fn eq(&self, other: &Name<'a>) -> (r: bool) {
        bytes_eq_ignore_case(self.as_bytes(), other.source.as_bytes())
    }
}

impl<'a> vstd::std_specs::cmp::PartialEqSpecImpl<Name<'a>> for str {
    open spec fn obeys_eq_spec() -> bool {
        true
    }

    open spec fn eq_spec(&self, other: &Name<'a>) -> bool {
        eq_ignore_case(self.spec_bytes(), other@)
    }
}

impl<'a, 'b> PartialEq<Name<'a>> for &'b str {
    fn eq(&self, other: &Name<'a>) -> (r: bool) {
        bytes_eq_ignore_case((*self).as_bytes(), other.source.as_bytes())
    }
}

impl<'a, 'b> vstd::std_specs::cmp::PartialEqSpecImpl<Name<'a>> for &'b str {
    open spec fn obeys_eq_spec() -> bool {
        true
    }

    open spec fn eq_spec(&self, other: &Name<'a>) -> bool {
        eq_ignore_case(self.spec_bytes(), other@)
    }
}

impl<'a> core::ops::Deref for Name<'a> {
    type Target = str;

    fn deref(&self) -> (s: &str)
        ensures
            s == self.text(),
    {
        self.source
    }
}

impl<'a> AsRef<str> for Name<'a> {
    fn as_ref(&self) -> (s: &str)
        ensures
            s == self.text(),
    {
        self.source
    }
}

impl<'a> From<Name<'a>> for &'a str {
    fn from(name: Name<'a>) -> (s: &'a str) {
        name.source
    }
}

impl<'a> vstd::std_specs::convert::FromSpecImpl<Name<'a>> for &'a str {
    open spec fn obeys_from_spec() -> bool {
        true
    }

    open spec fn from_spec(name: Name<'a>) -> &'a str {
        name.text()
    }
}

/// All comparisons agree: `==` between two names, a name against a string
/// and a string against a name, in either order, say of the same two texts
/// whether they are the same up to the case of ASCII letters.
pub proof fn law_comparisons_agree(a: Name<'_>, b: Name<'_>, text: &str)
    requires
        text.spec_bytes() == b@,
    ensures
        a.eq_spec(&b) == eq_ignore_case(a@, b@),
        b.eq_spec(&a) == a.eq_spec(&b),
        a.eq_spec(text) == a.eq_spec(&b),
        a.eq_spec(&text) == a.eq_spec(&b),
        text.eq_spec(&a) == a.eq_spec(&b),
        (&text).eq_spec(&a) == a.eq_spec(&b),
{
}

/// `==` between names is reflexive, symmetric and transitive.
pub proof fn law_name_eq_is_equivalence(a: Name<'_>, b: Name<'_>, c: Name<'_>)
    ensures
        a.eq_spec(&a),
        a.eq_spec(&b) == b.eq_spec(&a),
        a.eq_spec(&b) && b.eq_spec(&c) ==> a.eq_spec(&c),
{
}

/// Names that are two ways of writing one text, differing in the case of
/// their letters only, are equal under every comparison.
pub proof fn law_casings_are_equal(a: Name<'_>, b: Name<'_>, base: Seq<u8>)
    requires
        eq_ignore_case(a@, base),
        eq_ignore_case(b@, base),
    ensures
        a.eq_spec(&b),
        b.eq_spec(&a),
        forall|text: &str| text.spec_bytes() == b@ ==> a.eq_spec(text) && text.eq_spec(&a),
{
}

/// On lowercase names `==` is equality of the stored bytes, by which the
/// ordering and the hash go.
pub proof fn law_lowercase_names(a: Name<'_>, b: Name<'_>)
    requires
        is_lowercase(a@),
        is_lowercase(b@),
    ensures
        a.eq_spec(&b) == (a@ == b@),
{
    crate::ascii::law_lowercase_eq_is_exact(a@, b@);
}

/// Names that hold the same bytes are equal, whatever their case.
pub proof fn law_same_bytes_are_equal(a: Name<'_>, b: Name<'_>)
    requires
        a@ == b@,
    ensures
        a.eq_spec(&b),
{
}

} // verus!
