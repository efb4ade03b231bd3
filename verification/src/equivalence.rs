//! When two media types are the same.
//!
//! Type, subtype and suffix are compared without regard to the case of ASCII
//! letters. Parameters are compared as a collection without order, in which a
//! parameter may occur more than once: two media types are equal when each
//! parameter occurs in both equally often. The name of a parameter is compared
//! without regard to case. Its value is compared as it stands, case and all,
//! except for the value of `charset`, which is compared without regard to
//! case. A quoted value and an unquoted one are the same value where they hold
//! the same bytes once the escapes are taken out.

use vstd::prelude::*;
use vstd::seq_lib::{to_multiset_contains, to_multiset_len, to_multiset_remove};
use crate::ascii::eq_ignore_case;
use crate::grammar::{MediaTypeModel, ParamModel};

verus! {

/// The name `charset`, in bytes.
pub open spec fn charset() -> Seq<u8> {
    seq![0x63u8, 0x68u8, 0x61u8, 0x72u8, 0x73u8, 0x65u8, 0x74u8]
}

/// Whether the value of the parameter called `name` is compared without
/// regard to case. That is so for `charset` and for no other parameter.
pub open spec fn value_ignores_case(name: Seq<u8>) -> bool {
    eq_ignore_case(name, charset())
}

/// Whether two parameters are the same parameter.
pub open spec fn param_eq(p: ParamModel, q: ParamModel) -> bool {
    &&& eq_ignore_case(p.name, q.name)
    &&& if value_ignores_case(p.name) {
        eq_ignore_case(p.value, q.value)
    } else {
        p.value == q.value
    }
}

/// How many of `params` are the same parameter as `p`.
pub open spec fn count_like(params: Seq<ParamModel>, p: ParamModel) -> nat
    decreases params.len(),
{
    if params.len() == 0 {
        0
    } else {
        count_like(params.drop_last(), p) + if param_eq(params.last(), p) {
            1nat
        } else {
            0nat
        }
    }
}

/// Whether every parameter occurs in `a` as often as in `b`.
pub open spec fn params_eq(a: Seq<ParamModel>, b: Seq<ParamModel>) -> bool {
    forall|p: ParamModel| #[trigger] count_like(a, p) == count_like(b, p)
}

/// Whether both media types have no suffix, or suffixes that are the same up
/// to case.
pub open spec fn suffix_eq(a: Option<Seq<u8>>, b: Option<Seq<u8>>) -> bool {
    match (a, b) {
        (Some(x), Some(y)) => eq_ignore_case(x, y),
        (None, None) => true,
        _ => false,
    }
}

/// Whether two media types are the same media type. The texts they were read
/// from play no part.
pub open spec fn media_type_eq(a: MediaTypeModel, b: MediaTypeModel) -> bool {
    &&& eq_ignore_case(a.type_, b.type_)
    &&& eq_ignore_case(a.subtype, b.subtype)
    &&& suffix_eq(a.suffix, b.suffix)
    &&& params_eq(a.params, b.params)
}

/// Being the same parameter is reflexive, symmetric and transitive.
pub proof fn lemma_param_eq_is_equivalence(p: ParamModel, q: ParamModel, r: ParamModel)
    ensures
        param_eq(p, p),
        param_eq(p, q) == param_eq(q, p),
        param_eq(p, q) && param_eq(q, r) ==> param_eq(p, r),
{
}

/// Parameters that are the same parameter are counted alike.
pub proof fn lemma_count_like_same(params: Seq<ParamModel>, p: ParamModel, q: ParamModel)
    requires
        param_eq(p, q),
    ensures
        count_like(params, p) == count_like(params, q),
    decreases params.len(),
{
    if params.len() > 0 {
        lemma_count_like_same(params.drop_last(), p, q);
        lemma_param_eq_is_equivalence(params.last(), p, q);
        lemma_param_eq_is_equivalence(params.last(), q, p);
        lemma_param_eq_is_equivalence(p, q, p);
    }
}

/// A parameter that is counted at all is the same as one in the list.
pub proof fn lemma_count_like_witness(params: Seq<ParamModel>, p: ParamModel)
    ensures
        count_like(params, p) == 0 || exists|i: int|
            0 <= i < params.len() && param_eq(#[trigger] params[i], p),
    decreases params.len(),
{
    if params.len() > 0 {
        lemma_count_like_witness(params.drop_last(), p);
        if count_like(params.drop_last(), p) != 0 {
            let i = choose|i: int|
                0 <= i < params.drop_last().len() && param_eq(#[trigger] params.drop_last()[i], p);
            assert(param_eq(params[i], p));
        } else if count_like(params, p) != 0 {
            assert(param_eq(params[params.len() - 1], p));
        }
    }
}

/// To compare two lists of parameters it is enough to count the parameters
/// that occur in one of them.
pub proof fn lemma_params_eq_by_members(a: Seq<ParamModel>, b: Seq<ParamModel>)
    requires
        forall|i: int| 0 <= i < a.len() ==> count_like(a, #[trigger] a[i]) == count_like(b, a[i]),
        forall|i: int| 0 <= i < b.len() ==> count_like(a, #[trigger] b[i]) == count_like(b, b[i]),
    ensures
        params_eq(a, b),
{
    assert forall|p: ParamModel| #[trigger] count_like(a, p) == count_like(b, p) by {
        lemma_count_like_witness(a, p);
        lemma_count_like_witness(b, p);
        if exists|i: int| 0 <= i < a.len() && param_eq(#[trigger] a[i], p) {
            let i = choose|i: int| 0 <= i < a.len() && param_eq(#[trigger] a[i], p);
            lemma_count_like_same(a, a[i], p);
            lemma_count_like_same(b, a[i], p);
        } else if exists|i: int| 0 <= i < b.len() && param_eq(#[trigger] b[i], p) {
            let i = choose|i: int| 0 <= i < b.len() && param_eq(#[trigger] b[i], p);
            lemma_count_like_same(a, b[i], p);
            lemma_count_like_same(b, b[i], p);
        }
    }
}

/// Every media type equals itself.
pub proof fn law_media_type_eq_reflexive(a: MediaTypeModel)
    ensures
        media_type_eq(a, a),
{
}

/// Equality of media types does not depend on the order of its operands.
pub proof fn law_media_type_eq_symmetric(a: MediaTypeModel, b: MediaTypeModel)
    ensures
        media_type_eq(a, b) == media_type_eq(b, a),
{
}

/// Two media types that each equal a third equal each other.
pub proof fn law_media_type_eq_transitive(a: MediaTypeModel, b: MediaTypeModel, c: MediaTypeModel)
    requires
        media_type_eq(a, b),
        media_type_eq(b, c),
    ensures
        media_type_eq(a, c),
{
}

/// Taking one parameter out of a list takes one off the count of the
/// parameters that are the same as it, and leaves every other count.
pub proof fn lemma_count_like_remove(params: Seq<ParamModel>, i: int, p: ParamModel)
    requires
        0 <= i < params.len(),
    ensures
        count_like(params, p) == count_like(params.remove(i), p) + if param_eq(params[i], p) {
            1nat
        } else {
            0nat
        },
    decreases params.len(),
{
    if i < params.len() - 1 {
        lemma_count_like_remove(params.drop_last(), i, p);
        assert(params.drop_last().remove(i) =~= params.remove(i).drop_last());
    }
}

/// Lists that hold the same parameters equally often, in whatever order,
/// count every parameter alike.
pub proof fn lemma_count_like_reordered(a: Seq<ParamModel>, b: Seq<ParamModel>, p: ParamModel)
    requires
        a.to_multiset() == b.to_multiset(),
    ensures
        count_like(a, p) == count_like(b, p),
    decreases a.len(),
{
    to_multiset_len(a);
    to_multiset_len(b);
    if a.len() > 0 {
        let last = a.last();
        to_multiset_contains(a, last);
        to_multiset_contains(b, last);
        let i = choose|i: int| 0 <= i < b.len() && b[i] == last;
        to_multiset_remove(a, a.len() - 1);
        to_multiset_remove(b, i);
        lemma_count_like_reordered(a.drop_last(), b.remove(i), p);
        lemma_count_like_remove(b, i, p);
    }
}

/// The order of the parameters plays no part in equality: media types that
/// differ in nothing but the order of their parameters are equal.
pub proof fn law_param_order_is_irrelevant(a: MediaTypeModel, b: MediaTypeModel)
    requires
        a.type_ == b.type_,
        a.subtype == b.subtype,
        a.suffix == b.suffix,
        a.params.to_multiset() == b.params.to_multiset(),
    ensures
        media_type_eq(a, b),
{
    assert forall|p: ParamModel| #[trigger] count_like(a.params, p) == count_like(b.params, p) by {
        lemma_count_like_reordered(a.params, b.params, p);
    }
}

/// The case of the letters of type, subtype, suffix and parameter names
/// plays no part in equality, nor does the case of the value of `charset`.
pub proof fn law_case_is_irrelevant(a: MediaTypeModel, b: MediaTypeModel)
    requires
        eq_ignore_case(a.type_, b.type_),
        eq_ignore_case(a.subtype, b.subtype),
        suffix_eq(a.suffix, b.suffix),
        a.params.len() == b.params.len(),
        forall|i: int| 0 <= i < a.params.len() ==> param_eq(#[trigger] a.params[i], b.params[i]),
    ensures
        media_type_eq(a, b),
{
    assert forall|p: ParamModel| #[trigger] count_like(a.params, p) == count_like(b.params, p) by {
        lemma_count_like_pointwise(a.params, b.params, p);
    }
}

/// Lists that hold, place by place, the same parameters count every
/// parameter alike.
pub proof fn lemma_count_like_pointwise(a: Seq<ParamModel>, b: Seq<ParamModel>, p: ParamModel)
    requires
        a.len() == b.len(),
        forall|i: int| 0 <= i < a.len() ==> param_eq(#[trigger] a[i], b[i]),
    ensures
        count_like(a, p) == count_like(b, p),
    decreases a.len(),
{
    if a.len() > 0 {
        lemma_count_like_pointwise(a.drop_last(), b.drop_last(), p);
        lemma_param_eq_is_equivalence(a.last(), b.last(), p);
        lemma_param_eq_is_equivalence(b.last(), a.last(), p);
        lemma_param_eq_is_equivalence(a.last(), b.last(), a.last());
    }
}

} // verus!
