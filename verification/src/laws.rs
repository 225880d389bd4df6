//! The laws the value model promises beyond the individual contracts:
//! facts that relate the comparator, the converter and the shape
//! predicates to one another.

use vstd::prelude::*;

use crate::model::{
    cmp_seq, lemma_cmp_eq_iff, lemma_cmp_refl, lemma_sorted_pairwise, pairs_sorted, spec_cmp,
    valid_shape, SpecVal,
};
use core::cmp::Ordering;

verus! {

/// The prefix rule of the container order: a sequence that is a strict
/// prefix of another compares below it.
pub proof fn lemma_prefix_less(s: Seq<SpecVal>, t: Seq<SpecVal>)
    requires
        s.len() < t.len(),
        s == t.subrange(0, s.len() as int),
    ensures
        cmp_seq(s, t) == Ordering::Less,
    decreases s.len(),
{
    if s.len() == 0 {
    } else {
        assert(s[0] == t[0]);
        lemma_cmp_refl(s[0]);
        let s1 = s.subrange(1, s.len() as int);
        let t1 = t.subrange(1, t.len() as int);
        assert(s1 =~= t1.subrange(0, s1.len() as int));
        lemma_prefix_less(s1, t1);
    }
}

/// Duplicate-key rejection: a map holding two entries whose keys compare
/// as equal is not a shape the tagged representation can hold, so the
/// inward conversion refuses it.
pub proof fn lemma_duplicate_key_not_valid(s: Seq<(SpecVal, SpecVal)>, i: int, j: int)
    requires
        0 <= i < j < s.len(),
        spec_cmp(s[i].0, s[j].0) == Ordering::Equal,
    ensures
        !valid_shape(SpecVal::MapVal(Option::Some(s))),
{
    if valid_shape(SpecVal::MapVal(Option::Some(s))) {
        assert(pairs_sorted(s));
        lemma_sorted_pairwise(s);
        assert(spec_cmp(s[i].0, s[j].0) == Ordering::Less);
        assert(false);
    }
}

/// Equality-ordering coherence: two values compare as equal exactly when
/// they are the same abstract value, which is external-form equality of
/// their converted forms.
pub proof fn lemma_equal_iff_same(a: SpecVal, b: SpecVal)
    ensures
        (spec_cmp(a, b) == Ordering::Equal) <==> (a == b),
{
    lemma_cmp_eq_iff(a, b);
}

} // verus!
