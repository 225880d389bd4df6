//! The external self-describing value: every kind fully inlined, no
//! handles, so that a value can travel between environments.  Its order is
//! the same total order as the tagged comparator's, proved against the one
//! shared specification.

use vstd::prelude::*;

use crate::model::{
    lemma_cmp_eq_iff, lemma_cmp_pairs_skip, lemma_cmp_seq_skip, lemma_i256_cmp, lemma_u256_cmp,
    rank, spec_cmp, SpecVal,
};
use crate::compare::cmp_u8vec;
use crate::val::ConversionError;
use core::cmp::Ordering;

verus! {

/// Limbs of an unsigned 256-bit external value, most significant first.
#[derive(Clone, Copy, Debug, PartialEq, Eq, PartialOrd, Ord)]
pub struct UInt256Parts {
    pub hi_hi: u64,
    pub hi_lo: u64,
    pub lo_hi: u64,
    pub lo_lo: u64,
}

/// Limbs of a signed 256-bit external value, most significant first; the
/// top limb carries the sign.
#[derive(Clone, Copy, Debug, PartialEq, Eq, PartialOrd, Ord)]
pub struct Int256Parts {
    pub hi_hi: i64,
    pub hi_lo: u64,
    pub lo_hi: u64,
    pub lo_lo: u64,
}

/// An external value.  The container kinds distinguish an absent
/// container (`None`) from an empty one; absent containers and several
/// other shapes have no tagged counterpart and are rejected on the way in.
#[derive(Debug, PartialEq, Eq, Ord)]
pub enum ScVal {
    Void,
    Bool(bool),
    Error(u32),
    U32(u32),
    I32(i32),
    U64(u64),
    I64(i64),
    Timepoint(u64),
    Duration(u64),
    U128(u128),
    I128(i128),
    U256(UInt256Parts),
    I256(Int256Parts),
    Bytes(Vec<u8>),
    String(Vec<u8>),
    Symbol(Vec<u8>),
    Vec(Option<Vec<ScVal>>),
    MapVal(Option<Vec<(ScVal, ScVal)>>),
    Address(Vec<u8>),
}

/// The abstract value an external value denotes.
pub open spec fn sv_view(v: ScVal) -> SpecVal
    decreases v,
{
    match v {
        ScVal::Void => SpecVal::Void,
        ScVal::Bool(x) => SpecVal::Bool(x),
        ScVal::Error(x) => SpecVal::Error(x),
        ScVal::U32(x) => SpecVal::U32(x),
        ScVal::I32(x) => SpecVal::I32(x),
        ScVal::U64(x) => SpecVal::U64(x),
        ScVal::I64(x) => SpecVal::I64(x),
        ScVal::Timepoint(x) => SpecVal::Timepoint(x),
        ScVal::Duration(x) => SpecVal::Duration(x),
        ScVal::U128(x) => SpecVal::U128(x),
        ScVal::I128(x) => SpecVal::I128(x),
        ScVal::U256(p) => SpecVal::U256(p.hi_hi, p.hi_lo, p.lo_hi, p.lo_lo),
        ScVal::I256(p) => SpecVal::I256(p.hi_hi, p.hi_lo, p.lo_hi, p.lo_lo),
        ScVal::Bytes(b) => SpecVal::Bytes(b@),
        ScVal::String(b) => SpecVal::String(b@),
        ScVal::Symbol(b) => SpecVal::Symbol(b@),
        ScVal::Vec(o) => match o {
            Option::None => SpecVal::Vec(Option::None),
            Option::Some(vs) => SpecVal::Vec(Option::Some(svs_view(vs@))),
        },
        ScVal::MapVal(o) => match o {
            Option::None => SpecVal::MapVal(Option::None),
            Option::Some(ps) => SpecVal::MapVal(Option::Some(spairs_view(ps@))),
        },
        ScVal::Address(b) => SpecVal::Address(b@),
    }
}

/// The abstract values of a sequence of external values.
pub open spec fn svs_view(s: Seq<ScVal>) -> Seq<SpecVal>
    decreases s,
{
    if s.len() == 0 {
        Seq::empty()
    } else {
        seq![sv_view(s[0])] + svs_view(s.subrange(1, s.len() as int))
    }
}

/// The abstract values of a sequence of external key-value pairs.
pub open spec fn spairs_view(s: Seq<(ScVal, ScVal)>) -> Seq<(SpecVal, SpecVal)>
    decreases s,
{
    if s.len() == 0 {
        Seq::empty()
    } else {
        seq![(sv_view(s[0].0), sv_view(s[0].1))] + spairs_view(s.subrange(1, s.len() as int))
    }
}

impl View for ScVal {
    type V = SpecVal;

    open spec fn view(&self) -> SpecVal {
        sv_view(*self)
    }
}

/// The view of a sequence of external values is the elementwise view.
pub proof fn lemma_svs_view_index(s: Seq<ScVal>)
    ensures
        svs_view(s).len() == s.len(),
        forall|j: int| 0 <= j < s.len() ==> svs_view(s)[j] == sv_view(#[trigger] s[j]),
    decreases s.len(),
{
    if s.len() > 0 {
        let t = s.subrange(1, s.len() as int);
        lemma_svs_view_index(t);
        assert forall|j: int| 0 <= j < s.len() implies svs_view(s)[j] == sv_view(
            #[trigger] s[j],
        ) by {
            if j > 0 {
                assert(svs_view(s)[j] == svs_view(t)[j - 1]);
                assert(s[j] == t[j - 1]);
            }
        }
    }
}

/// The view of a sequence of external pairs is the componentwise view.
pub proof fn lemma_spairs_view_index(s: Seq<(ScVal, ScVal)>)
    ensures
        spairs_view(s).len() == s.len(),
        forall|j: int| 0 <= j < s.len() ==> (#[trigger] spairs_view(s)[j]).0 == sv_view(s[j].0)
            && spairs_view(s)[j].1 == sv_view(s[j].1),
    decreases s.len(),
{
    if s.len() > 0 {
        let t = s.subrange(1, s.len() as int);
        lemma_spairs_view_index(t);
        assert forall|j: int| 0 <= j < s.len() implies (#[trigger] spairs_view(s)[j]).0 == sv_view(
            s[j].0,
        ) && spairs_view(s)[j].1 == sv_view(s[j].1) by {
            if j > 0 {
                assert(spairs_view(s)[j] == spairs_view(t)[j - 1]);
                assert(s[j] == t[j - 1]);
            }
        }
    }
}

/// The rank of an external value's kind.
fn sc_rank(v: &ScVal) -> (r: u8)
    ensures
        r as int == rank(v@),
{
    match v {
        ScVal::Void => 0,
        ScVal::Bool(..) => 1,
        ScVal::Error(..) => 2,
        ScVal::U32(..) => 3,
        ScVal::I32(..) => 4,
        ScVal::U64(..) => 5,
        ScVal::I64(..) => 6,
        ScVal::Timepoint(..) => 7,
        ScVal::Duration(..) => 8,
        ScVal::U128(..) => 9,
        ScVal::I128(..) => 10,
        ScVal::U256(..) => 11,
        ScVal::I256(..) => 12,
        ScVal::Bytes(..) => 13,
        ScVal::String(..) => 14,
        ScVal::Symbol(..) => 15,
        ScVal::Vec(..) => 16,
        ScVal::MapVal(..) => 17,
        ScVal::Address(..) => 18,
    }
}

/// Compares two external values: the same total order as the tagged
/// comparator's, on the same shared specification.
#[verifier::loop_isolation(false)]
#[verifier::rlimit(100)]
pub fn sc_cmp(a: &ScVal, b: &ScVal) -> (r: Ordering)
    ensures
        r == spec_cmp(a@, b@),
    decreases *a,
{
    let ra = sc_rank(a);
    let rb = sc_rank(b);
    if ra != rb {
        return if ra < rb {
            Ordering::Less
        } else {
            Ordering::Greater
        };
    }
    match (a, b) {
        (ScVal::Void, ScVal::Void) => Ordering::Equal,
        (ScVal::Bool(x), ScVal::Bool(y)) => if *x == *y {
            Ordering::Equal
        } else if !*x {
            Ordering::Less
        } else {
            Ordering::Greater
        },
        (ScVal::Error(x), ScVal::Error(y)) => if *x < *y {
            Ordering::Less
        } else if *x == *y {
            Ordering::Equal
        } else {
            Ordering::Greater
        },
        (ScVal::U32(x), ScVal::U32(y)) => if *x < *y {
            Ordering::Less
        } else if *x == *y {
            Ordering::Equal
        } else {
            Ordering::Greater
        },
        (ScVal::I32(x), ScVal::I32(y)) => if *x < *y {
            Ordering::Less
        } else if *x == *y {
            Ordering::Equal
        } else {
            Ordering::Greater
        },
        (ScVal::U64(x), ScVal::U64(y)) => if *x < *y {
            Ordering::Less
        } else if *x == *y {
            Ordering::Equal
        } else {
            Ordering::Greater
        },
        (ScVal::I64(x), ScVal::I64(y)) => if *x < *y {
            Ordering::Less
        } else if *x == *y {
            Ordering::Equal
        } else {
            Ordering::Greater
        },
        (ScVal::Timepoint(x), ScVal::Timepoint(y)) => if *x < *y {
            Ordering::Less
        } else if *x == *y {
            Ordering::Equal
        } else {
            Ordering::Greater
        },
        (ScVal::Duration(x), ScVal::Duration(y)) => if *x < *y {
            Ordering::Less
        } else if *x == *y {
            Ordering::Equal
        } else {
            Ordering::Greater
        },
        (ScVal::U128(x), ScVal::U128(y)) => if *x < *y {
            Ordering::Less
        } else if *x == *y {
            Ordering::Equal
        } else {
            Ordering::Greater
        },
        (ScVal::I128(x), ScVal::I128(y)) => if *x < *y {
            Ordering::Less
        } else if *x == *y {
            Ordering::Equal
        } else {
            Ordering::Greater
        },
        (ScVal::U256(p), ScVal::U256(q)) => {
            proof {
                lemma_u256_cmp(
                    p.hi_hi,
                    p.hi_lo,
                    p.lo_hi,
                    p.lo_lo,
                    q.hi_hi,
                    q.hi_lo,
                    q.lo_hi,
                    q.lo_lo,
                );
            }
            if p.hi_hi != q.hi_hi {
                if p.hi_hi < q.hi_hi {
                    Ordering::Less
                } else {
                    Ordering::Greater
                }
            } else if p.hi_lo != q.hi_lo {
                if p.hi_lo < q.hi_lo {
                    Ordering::Less
                } else {
                    Ordering::Greater
                }
            } else if p.lo_hi != q.lo_hi {
                if p.lo_hi < q.lo_hi {
                    Ordering::Less
                } else {
                    Ordering::Greater
                }
            } else if p.lo_lo != q.lo_lo {
                if p.lo_lo < q.lo_lo {
                    Ordering::Less
                } else {
                    Ordering::Greater
                }
            } else {
                Ordering::Equal
            }
        },
        (ScVal::I256(p), ScVal::I256(q)) => {
            proof {
                lemma_i256_cmp(
                    p.hi_hi,
                    p.hi_lo,
                    p.lo_hi,
                    p.lo_lo,
                    q.hi_hi,
                    q.hi_lo,
                    q.lo_hi,
                    q.lo_lo,
                );
            }
            if p.hi_hi != q.hi_hi {
                if p.hi_hi < q.hi_hi {
                    Ordering::Less
                } else {
                    Ordering::Greater
                }
            } else if p.hi_lo != q.hi_lo {
                if p.hi_lo < q.hi_lo {
                    Ordering::Less
                } else {
                    Ordering::Greater
                }
            } else if p.lo_hi != q.lo_hi {
                if p.lo_hi < q.lo_hi {
                    Ordering::Less
                } else {
                    Ordering::Greater
                }
            } else if p.lo_lo != q.lo_lo {
                if p.lo_lo < q.lo_lo {
                    Ordering::Less
                } else {
                    Ordering::Greater
                }
            } else {
                Ordering::Equal
            }
        },
        (ScVal::Bytes(x), ScVal::Bytes(y)) => cmp_u8vec(x, y),
        (ScVal::String(x), ScVal::String(y)) => cmp_u8vec(x, y),
        (ScVal::Symbol(x), ScVal::Symbol(y)) => cmp_u8vec(x, y),
        (ScVal::Address(x), ScVal::Address(y)) => cmp_u8vec(x, y),
        (ScVal::Vec(oa), ScVal::Vec(ob)) => match (oa, ob) {
            (Option::None, Option::None) => Ordering::Equal,
            (Option::None, Option::Some(..)) => Ordering::Less,
            (Option::Some(..), Option::None) => Ordering::Greater,
            (Option::Some(va), Option::Some(vb)) => sc_cmp_vecs(va, vb),
        },
        (ScVal::MapVal(oa), ScVal::MapVal(ob)) => match (oa, ob) {
            (Option::None, Option::None) => Ordering::Equal,
            (Option::None, Option::Some(..)) => Ordering::Less,
            (Option::Some(..), Option::None) => Ordering::Greater,
            (Option::Some(pa), Option::Some(pb)) => sc_cmp_maps(pa, pb),
        },
        _ => {
            proof {
                assert(false);
            }
            Ordering::Equal
        },
    }
}

/// Compares two external vector payloads element by element, then by
/// length.
#[verifier::loop_isolation(false)]
#[verifier::rlimit(100)]
fn sc_cmp_vecs(va: &Vec<ScVal>, vb: &Vec<ScVal>) -> (r: Ordering)
    ensures
        r == crate::model::cmp_seq(svs_view(va@), svs_view(vb@)),
    decreases *va,
{
    let ghost sa = svs_view(va@);
    let ghost sb = svs_view(vb@);
    proof {
        lemma_svs_view_index(va@);
        lemma_svs_view_index(vb@);
    }
    let na = va.len();
    let nb = vb.len();
    let n = if na < nb {
        na
    } else {
        nb
    };
    let mut k: usize = 0;
    while k < n
        invariant
            k <= n,
            forall|j: int| 0 <= j < k ==> sa[j] == sb[j],
        decreases n - k,
    {
        let c = sc_cmp(&va[k], &vb[k]);
        match c {
            Ordering::Equal => {
                proof {
                    lemma_cmp_eq_iff(sa[k as int], sb[k as int]);
                }
                k += 1;
            },
            _ => {
                proof {
                    lemma_cmp_seq_skip(sa, sb, k as int);
                }
                return c;
            },
        }
    }
    proof {
        lemma_cmp_seq_skip(sa, sb, n as int);
    }
    if na < nb {
        Ordering::Less
    } else if na == nb {
        Ordering::Equal
    } else {
        Ordering::Greater
    }
}

/// Compares two external map payloads pair by pair, a pair by its key
/// then its value, then by length.
#[verifier::loop_isolation(false)]
#[verifier::rlimit(100)]
fn sc_cmp_maps(pa: &Vec<(ScVal, ScVal)>, pb: &Vec<(ScVal, ScVal)>) -> (r: Ordering)
    ensures
        r == crate::model::cmp_pairs(spairs_view(pa@), spairs_view(pb@)),
    decreases *pa,
{
    let ghost sa = spairs_view(pa@);
    let ghost sb = spairs_view(pb@);
    proof {
        lemma_spairs_view_index(pa@);
        lemma_spairs_view_index(pb@);
    }
    let na = pa.len();
    let nb = pb.len();
    let n = if na < nb {
        na
    } else {
        nb
    };
    let mut k: usize = 0;
    while k < n
        invariant
            k <= n,
            forall|j: int| 0 <= j < k ==> sa[j] == sb[j],
        decreases n - k,
    {
        let ck = sc_cmp(&pa[k].0, &pb[k].0);
        match ck {
            Ordering::Equal => {
                let cv = sc_cmp(&pa[k].1, &pb[k].1);
                match cv {
                    Ordering::Equal => {
                        proof {
                            lemma_cmp_eq_iff(sa[k as int].0, sb[k as int].0);
                            lemma_cmp_eq_iff(sa[k as int].1, sb[k as int].1);
                        }
                        k += 1;
                    },
                    _ => {
                        proof {
                            lemma_cmp_pairs_skip(sa, sb, k as int);
                        }
                        return cv;
                    },
                }
            },
            _ => {
                proof {
                    lemma_cmp_pairs_skip(sa, sb, k as int);
                }
                return ck;
            },
        }
    }
    proof {
        lemma_cmp_pairs_skip(sa, sb, n as int);
    }
    if na < nb {
        Ordering::Less
    } else if na == nb {
        Ordering::Equal
    } else {
        Ordering::Greater
    }
}

impl PartialOrd for ScVal {
    /// The partial order on external values always decides: it returns
    /// the total order's outcome.
    fn partial_cmp(&self, other: &Self) -> (r: Option<Ordering>)
        ensures
            r == Option::Some(spec_cmp(self@, other@)),
    {
        Option::Some(sc_cmp(self, other))
    }
}

impl vstd::std_specs::cmp::PartialOrdSpecImpl for ScVal {
    open spec fn obeys_partial_cmp_spec() -> bool {
        true
    }

    open spec fn partial_cmp_spec(&self, other: &Self) -> Option<Ordering> {
        Option::Some(spec_cmp(self@, other@))
    }
}

/// The metering collaborator: a step counter that conversions and
/// comparisons report through.  Its comparison is the same total order,
/// cross-checkable against the unmetered one; the count never gates the
/// outcome.
pub struct Budget {
    pub steps: u64,
}

impl Budget {
    /// A fresh counter.
    pub fn new() -> (r: Budget)
        ensures
            r.steps == 0,
    {
        Budget { steps: 0 }
    }

    /// Compares two external values, charging one step to the counter;
    /// the count saturates rather than wraps.
    pub fn compare(&mut self, a: &ScVal, b: &ScVal) -> (r: Result<Ordering, ConversionError>)
        ensures
            r == Result::<Ordering, ConversionError>::Ok(spec_cmp(a@, b@)),
            final(self).steps as int == (if old(self).steps < u64::MAX {
                old(self).steps + 1
            } else {
                old(self).steps as int
            }),
    {
        self.steps = if self.steps < u64::MAX {
            self.steps + 1
        } else {
            self.steps
        };
        Result::Ok(sc_cmp(a, b))
    }
}

} // verus!
