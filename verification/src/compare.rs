//! The total-order comparator on tagged values: rank first, scalars
//! numerically, composites by resolving their handles and recursing, maps
//! as their sorted entry sequences.  A handle that does not resolve in the
//! environment at hand is reported as an error, never as a panic.

use vstd::prelude::*;

use crate::model::{
    cmp_bytes, lemma_cmp_bytes_skip, lemma_cmp_eq_iff, lemma_cmp_pairs_skip, lemma_cmp_seq_skip,
    lemma_i256_cmp, lemma_u256_cmp, rank, spec_cmp, SpecVal,
};
use crate::env::{
    env_wf, lemma_pairs_model_index, lemma_rv_model_mono, lemma_vals_model_index, rv_model,
    rv_model_b, some_or_void, Env, HostObject,
};
use crate::val::{ConversionError, Handle, RawVal};
use core::cmp::Ordering;

verus! {

/// The rank a tagged value's kind occupies in the fixed total order; the
/// same rank its model occupies.
pub open spec fn rv_rank_spec(v: RawVal) -> int {
    match v {
        RawVal::Void => 0,
        RawVal::Bool(..) => 1,
        RawVal::Error(..) => 2,
        RawVal::U32(..) => 3,
        RawVal::I32(..) => 4,
        RawVal::U64(..) => 5,
        RawVal::I64(..) => 6,
        RawVal::Timepoint(..) => 7,
        RawVal::Duration(..) => 8,
        RawVal::U128(..) => 9,
        RawVal::I128(..) => 10,
        RawVal::U256(..) => 11,
        RawVal::I256(..) => 12,
        RawVal::Bytes(..) => 13,
        RawVal::String(..) => 14,
        RawVal::Symbol(..) => 15,
        RawVal::Vec(..) => 16,
        RawVal::MapVal(..) => 17,
        RawVal::Address(..) => 18,
    }
}

/// A tagged value's model has the rank of the value's own kind.
pub proof fn lemma_model_rank(env: Env, v: RawVal, b: int)
    requires
        rv_model_b(env, v, b) is Some,
    ensures
        rank(some_or_void(rv_model_b(env, v, b))) == rv_rank_spec(v),
{
}

/// The recursion measure of the comparator and the converter: container
/// handles bound the recursion by their store slot, everything else is
/// flat.
pub open spec fn rv_cmeasure(v: RawVal) -> int {
    match v {
        RawVal::Vec(h) => h.idx + 1,
        RawVal::MapVal(h) => h.idx + 1,
        _ => 0,
    }
}

/// A value whose model resolves below a bound has its measure below that
/// bound.
pub proof fn lemma_cmeasure_below(env: Env, v: RawVal, b: int)
    requires
        b >= 0,
        rv_model_b(env, v, b) is Some,
    ensures
        rv_cmeasure(v) <= b,
{
}

/// The rank of a tagged value's kind.
fn rank_of(v: &RawVal) -> (r: u8)
    ensures
        r as int == rv_rank_spec(*v),
{
    match v {
        RawVal::Void => 0,
        RawVal::Bool(..) => 1,
        RawVal::Error(..) => 2,
        RawVal::U32(..) => 3,
        RawVal::I32(..) => 4,
        RawVal::U64(..) => 5,
        RawVal::I64(..) => 6,
        RawVal::Timepoint(..) => 7,
        RawVal::Duration(..) => 8,
        RawVal::U128(..) => 9,
        RawVal::I128(..) => 10,
        RawVal::U256(..) => 11,
        RawVal::I256(..) => 12,
        RawVal::Bytes(..) => 13,
        RawVal::String(..) => 14,
        RawVal::Symbol(..) => 15,
        RawVal::Vec(..) => 16,
        RawVal::MapVal(..) => 17,
        RawVal::Address(..) => 18,
    }
}

/// The payload sequence of a model known to be a present vector.
pub open spec fn vec_payload_of(m: SpecVal) -> Seq<SpecVal> {
    match m {
        SpecVal::Vec(Option::Some(s)) => s,
        _ => Seq::empty(),
    }
}

/// The payload sequence of a model known to be a present map.
pub open spec fn map_payload_of(m: SpecVal) -> Seq<(SpecVal, SpecVal)> {
    match m {
        SpecVal::MapVal(Option::Some(s)) => s,
        _ => Seq::empty(),
    }
}

/// Lexicographic comparison of two byte buffers.
#[verifier::loop_isolation(false)]
pub(crate) fn cmp_u8vec(a: &Vec<u8>, b: &Vec<u8>) -> (r: Ordering)
    ensures
        r == cmp_bytes(a@, b@),
{
    let na = a.len();
    let nb = b.len();
    let n = if na < nb {
        na
    } else {
        nb
    };
    let mut k: usize = 0;
    while k < n
        invariant
            k <= n,
            forall|j: int| 0 <= j < k ==> a@[j] == b@[j],
        decreases n - k,
    {
        let xa = a[k];
        let xb = b[k];
        if xa < xb {
            proof {
                lemma_cmp_bytes_skip(a@, b@, k as int);
            }
            return Ordering::Less;
        } else if xa > xb {
            proof {
                lemma_cmp_bytes_skip(a@, b@, k as int);
            }
            return Ordering::Greater;
        }
        k += 1;
    }
    proof {
        lemma_cmp_bytes_skip(a@, b@, n as int);
    }
    if na < nb {
        Ordering::Less
    } else if na == nb {
        Ordering::Equal
    } else {
        Ordering::Greater
    }
}

/// Compares two tagged values in an environment.  The outcome is the
/// order of their models; the call fails exactly when one of the two
/// values' own handles does not resolve here.
#[verifier::loop_isolation(false)]
#[verifier::rlimit(100)]
pub(crate) fn cmp_rv(env: &Env, a: &RawVal, b: &RawVal) -> (r: Result<Ordering, ConversionError>)
    requires
        env_wf(*env),
    ensures
        match r {
            Result::Ok(o) => rv_model(*env, *a) is Some && rv_model(*env, *b) is Some && o
                == spec_cmp(
                some_or_void(rv_model(*env, *a)),
                some_or_void(rv_model(*env, *b)),
            ),
            Result::Err(e) => e == ConversionError::UnresolvableHandle && (rv_model(*env, *a)
                is None || rv_model(*env, *b) is None),
        },
    decreases rv_cmeasure(*a) + rv_cmeasure(*b),
{
    if !env.check_val(a) || !env.check_val(b) {
        return Result::Err(ConversionError::UnresolvableHandle);
    }
    let ghost ma = some_or_void(rv_model(*env, *a));
    let ghost mb = some_or_void(rv_model(*env, *b));
    proof {
        lemma_model_rank(*env, *a, env.objs@.len() as int);
        lemma_model_rank(*env, *b, env.objs@.len() as int);
    }
    let ra = rank_of(a);
    let rb = rank_of(b);
    if ra != rb {
        return Result::Ok(
            if ra < rb {
                Ordering::Less
            } else {
                Ordering::Greater
            },
        );
    }
    match (a, b) {
        (RawVal::Void, RawVal::Void) => Result::Ok(Ordering::Equal),
        (RawVal::Bool(x), RawVal::Bool(y)) => Result::Ok(
            if *x == *y {
                Ordering::Equal
            } else if !*x {
                Ordering::Less
            } else {
                Ordering::Greater
            },
        ),
        (RawVal::Error(x), RawVal::Error(y)) => Result::Ok(
            if *x < *y {
                Ordering::Less
            } else if *x == *y {
                Ordering::Equal
            } else {
                Ordering::Greater
            },
        ),
        (RawVal::U32(x), RawVal::U32(y)) => Result::Ok(
            if *x < *y {
                Ordering::Less
            } else if *x == *y {
                Ordering::Equal
            } else {
                Ordering::Greater
            },
        ),
        (RawVal::I32(x), RawVal::I32(y)) => Result::Ok(
            if *x < *y {
                Ordering::Less
            } else if *x == *y {
                Ordering::Equal
            } else {
                Ordering::Greater
            },
        ),
        (RawVal::U64(x), RawVal::U64(y)) => Result::Ok(
            if *x < *y {
                Ordering::Less
            } else if *x == *y {
                Ordering::Equal
            } else {
                Ordering::Greater
            },
        ),
        (RawVal::I64(x), RawVal::I64(y)) => Result::Ok(
            if *x < *y {
                Ordering::Less
            } else if *x == *y {
                Ordering::Equal
            } else {
                Ordering::Greater
            },
        ),
        (RawVal::Timepoint(x), RawVal::Timepoint(y)) => Result::Ok(
            if *x < *y {
                Ordering::Less
            } else if *x == *y {
                Ordering::Equal
            } else {
                Ordering::Greater
            },
        ),
        (RawVal::Duration(x), RawVal::Duration(y)) => Result::Ok(
            if *x < *y {
                Ordering::Less
            } else if *x == *y {
                Ordering::Equal
            } else {
                Ordering::Greater
            },
        ),
        (RawVal::U128(ha), RawVal::U128(hb)) => {
            let oa = match env.resolve(*ha) {
                Result::Ok(o) => o,
                Result::Err(e) => {
                    proof {
                        assert(false);
                    }
                    return Result::Err(e);
                },
            };
            let ob = match env.resolve(*hb) {
                Result::Ok(o) => o,
                Result::Err(e) => {
                    proof {
                        assert(false);
                    }
                    return Result::Err(e);
                },
            };
            match (oa, ob) {
                (HostObject::U128(x), HostObject::U128(y)) => Result::Ok(
                    if *x < *y {
                        Ordering::Less
                    } else if *x == *y {
                        Ordering::Equal
                    } else {
                        Ordering::Greater
                    },
                ),
                _ => {
                    proof {
                        assert(false);
                    }
                    Result::Err(ConversionError::UnresolvableHandle)
                },
            }
        },
        (RawVal::I128(ha), RawVal::I128(hb)) => {
            let oa = match env.resolve(*ha) {
                Result::Ok(o) => o,
                Result::Err(e) => {
                    proof {
                        assert(false);
                    }
                    return Result::Err(e);
                },
            };
            let ob = match env.resolve(*hb) {
                Result::Ok(o) => o,
                Result::Err(e) => {
                    proof {
                        assert(false);
                    }
                    return Result::Err(e);
                },
            };
            match (oa, ob) {
                (HostObject::I128(x), HostObject::I128(y)) => Result::Ok(
                    if *x < *y {
                        Ordering::Less
                    } else if *x == *y {
                        Ordering::Equal
                    } else {
                        Ordering::Greater
                    },
                ),
                _ => {
                    proof {
                        assert(false);
                    }
                    Result::Err(ConversionError::UnresolvableHandle)
                },
            }
        },
        (RawVal::U256(ha), RawVal::U256(hb)) => {
            let oa = match env.resolve(*ha) {
                Result::Ok(o) => o,
                Result::Err(e) => {
                    proof {
                        assert(false);
                    }
                    return Result::Err(e);
                },
            };
            let ob = match env.resolve(*hb) {
                Result::Ok(o) => o,
                Result::Err(e) => {
                    proof {
                        assert(false);
                    }
                    return Result::Err(e);
                },
            };
            match (oa, ob) {
                (HostObject::U256(a3, a2, a1, a0), HostObject::U256(b3, b2, b1, b0)) => {
                    proof {
                        lemma_u256_cmp(*a3, *a2, *a1, *a0, *b3, *b2, *b1, *b0);
                    }
                    Result::Ok(
                        if *a3 != *b3 {
                            if *a3 < *b3 {
                                Ordering::Less
                            } else {
                                Ordering::Greater
                            }
                        } else if *a2 != *b2 {
                            if *a2 < *b2 {
                                Ordering::Less
                            } else {
                                Ordering::Greater
                            }
                        } else if *a1 != *b1 {
                            if *a1 < *b1 {
                                Ordering::Less
                            } else {
                                Ordering::Greater
                            }
                        } else if *a0 != *b0 {
                            if *a0 < *b0 {
                                Ordering::Less
                            } else {
                                Ordering::Greater
                            }
                        } else {
                            Ordering::Equal
                        },
                    )
                },
                _ => {
                    proof {
                        assert(false);
                    }
                    Result::Err(ConversionError::UnresolvableHandle)
                },
            }
        },
        (RawVal::I256(ha), RawVal::I256(hb)) => {
            let oa = match env.resolve(*ha) {
                Result::Ok(o) => o,
                Result::Err(e) => {
                    proof {
                        assert(false);
                    }
                    return Result::Err(e);
                },
            };
            let ob = match env.resolve(*hb) {
                Result::Ok(o) => o,
                Result::Err(e) => {
                    proof {
                        assert(false);
                    }
                    return Result::Err(e);
                },
            };
            match (oa, ob) {
                (HostObject::I256(a3, a2, a1, a0), HostObject::I256(b3, b2, b1, b0)) => {
                    proof {
                        lemma_i256_cmp(*a3, *a2, *a1, *a0, *b3, *b2, *b1, *b0);
                    }
                    Result::Ok(
                        if *a3 != *b3 {
                            if *a3 < *b3 {
                                Ordering::Less
                            } else {
                                Ordering::Greater
                            }
                        } else if *a2 != *b2 {
                            if *a2 < *b2 {
                                Ordering::Less
                            } else {
                                Ordering::Greater
                            }
                        } else if *a1 != *b1 {
                            if *a1 < *b1 {
                                Ordering::Less
                            } else {
                                Ordering::Greater
                            }
                        } else if *a0 != *b0 {
                            if *a0 < *b0 {
                                Ordering::Less
                            } else {
                                Ordering::Greater
                            }
                        } else {
                            Ordering::Equal
                        },
                    )
                },
                _ => {
                    proof {
                        assert(false);
                    }
                    Result::Err(ConversionError::UnresolvableHandle)
                },
            }
        },
        (RawVal::Bytes(ha), RawVal::Bytes(hb)) => {
            let oa = match env.resolve(*ha) {
                Result::Ok(o) => o,
                Result::Err(e) => {
                    proof {
                        assert(false);
                    }
                    return Result::Err(e);
                },
            };
            let ob = match env.resolve(*hb) {
                Result::Ok(o) => o,
                Result::Err(e) => {
                    proof {
                        assert(false);
                    }
                    return Result::Err(e);
                },
            };
            match (oa, ob) {
                (HostObject::Bytes(x), HostObject::Bytes(y)) => Result::Ok(cmp_u8vec(x, y)),
                _ => {
                    proof {
                        assert(false);
                    }
                    Result::Err(ConversionError::UnresolvableHandle)
                },
            }
        },
        (RawVal::String(ha), RawVal::String(hb)) => {
            let oa = match env.resolve(*ha) {
                Result::Ok(o) => o,
                Result::Err(e) => {
                    proof {
                        assert(false);
                    }
                    return Result::Err(e);
                },
            };
            let ob = match env.resolve(*hb) {
                Result::Ok(o) => o,
                Result::Err(e) => {
                    proof {
                        assert(false);
                    }
                    return Result::Err(e);
                },
            };
            match (oa, ob) {
                (HostObject::String(x), HostObject::String(y)) => Result::Ok(cmp_u8vec(x, y)),
                _ => {
                    proof {
                        assert(false);
                    }
                    Result::Err(ConversionError::UnresolvableHandle)
                },
            }
        },
        (RawVal::Symbol(ha), RawVal::Symbol(hb)) => {
            let oa = match env.resolve(*ha) {
                Result::Ok(o) => o,
                Result::Err(e) => {
                    proof {
                        assert(false);
                    }
                    return Result::Err(e);
                },
            };
            let ob = match env.resolve(*hb) {
                Result::Ok(o) => o,
                Result::Err(e) => {
                    proof {
                        assert(false);
                    }
                    return Result::Err(e);
                },
            };
            match (oa, ob) {
                (HostObject::Symbol(x), HostObject::Symbol(y)) => Result::Ok(cmp_u8vec(x, y)),
                _ => {
                    proof {
                        assert(false);
                    }
                    Result::Err(ConversionError::UnresolvableHandle)
                },
            }
        },
        (RawVal::Address(ha), RawVal::Address(hb)) => {
            let oa = match env.resolve(*ha) {
                Result::Ok(o) => o,
                Result::Err(e) => {
                    proof {
                        assert(false);
                    }
                    return Result::Err(e);
                },
            };
            let ob = match env.resolve(*hb) {
                Result::Ok(o) => o,
                Result::Err(e) => {
                    proof {
                        assert(false);
                    }
                    return Result::Err(e);
                },
            };
            match (oa, ob) {
                (HostObject::Address(x), HostObject::Address(y)) => Result::Ok(cmp_u8vec(x, y)),
                _ => {
                    proof {
                        assert(false);
                    }
                    Result::Err(ConversionError::UnresolvableHandle)
                },
            }
        },
        (RawVal::Vec(ha), RawVal::Vec(hb)) => Result::Ok(cmp_vec_objs(env, *ha, *hb)),
        (RawVal::MapVal(ha), RawVal::MapVal(hb)) => Result::Ok(cmp_map_objs(env, *ha, *hb)),
        _ => {
            proof {
                assert(false);
            }
            Result::Err(ConversionError::UnresolvableHandle)
        },
    }
}

/// Compares two vector objects element by element, then by length.
#[verifier::loop_isolation(false)]
#[verifier::rlimit(100)]
fn cmp_vec_objs(env: &Env, ha: Handle, hb: Handle) -> (r: Ordering)
    requires
        env_wf(*env),
        rv_model(*env, RawVal::Vec(ha)) is Some,
        rv_model(*env, RawVal::Vec(hb)) is Some,
    ensures
        r == spec_cmp(
            some_or_void(rv_model(*env, RawVal::Vec(ha))),
            some_or_void(rv_model(*env, RawVal::Vec(hb))),
        ),
    decreases ha.idx + hb.idx + 1,
{
    let ghost ma = some_or_void(rv_model(*env, RawVal::Vec(ha)));
    let ghost mb = some_or_void(rv_model(*env, RawVal::Vec(hb)));
    let oa = match env.resolve(ha) {
        Result::Ok(o) => o,
        Result::Err(..) => {
            proof {
                assert(false);
            }
            return Ordering::Equal;
        },
    };
    let ob = match env.resolve(hb) {
        Result::Ok(o) => o,
        Result::Err(..) => {
            proof {
                assert(false);
            }
            return Ordering::Equal;
        },
    };
    match (oa, ob) {
        (HostObject::Vec(ea), HostObject::Vec(eb)) => {
            let ghost sa = vec_payload_of(ma);
            let ghost sb = vec_payload_of(mb);
            proof {
                lemma_vals_model_index(*env, ea@, ha.idx as int);
                lemma_vals_model_index(*env, eb@, hb.idx as int);
                assert(sa.len() == ea@.len());
                assert(sb.len() == eb@.len());
            }
            let na = ea.len();
            let nb = eb.len();
            let n = if na < nb {
                na
            } else {
                nb
            };
            let mut k: usize = 0;
            while k < n
                invariant
                    k <= n,
                    forall|j: int| 0 <= j < k ==> sa[j] == sb[j],
                decreases n - k,
            {
                proof {
                    lemma_cmeasure_below(*env, ea@[k as int], ha.idx as int);
                    lemma_cmeasure_below(*env, eb@[k as int], hb.idx as int);
                    lemma_rv_model_mono(*env, ea@[k as int], ha.idx as int, env.objs@.len() as int);
                    lemma_rv_model_mono(*env, eb@[k as int], hb.idx as int, env.objs@.len() as int);
                }
                let c = match cmp_rv(env, &ea[k], &eb[k]) {
                    Result::Ok(c) => c,
                    Result::Err(..) => {
                        proof {
                            assert(false);
                        }
                        return Ordering::Equal;
                    },
                };
                match c {
                    Ordering::Equal => {
                        proof {
                            lemma_cmp_eq_iff(sa[k as int], sb[k as int]);
                        }
                        k += 1;
                    },
                    _ => {
                        proof {
                            lemma_cmp_seq_skip(sa, sb, k as int);
                        }
                        return c;
                    },
                }
            }
            proof {
                lemma_cmp_seq_skip(sa, sb, n as int);
            }
            if na < nb {
                Ordering::Less
            } else if na == nb {
                Ordering::Equal
            } else {
                Ordering::Greater
            }
        },
        _ => {
            proof {
                assert(false);
            }
            Ordering::Equal
        },
    }
}

/// Compares two map objects as their entry sequences: pair by pair, a
/// pair by its key then its value, then by length.
#[verifier::loop_isolation(false)]
#[verifier::rlimit(100)]
fn cmp_map_objs(env: &Env, ha: Handle, hb: Handle) -> (r: Ordering)
    requires
        env_wf(*env),
        rv_model(*env, RawVal::MapVal(ha)) is Some,
        rv_model(*env, RawVal::MapVal(hb)) is Some,
    ensures
        r == spec_cmp(
            some_or_void(rv_model(*env, RawVal::MapVal(ha))),
            some_or_void(rv_model(*env, RawVal::MapVal(hb))),
        ),
    decreases ha.idx + hb.idx + 1,
{
    let ghost ma = some_or_void(rv_model(*env, RawVal::MapVal(ha)));
    let ghost mb = some_or_void(rv_model(*env, RawVal::MapVal(hb)));
    let oa = match env.resolve(ha) {
        Result::Ok(o) => o,
        Result::Err(..) => {
            proof {
                assert(false);
            }
            return Ordering::Equal;
        },
    };
    let ob = match env.resolve(hb) {
        Result::Ok(o) => o,
        Result::Err(..) => {
            proof {
                assert(false);
            }
            return Ordering::Equal;
        },
    };
    match (oa, ob) {
        (HostObject::MapVal(pa), HostObject::MapVal(pb)) => {
            let ghost sa = map_payload_of(ma);
            let ghost sb = map_payload_of(mb);
            proof {
                lemma_pairs_model_index(*env, pa@, ha.idx as int);
                lemma_pairs_model_index(*env, pb@, hb.idx as int);
                assert(sa.len() == pa@.len());
                assert(sb.len() == pb@.len());
            }
            let na = pa.len();
            let nb = pb.len();
            let n = if na < nb {
                na
            } else {
                nb
            };
            let mut k: usize = 0;
            while k < n
                invariant
                    k <= n,
                    forall|j: int| 0 <= j < k ==> sa[j] == sb[j],
                decreases n - k,
            {
                proof {
                    lemma_cmeasure_below(*env, pa@[k as int].0, ha.idx as int);
                    lemma_cmeasure_below(*env, pb@[k as int].0, hb.idx as int);
                    lemma_rv_model_mono(
                        *env,
                        pa@[k as int].0,
                        ha.idx as int,
                        env.objs@.len() as int,
                    );
                    lemma_rv_model_mono(
                        *env,
                        pb@[k as int].0,
                        hb.idx as int,
                        env.objs@.len() as int,
                    );
                }
                let ck = match cmp_rv(env, &pa[k].0, &pb[k].0) {
                    Result::Ok(c) => c,
                    Result::Err(..) => {
                        proof {
                            assert(false);
                        }
                        return Ordering::Equal;
                    },
                };
                match ck {
                    Ordering::Equal => {
                        proof {
                            lemma_cmp_eq_iff(sa[k as int].0, sb[k as int].0);
                            lemma_cmeasure_below(*env, pa@[k as int].1, ha.idx as int);
                            lemma_cmeasure_below(*env, pb@[k as int].1, hb.idx as int);
                            lemma_rv_model_mono(
                                *env,
                                pa@[k as int].1,
                                ha.idx as int,
                                env.objs@.len() as int,
                            );
                            lemma_rv_model_mono(
                                *env,
                                pb@[k as int].1,
                                hb.idx as int,
                                env.objs@.len() as int,
                            );
                        }
                        let cv = match cmp_rv(env, &pa[k].1, &pb[k].1) {
                            Result::Ok(c) => c,
                            Result::Err(..) => {
                                proof {
                                    assert(false);
                                }
                                return Ordering::Equal;
                            },
                        };
                        match cv {
                            Ordering::Equal => {
                                proof {
                                    lemma_cmp_eq_iff(sa[k as int].1, sb[k as int].1);
                                }
                                k += 1;
                            },
                            _ => {
                                proof {
                                    lemma_cmp_pairs_skip(sa, sb, k as int);
                                }
                                return cv;
                            },
                        }
                    },
                    _ => {
                        proof {
                            lemma_cmp_pairs_skip(sa, sb, k as int);
                        }
                        return ck;
                    },
                }
            }
            proof {
                lemma_cmp_pairs_skip(sa, sb, n as int);
            }
            if na < nb {
                Ordering::Less
            } else if na == nb {
                Ordering::Equal
            } else {
                Ordering::Greater
            }
        },
        _ => {
            proof {
                assert(false);
            }
            Ordering::Equal
        },
    }
}

impl Env {
    /// Compares two tagged values held by this environment: a total order
    /// whose outcome is the order of the values' models.  Fails with
    /// `UnresolvableHandle` exactly when one of the two values' handles
    /// does not resolve in this environment.
    pub fn compare(&self, a: &RawVal, b: &RawVal) -> (r: Result<Ordering, ConversionError>)
        requires
            env_wf(*self),
        ensures
            match r {
                Result::Ok(o) => rv_model(*self, *a) is Some && rv_model(*self, *b) is Some && o
                    == spec_cmp(
                    some_or_void(rv_model(*self, *a)),
                    some_or_void(rv_model(*self, *b)),
                ),
                Result::Err(e) => e == ConversionError::UnresolvableHandle && (rv_model(
                    *self,
                    *a,
                ) is None || rv_model(*self, *b) is None),
            },
    {
        cmp_rv(self, a, b)
    }
}

} // verus!
