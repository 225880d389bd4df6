//! The bidirectional converter between the tagged and the external
//! representation.  Outward it is total except for error values outside
//! the reserved external code space; inward it is partial, rejecting every
//! external shape the tagged representation cannot hold.

use vstd::prelude::*;

use crate::model::{
    contains_error, lemma_valid_shape_pairs_index, lemma_valid_shape_seq_index, pairs_sorted,
    serializable, spec_cmp, valid_shape, valid_shape_pairs, valid_shape_seq, SpecVal,
    ADDRESS_LEN, ERROR_CODE_LIMIT,
};
use crate::env::{
    env_extends, env_wf, lemma_extends_trans, lemma_pairs_model_index, lemma_rv_model_extends_full,
    lemma_rv_model_mono, lemma_vals_model_index, lemma_wf_model_valid_shape, pairs_model,
    rv_model, rv_model_b, some_or_void, symbol_bytes_ok, vals_model, Env, HostObject,
};
use crate::compare::{lemma_cmeasure_below, map_payload_of, rv_cmeasure, vec_payload_of};
use crate::scval::{
    lemma_spairs_view_index, lemma_svs_view_index, spairs_view, svs_view, Int256Parts, ScVal,
    UInt256Parts,
};
use crate::val::{ConversionError, Handle, RawVal};
use core::cmp::Ordering;

verus! {

/// Copies a byte buffer.
#[verifier::loop_isolation(false)]
fn copy_bytes(src: &Vec<u8>) -> (r: Vec<u8>)
    ensures
        r@ == src@,
{
    let n = src.len();
    let mut out: Vec<u8> = Vec::new();
    let mut k: usize = 0;
    while k < n
        invariant
            k <= n,
            out@.len() == k,
            forall|j: int| 0 <= j < k ==> out@[j] == src@[j],
        decreases n - k,
    {
        out.push(src[k]);
        k += 1;
    }
    proof {
        assert(out@ =~= src@);
    }
    out
}

/// Converts a tagged value to its external form.  Total for every value
/// whose handles resolve here, except values holding an error code outside
/// the reserved external code space anywhere in their closure; those fail
/// with `NotSerializable`.
#[verifier::rlimit(100)]
pub fn to_scval(env: &Env, v: &RawVal) -> (r: Result<ScVal, ConversionError>)
    requires
        env_wf(*env),
    ensures
        match r {
            Result::Ok(e) => {
                &&& rv_model(*env, *v) is Some
                &&& e@ == some_or_void(rv_model(*env, *v))
                &&& serializable(e@)
                &&& valid_shape(e@)
            },
            Result::Err(e) => {
                &&& (e == ConversionError::UnresolvableHandle || e
                    == ConversionError::NotSerializable)
                &&& (e == ConversionError::UnresolvableHandle ==> rv_model(*env, *v) is None)
                &&& (e == ConversionError::NotSerializable ==> rv_model(*env, *v) is Some
                    && !serializable(some_or_void(rv_model(*env, *v))))
            },
        },
    decreases rv_cmeasure(*v), 1int,
{
    if !env.check_val(v) {
        return Result::Err(ConversionError::UnresolvableHandle);
    }
    let ghost m = some_or_void(rv_model(*env, *v));
    proof {
        lemma_wf_model_valid_shape(*env, *v, env.objs@.len() as int);
    }
    match v {
        RawVal::Void => Result::Ok(ScVal::Void),
        RawVal::Bool(x) => Result::Ok(ScVal::Bool(*x)),
        RawVal::Error(x) => if *x < ERROR_CODE_LIMIT {
            Result::Ok(ScVal::Error(*x))
        } else {
            Result::Err(ConversionError::NotSerializable)
        },
        RawVal::U32(x) => Result::Ok(ScVal::U32(*x)),
        RawVal::I32(x) => Result::Ok(ScVal::I32(*x)),
        RawVal::U64(x) => Result::Ok(ScVal::U64(*x)),
        RawVal::I64(x) => Result::Ok(ScVal::I64(*x)),
        RawVal::Timepoint(x) => Result::Ok(ScVal::Timepoint(*x)),
        RawVal::Duration(x) => Result::Ok(ScVal::Duration(*x)),
        RawVal::U128(h) => match env.resolve(*h) {
            Result::Ok(o) => match o {
                HostObject::U128(x) => Result::Ok(ScVal::U128(*x)),
                _ => {
                    proof {
                        assert(false);
                    }
                    Result::Err(ConversionError::UnresolvableHandle)
                },
            },
            Result::Err(e) => {
                proof {
                    assert(false);
                }
                Result::Err(e)
            },
        },
        RawVal::I128(h) => match env.resolve(*h) {
            Result::Ok(o) => match o {
                HostObject::I128(x) => Result::Ok(ScVal::I128(*x)),
                _ => {
                    proof {
                        assert(false);
                    }
                    Result::Err(ConversionError::UnresolvableHandle)
                },
            },
            Result::Err(e) => {
                proof {
                    assert(false);
                }
                Result::Err(e)
            },
        },
        RawVal::U256(h) => match env.resolve(*h) {
            Result::Ok(o) => match o {
                HostObject::U256(x3, x2, x1, x0) => Result::Ok(
                    ScVal::U256(
                        UInt256Parts { hi_hi: *x3, hi_lo: *x2, lo_hi: *x1, lo_lo: *x0 },
                    ),
                ),
                _ => {
                    proof {
                        assert(false);
                    }
                    Result::Err(ConversionError::UnresolvableHandle)
                },
            },
            Result::Err(e) => {
                proof {
                    assert(false);
                }
                Result::Err(e)
            },
        },
        RawVal::I256(h) => match env.resolve(*h) {
            Result::Ok(o) => match o {
                HostObject::I256(x3, x2, x1, x0) => Result::Ok(
                    ScVal::I256(Int256Parts { hi_hi: *x3, hi_lo: *x2, lo_hi: *x1, lo_lo: *x0 }),
                ),
                _ => {
                    proof {
                        assert(false);
                    }
                    Result::Err(ConversionError::UnresolvableHandle)
                },
            },
            Result::Err(e) => {
                proof {
                    assert(false);
                }
                Result::Err(e)
            },
        },
        RawVal::Bytes(h) => match env.resolve(*h) {
            Result::Ok(o) => match o {
                HostObject::Bytes(s) => Result::Ok(ScVal::Bytes(copy_bytes(s))),
                _ => {
                    proof {
                        assert(false);
                    }
                    Result::Err(ConversionError::UnresolvableHandle)
                },
            },
            Result::Err(e) => {
                proof {
                    assert(false);
                }
                Result::Err(e)
            },
        },
        RawVal::String(h) => match env.resolve(*h) {
            Result::Ok(o) => match o {
                HostObject::String(s) => Result::Ok(ScVal::String(copy_bytes(s))),
                _ => {
                    proof {
                        assert(false);
                    }
                    Result::Err(ConversionError::UnresolvableHandle)
                },
            },
            Result::Err(e) => {
                proof {
                    assert(false);
                }
                Result::Err(e)
            },
        },
        RawVal::Symbol(h) => match env.resolve(*h) {
            Result::Ok(o) => match o {
                HostObject::Symbol(s) => Result::Ok(ScVal::Symbol(copy_bytes(s))),
                _ => {
                    proof {
                        assert(false);
                    }
                    Result::Err(ConversionError::UnresolvableHandle)
                },
            },
            Result::Err(e) => {
                proof {
                    assert(false);
                }
                Result::Err(e)
            },
        },
        RawVal::Address(h) => match env.resolve(*h) {
            Result::Ok(o) => match o {
                HostObject::Address(s) => Result::Ok(ScVal::Address(copy_bytes(s))),
                _ => {
                    proof {
                        assert(false);
                    }
                    Result::Err(ConversionError::UnresolvableHandle)
                },
            },
            Result::Err(e) => {
                proof {
                    assert(false);
                }
                Result::Err(e)
            },
        },
        RawVal::Vec(h) => to_scval_vec(env, *h),
        RawVal::MapVal(h) => to_scval_map(env, *h),
    }
}

/// Converts a vector object outward, element by element.
#[verifier::loop_isolation(false)]
#[verifier::rlimit(100)]
fn to_scval_vec(env: &Env, h: Handle) -> (r: Result<ScVal, ConversionError>)
    requires
        env_wf(*env),
        rv_model(*env, RawVal::Vec(h)) is Some,
    ensures
        match r {
            Result::Ok(e) => {
                &&& e@ == some_or_void(rv_model(*env, RawVal::Vec(h)))
                &&& serializable(e@)
                &&& valid_shape(e@)
            },
            Result::Err(e) => e == ConversionError::NotSerializable && !serializable(
                some_or_void(rv_model(*env, RawVal::Vec(h))),
            ),
        },
    decreases h.idx + 1, 0int,
{
    let ghost m = some_or_void(rv_model(*env, RawVal::Vec(h)));
    let ghost sa = vec_payload_of(m);
    proof {
        lemma_wf_model_valid_shape(*env, RawVal::Vec(h), env.objs@.len() as int);
    }
    let o = match env.resolve(h) {
        Result::Ok(o) => o,
        Result::Err(..) => {
            proof {
                assert(false);
            }
            return Result::Err(ConversionError::NotSerializable);
        },
    };
    match o {
        HostObject::Vec(elems) => {
            proof {
                lemma_vals_model_index(*env, elems@, h.idx as int);
                assert(sa.len() == elems@.len());
            }
            let n = elems.len();
            let mut out: Vec<ScVal> = Vec::new();
            let mut k: usize = 0;
            while k < n
                invariant
                    k <= n,
                    out@.len() == k,
                    forall|j: int|
                        0 <= j < k ==> sv_view_of(#[trigger] out@[j]) == sa[j] && serializable(
                            sa[j],
                        ),
                decreases n - k,
            {
                proof {
                    lemma_cmeasure_below(*env, elems@[k as int], h.idx as int);
                    lemma_rv_model_mono(*env, elems@[k as int], h.idx as int, env.objs@.len() as int);
                }
                match to_scval(env, &elems[k]) {
                    Result::Ok(e) => {
                        out.push(e);
                    },
                    Result::Err(..) => {
                        proof {
                            assert(!serializable(sa[k as int]));
                            crate::model::lemma_not_serializable_vec(sa, k as int);
                        }
                        return Result::Err(ConversionError::NotSerializable);
                    },
                }
                k += 1;
            }
            proof {
                lemma_svs_view_index(out@);
                assert forall|i: int| 0 <= i < sa.len() implies svs_view(out@)[i] == sa[i]
                    && serializable(#[trigger] sa[i]) by {
                    assert(sv_view_of(out@[i]) == sa[i]);
                }
                assert(svs_view(out@) =~= sa);
                crate::model::lemma_serializable_seq_index(sa);
            }
            Result::Ok(ScVal::Vec(Option::Some(out)))
        },
        _ => {
            proof {
                assert(false);
            }
            Result::Err(ConversionError::NotSerializable)
        },
    }
}

/// Converts a map object outward, entry by entry, in its stored key
/// order.
#[verifier::loop_isolation(false)]
#[verifier::rlimit(100)]
fn to_scval_map(env: &Env, h: Handle) -> (r: Result<ScVal, ConversionError>)
    requires
        env_wf(*env),
        rv_model(*env, RawVal::MapVal(h)) is Some,
    ensures
        match r {
            Result::Ok(e) => {
                &&& e@ == some_or_void(rv_model(*env, RawVal::MapVal(h)))
                &&& serializable(e@)
                &&& valid_shape(e@)
            },
            Result::Err(e) => e == ConversionError::NotSerializable && !serializable(
                some_or_void(rv_model(*env, RawVal::MapVal(h))),
            ),
        },
    decreases h.idx + 1, 0int,
{
    let ghost m = some_or_void(rv_model(*env, RawVal::MapVal(h)));
    let ghost sa = map_payload_of(m);
    proof {
        lemma_wf_model_valid_shape(*env, RawVal::MapVal(h), env.objs@.len() as int);
    }
    let o = match env.resolve(h) {
        Result::Ok(o) => o,
        Result::Err(..) => {
            proof {
                assert(false);
            }
            return Result::Err(ConversionError::NotSerializable);
        },
    };
    match o {
        HostObject::MapVal(pairs) => {
            proof {
                lemma_pairs_model_index(*env, pairs@, h.idx as int);
                assert(sa.len() == pairs@.len());
            }
            let n = pairs.len();
            let mut out: Vec<(ScVal, ScVal)> = Vec::new();
            let mut k: usize = 0;
            while k < n
                invariant
                    k <= n,
                    out@.len() == k,
                    forall|j: int|
                        0 <= j < k ==> sv_view_of((#[trigger] out@[j]).0) == sa[j].0 && sv_view_of(
                            out@[j].1,
                        ) == sa[j].1 && serializable(sa[j].0) && serializable(sa[j].1),
                decreases n - k,
            {
                proof {
                    lemma_cmeasure_below(*env, pairs@[k as int].0, h.idx as int);
                    lemma_cmeasure_below(*env, pairs@[k as int].1, h.idx as int);
                    lemma_rv_model_mono(
                        *env,
                        pairs@[k as int].0,
                        h.idx as int,
                        env.objs@.len() as int,
                    );
                    lemma_rv_model_mono(
                        *env,
                        pairs@[k as int].1,
                        h.idx as int,
                        env.objs@.len() as int,
                    );
                }
                let ek = match to_scval(env, &pairs[k].0) {
                    Result::Ok(e) => e,
                    Result::Err(..) => {
                        proof {
                            assert(!serializable(sa[k as int].0));
                            crate::model::lemma_not_serializable_map(sa, k as int);
                        }
                        return Result::Err(ConversionError::NotSerializable);
                    },
                };
                let ev = match to_scval(env, &pairs[k].1) {
                    Result::Ok(e) => e,
                    Result::Err(..) => {
                        proof {
                            assert(!serializable(sa[k as int].1));
                            crate::model::lemma_not_serializable_map(sa, k as int);
                        }
                        return Result::Err(ConversionError::NotSerializable);
                    },
                };
                out.push((ek, ev));
                k += 1;
            }
            proof {
                lemma_spairs_view_index(out@);
                assert forall|i: int| 0 <= i < sa.len() implies spairs_view(out@)[i]
                    == #[trigger] sa[i] && serializable(sa[i].0) && serializable(sa[i].1) by {
                    assert(sv_view_of(out@[i].0) == sa[i].0);
                    assert(sv_view_of(out@[i].1) == sa[i].1);
                    assert(spairs_view(out@)[i].0 == sa[i].0);
                    assert(spairs_view(out@)[i].1 == sa[i].1);
                }
                assert(spairs_view(out@) =~= sa);
                crate::model::lemma_serializable_pairs_index(sa);
            }
            Result::Ok(ScVal::MapVal(Option::Some(out)))
        },
        _ => {
            proof {
                assert(false);
            }
            Result::Err(ConversionError::NotSerializable)
        },
    }
}

/// The abstract value of an external value; a synonym usable in triggers.
pub open spec fn sv_view_of(v: ScVal) -> SpecVal {
    crate::scval::sv_view(v)
}

/// The recursive leg of the inward conversion: converts one external
/// value, reporting the first failure its traversal meets.
#[verifier::rlimit(100)]
fn from_scval_rec(env: &mut Env, v: &ScVal) -> (r: Result<RawVal, ConversionError>)
    requires
        env_wf(*old(env)),
    ensures
        env_wf(*final(env)),
        env_extends(*old(env), *final(env)),
        match r {
            Result::Ok(rv) => {
                &&& valid_shape(v@)
                &&& serializable(v@)
                &&& rv_model(*final(env), rv) == Option::Some(v@)
            },
            Result::Err(e) => {
                &&& (e == ConversionError::InvalidShape || e == ConversionError::Overflow)
                &&& (e == ConversionError::InvalidShape ==> !valid_shape(v@))
                &&& (e == ConversionError::Overflow ==> !serializable(v@))
            },
        },
    decreases *v, 1int,
{
    match v {
        ScVal::Void => Result::Ok(RawVal::Void),
        ScVal::Bool(x) => Result::Ok(RawVal::Bool(*x)),
        ScVal::Error(x) => if *x < ERROR_CODE_LIMIT {
            Result::Ok(RawVal::Error(*x))
        } else {
            Result::Err(ConversionError::Overflow)
        },
        ScVal::U32(x) => Result::Ok(RawVal::U32(*x)),
        ScVal::I32(x) => Result::Ok(RawVal::I32(*x)),
        ScVal::U64(x) => Result::Ok(RawVal::U64(*x)),
        ScVal::I64(x) => Result::Ok(RawVal::I64(*x)),
        ScVal::Timepoint(x) => Result::Ok(RawVal::Timepoint(*x)),
        ScVal::Duration(x) => Result::Ok(RawVal::Duration(*x)),
        ScVal::U128(x) => match env.allocate(HostObject::U128(*x)) {
            Result::Ok(h) => Result::Ok(RawVal::U128(h)),
            Result::Err(..) => {
                proof {
                    assert(false);
                }
                Result::Err(ConversionError::InvalidShape)
            },
        },
        ScVal::I128(x) => match env.allocate(HostObject::I128(*x)) {
            Result::Ok(h) => Result::Ok(RawVal::I128(h)),
            Result::Err(..) => {
                proof {
                    assert(false);
                }
                Result::Err(ConversionError::InvalidShape)
            },
        },
        ScVal::U256(p) => match env.allocate(
            HostObject::U256(p.hi_hi, p.hi_lo, p.lo_hi, p.lo_lo),
        ) {
            Result::Ok(h) => Result::Ok(RawVal::U256(h)),
            Result::Err(..) => {
                proof {
                    assert(false);
                }
                Result::Err(ConversionError::InvalidShape)
            },
        },
        ScVal::I256(p) => match env.allocate(
            HostObject::I256(p.hi_hi, p.hi_lo, p.lo_hi, p.lo_lo),
        ) {
            Result::Ok(h) => Result::Ok(RawVal::I256(h)),
            Result::Err(..) => {
                proof {
                    assert(false);
                }
                Result::Err(ConversionError::InvalidShape)
            },
        },
        ScVal::Bytes(b) => match env.allocate(HostObject::Bytes(copy_bytes(b))) {
            Result::Ok(h) => Result::Ok(RawVal::Bytes(h)),
            Result::Err(..) => {
                proof {
                    assert(false);
                }
                Result::Err(ConversionError::InvalidShape)
            },
        },
        ScVal::String(b) => match env.allocate(HostObject::String(copy_bytes(b))) {
            Result::Ok(h) => Result::Ok(RawVal::String(h)),
            Result::Err(..) => {
                proof {
                    assert(false);
                }
                Result::Err(ConversionError::InvalidShape)
            },
        },
        ScVal::Symbol(b) => match env.allocate(HostObject::Symbol(copy_bytes(b))) {
            Result::Ok(h) => Result::Ok(RawVal::Symbol(h)),
            Result::Err(e) => {
                proof {
                    assert(e == ConversionError::InvalidShape);
                    assert(!crate::model::symbol_ok(b@));
                }
                Result::Err(ConversionError::InvalidShape)
            },
        },
        ScVal::Address(b) => match env.allocate(HostObject::Address(copy_bytes(b))) {
            Result::Ok(h) => Result::Ok(RawVal::Address(h)),
            Result::Err(e) => {
                proof {
                    assert(e == ConversionError::InvalidShape);
                    assert(b@.len() != crate::model::ADDRESS_LEN);
                }
                Result::Err(ConversionError::InvalidShape)
            },
        },
        ScVal::Vec(o) => match o {
            Option::None => Result::Err(ConversionError::InvalidShape),
            Option::Some(vs) => from_scval_vec(env, vs),
        },
        ScVal::MapVal(o) => match o {
            Option::None => Result::Err(ConversionError::InvalidShape),
            Option::Some(ps) => from_scval_map(env, ps),
        },
    }
}

/// Converts an external vector payload inward, element by element, then
/// stores the vector object.
#[verifier::loop_isolation(false)]
#[verifier::rlimit(100)]
fn from_scval_vec(env: &mut Env, vs: &Vec<ScVal>) -> (r: Result<RawVal, ConversionError>)
    requires
        env_wf(*old(env)),
    ensures
        env_wf(*final(env)),
        env_extends(*old(env), *final(env)),
        match r {
            Result::Ok(rv) => {
                &&& valid_shape(SpecVal::Vec(Option::Some(svs_view(vs@))))
                &&& serializable(SpecVal::Vec(Option::Some(svs_view(vs@))))
                &&& rv_model(*final(env), rv) == Option::Some(
                    SpecVal::Vec(Option::Some(svs_view(vs@))),
                )
            },
            Result::Err(e) => {
                &&& (e == ConversionError::InvalidShape || e == ConversionError::Overflow)
                &&& (e == ConversionError::InvalidShape ==> !valid_shape(
                    SpecVal::Vec(Option::Some(svs_view(vs@))),
                ))
                &&& (e == ConversionError::Overflow ==> !serializable(
                    SpecVal::Vec(Option::Some(svs_view(vs@))),
                ))
            },
        },
    decreases *vs, 0int,
{
    let ghost env0 = *old(env);
    let ghost sa = svs_view(vs@);
    proof {
        lemma_svs_view_index(vs@);
    }
    let n = vs.len();
    let mut out: Vec<RawVal> = Vec::new();
    let mut k: usize = 0;
    while k < n
        invariant
            k <= n,
            out@.len() == k,
            env_wf(*env),
            env_extends(env0, *env),
            forall|j: int|
                0 <= j < k ==> rv_model(*env, #[trigger] out@[j]) == Option::Some(sa[j]),
            forall|j: int| 0 <= j < k ==> valid_shape(#[trigger] sa[j]) && serializable(sa[j]),
        decreases n - k,
    {
        let ghost env_pre = *env;
        match from_scval_rec(env, &vs[k]) {
            Result::Ok(rv) => {
                proof {
                    assert(sa[k as int] == sv_view_of(vs@[k as int]));
                    assert forall|j: int| 0 <= j < k implies rv_model(*env, #[trigger] out@[j])
                        == Option::Some(sa[j]) by {
                        lemma_rv_model_extends_full(env_pre, *env, out@[j]);
                    }
                    lemma_extends_trans(env0, env_pre, *env);
                }
                out.push(rv);
                k += 1;
            },
            Result::Err(e) => {
                proof {
                    assert(sa[k as int] == sv_view_of(vs@[k as int]));
                    if e == ConversionError::InvalidShape {
                        crate::model::lemma_not_valid_shape_vec(sa, k as int);
                    }
                    if e == ConversionError::Overflow {
                        crate::model::lemma_not_serializable_vec(sa, k as int);
                    }
                    lemma_extends_trans(env0, env_pre, *env);
                }
                return Result::Err(e);
            },
        }
    }
    let ghost env1 = *env;
    let ghost gout = out@;
    proof {
        lemma_vals_model_index(env1, gout, env1.objs@.len() as int);
    }
    match env.allocate(HostObject::Vec(out)) {
        Result::Ok(h) => {
            proof {
                let ms = vals_model(env1, gout, env1.objs@.len() as int).unwrap();
                assert forall|j: int| 0 <= j < sa.len() implies ms[j] == #[trigger] sa[j]
                    && valid_shape(sa[j]) && serializable(sa[j]) by {
                    assert(rv_model(env1, gout[j]) == Option::Some(sa[j]));
                }
                assert(ms =~= sa);
                crate::model::lemma_valid_shape_seq_index(sa);
                crate::model::lemma_serializable_seq_index(sa);
                lemma_extends_trans(env0, env1, *env);
            }
            Result::Ok(RawVal::Vec(h))
        },
        Result::Err(..) => {
            proof {
                assert forall|j: int| 0 <= j < gout.len() implies rv_model_b(
                    env1,
                    #[trigger] gout[j],
                    env1.objs@.len() as int,
                ) is Some by {
                    assert(rv_model(env1, gout[j]) == Option::Some(sa[j]));
                }
                assert(false);
            }
            Result::Err(ConversionError::InvalidShape)
        },
    }
}

/// Converts an external map payload inward: the entries must already be
/// strictly sorted by key, else the shape is rejected; then each entry is
/// converted and the map object stored.
#[verifier::loop_isolation(false)]
#[verifier::rlimit(100)]
fn from_scval_map(env: &mut Env, ps: &Vec<(ScVal, ScVal)>) -> (r: Result<RawVal, ConversionError>)
    requires
        env_wf(*old(env)),
    ensures
        env_wf(*final(env)),
        env_extends(*old(env), *final(env)),
        match r {
            Result::Ok(rv) => {
                &&& valid_shape(SpecVal::MapVal(Option::Some(spairs_view(ps@))))
                &&& serializable(SpecVal::MapVal(Option::Some(spairs_view(ps@))))
                &&& rv_model(*final(env), rv) == Option::Some(
                    SpecVal::MapVal(Option::Some(spairs_view(ps@))),
                )
            },
            Result::Err(e) => {
                &&& (e == ConversionError::InvalidShape || e == ConversionError::Overflow)
                &&& (e == ConversionError::InvalidShape ==> !valid_shape(
                    SpecVal::MapVal(Option::Some(spairs_view(ps@))),
                ))
                &&& (e == ConversionError::Overflow ==> !serializable(
                    SpecVal::MapVal(Option::Some(spairs_view(ps@))),
                ))
            },
        },
    decreases *ps, 0int,
{
    let ghost env0 = *old(env);
    let ghost sa = spairs_view(ps@);
    proof {
        lemma_spairs_view_index(ps@);
    }
    let n = ps.len();
    if n > 0 {
        let mut j: usize = 0;
        while j + 1 < n
            invariant
                j < n,
                forall|i: int|
                    0 <= i && i + 1 <= j ==> #[trigger] spec_cmp(sa[i].0, sa[i + 1].0)
                        == Ordering::Less,
            decreases n - j,
        {
            let c = crate::scval::sc_cmp(&ps[j].0, &ps[j + 1].0);
            match c {
                Ordering::Less => {
                    proof {
                        let i = j as int;
                        assert(sa[i].0 == sv_view_of(ps@[i].0));
                        assert(sa[i + 1].0 == sv_view_of(ps@[i + 1].0));
                        assert(spec_cmp(sa[i].0, sa[i + 1].0) == Ordering::Less);
                    }
                    j += 1;
                },
                _ => {
                    proof {
                        let i = j as int;
                        assert(sa[i].0 == sv_view_of(ps@[i].0));
                        assert(sa[i + 1].0 == sv_view_of(ps@[i + 1].0));
                        assert(spec_cmp(sa[i].0, sa[i + 1].0) != Ordering::Less);
                        assert(!pairs_sorted(sa));
                        crate::model::lemma_unsorted_map_not_valid(sa);
                    }
                    return Result::Err(ConversionError::InvalidShape);
                },
            }
        }
    }
    proof {
        assert(pairs_sorted(sa));
    }
    let mut out: Vec<(RawVal, RawVal)> = Vec::new();
    let mut k: usize = 0;
    while k < n
        invariant
            k <= n,
            out@.len() == k,
            env_wf(*env),
            env_extends(env0, *env),
            forall|j: int|
                0 <= j < k ==> rv_model(*env, (#[trigger] out@[j]).0) == Option::Some(sa[j].0)
                    && rv_model(*env, out@[j].1) == Option::Some(sa[j].1),
            forall|j: int|
                0 <= j < k ==> valid_shape((#[trigger] sa[j]).0) && valid_shape(sa[j].1)
                    && serializable(sa[j].0) && serializable(sa[j].1),
        decreases n - k,
    {
        let ghost env_pre = *env;
        let rk = match from_scval_rec(env, &ps[k].0) {
            Result::Ok(rv) => rv,
            Result::Err(e) => {
                proof {
                    assert(sa[k as int].0 == sv_view_of(ps@[k as int].0));
                    if e == ConversionError::InvalidShape {
                        crate::model::lemma_not_valid_shape_map(sa, k as int);
                    }
                    if e == ConversionError::Overflow {
                        crate::model::lemma_not_serializable_map(sa, k as int);
                    }
                    lemma_extends_trans(env0, env_pre, *env);
                }
                return Result::Err(e);
            },
        };
        let ghost env_mid = *env;
        let rw = match from_scval_rec(env, &ps[k].1) {
            Result::Ok(rv) => rv,
            Result::Err(e) => {
                proof {
                    assert(sa[k as int].1 == sv_view_of(ps@[k as int].1));
                    if e == ConversionError::InvalidShape {
                        crate::model::lemma_not_valid_shape_map(sa, k as int);
                    }
                    if e == ConversionError::Overflow {
                        crate::model::lemma_not_serializable_map(sa, k as int);
                    }
                    lemma_extends_trans(env0, env_pre, env_mid);
                    lemma_extends_trans(env0, env_mid, *env);
                }
                return Result::Err(e);
            },
        };
        proof {
            assert(sa[k as int].0 == sv_view_of(ps@[k as int].0));
            assert(sa[k as int].1 == sv_view_of(ps@[k as int].1));
            lemma_rv_model_extends_full(env_mid, *env, rk);
            lemma_extends_trans(env_pre, env_mid, *env);
            assert forall|j: int| 0 <= j < k implies rv_model(*env, (#[trigger] out@[j]).0)
                == Option::Some(sa[j].0) && rv_model(*env, out@[j].1) == Option::Some(
                sa[j].1,
            ) by {
                lemma_rv_model_extends_full(env_pre, *env, out@[j].0);
                lemma_rv_model_extends_full(env_pre, *env, out@[j].1);
            }
            lemma_extends_trans(env0, env_pre, *env);
        }
        out.push((rk, rw));
        k += 1;
    }
    let ghost env1 = *env;
    let ghost gout = out@;
    proof {
        lemma_pairs_model_index(env1, gout, env1.objs@.len() as int);
    }
    match env.allocate(HostObject::MapVal(out)) {
        Result::Ok(h) => {
            proof {
                let ms = pairs_model(env1, gout, env1.objs@.len() as int).unwrap();
                assert forall|j: int| 0 <= j < sa.len() implies ms[j] == #[trigger] sa[j]
                    && valid_shape(sa[j].0) && valid_shape(sa[j].1) && serializable(sa[j].0)
                    && serializable(sa[j].1) by {
                    assert(rv_model(env1, gout[j].0) == Option::Some(sa[j].0));
                    assert(rv_model(env1, gout[j].1) == Option::Some(sa[j].1));
                }
                assert(ms =~= sa);
                crate::model::lemma_valid_shape_pairs_index(sa);
                crate::model::lemma_serializable_pairs_index(sa);
                lemma_extends_trans(env0, env1, *env);
            }
            Result::Ok(RawVal::MapVal(h))
        },
        Result::Err(..) => {
            proof {
                assert forall|j: int| 0 <= j < gout.len() implies rv_model_b(
                    env1,
                    (#[trigger] gout[j]).0,
                    env1.objs@.len() as int,
                ) is Some && rv_model_b(env1, gout[j].1, env1.objs@.len() as int) is Some by {
                    assert(rv_model(env1, gout[j].0) == Option::Some(sa[j].0));
                    assert(rv_model(env1, gout[j].1) == Option::Some(sa[j].1));
                }
                let ms = pairs_model(env1, gout, env1.objs@.len() as int).unwrap();
                assert forall|j: int| 0 <= j < sa.len() implies ms[j] == #[trigger] sa[j] by {
                    assert(rv_model(env1, gout[j].0) == Option::Some(sa[j].0));
                    assert(rv_model(env1, gout[j].1) == Option::Some(sa[j].1));
                }
                assert(ms =~= sa);
                assert(pairs_sorted(ms));
                assert(false);
            }
            Result::Err(ConversionError::InvalidShape)
        },
    }
}

/// Whether an external value is a shape the tagged representation can
/// hold: no absent containers, symbols within alphabet and length bound,
/// addresses of the exact hash length, map entries strictly sorted by
/// key, all the way down.
#[verifier::rlimit(100)]
fn sc_shape_ok(v: &ScVal) -> (r: bool)
    ensures
        r == valid_shape(v@),
    decreases *v, 1int,
{
    match v {
        ScVal::Symbol(b) => symbol_bytes_ok(b),
        ScVal::Address(b) => b.len() == ADDRESS_LEN,
        ScVal::Vec(o) => match o {
            Option::None => false,
            Option::Some(vs) => sc_shape_ok_list(vs),
        },
        ScVal::MapVal(o) => match o {
            Option::None => false,
            Option::Some(ps) => sc_shape_ok_pairs(ps),
        },
        _ => true,
    }
}

/// Shape check over a vector payload, element by element.
#[verifier::loop_isolation(false)]
#[verifier::rlimit(100)]
fn sc_shape_ok_list(vs: &Vec<ScVal>) -> (r: bool)
    ensures
        r == valid_shape_seq(svs_view(vs@)),
    decreases *vs, 0int,
{
    let ghost sa = svs_view(vs@);
    proof {
        lemma_svs_view_index(vs@);
    }
    let n = vs.len();
    let mut k: usize = 0;
    while k < n
        invariant
            k <= n,
            forall|j: int| 0 <= j < k ==> valid_shape(#[trigger] sa[j]),
        decreases n - k,
    {
        if !sc_shape_ok(&vs[k]) {
            proof {
                assert(sa[k as int] == sv_view_of(vs@[k as int]));
                assert(!valid_shape(sa[k as int]));
                lemma_valid_shape_seq_index(sa);
            }
            return false;
        }
        proof {
            assert(sa[k as int] == sv_view_of(vs@[k as int]));
        }
        k += 1;
    }
    proof {
        lemma_valid_shape_seq_index(sa);
    }
    true
}

/// Shape check over a map payload: the entries must be strictly sorted
/// by key and each key and value must itself be a valid shape.
#[verifier::loop_isolation(false)]
#[verifier::rlimit(100)]
fn sc_shape_ok_pairs(ps: &Vec<(ScVal, ScVal)>) -> (r: bool)
    ensures
        r == (pairs_sorted(spairs_view(ps@)) && valid_shape_pairs(spairs_view(ps@))),
    decreases *ps, 0int,
{
    let ghost sa = spairs_view(ps@);
    proof {
        lemma_spairs_view_index(ps@);
    }
    let n = ps.len();
    if n > 0 {
        let mut j: usize = 0;
        while j + 1 < n
            invariant
                j < n,
                forall|i: int|
                    0 <= i && i + 1 <= j ==> #[trigger] spec_cmp(sa[i].0, sa[i + 1].0)
                        == Ordering::Less,
            decreases n - j,
        {
            let c = crate::scval::sc_cmp(&ps[j].0, &ps[j + 1].0);
            match c {
                Ordering::Less => {
                    proof {
                        let i = j as int;
                        assert(sa[i].0 == sv_view_of(ps@[i].0));
                        assert(sa[i + 1].0 == sv_view_of(ps@[i + 1].0));
                        assert(spec_cmp(sa[i].0, sa[i + 1].0) == Ordering::Less);
                    }
                    j += 1;
                },
                _ => {
                    proof {
                        let i = j as int;
                        assert(sa[i].0 == sv_view_of(ps@[i].0));
                        assert(sa[i + 1].0 == sv_view_of(ps@[i + 1].0));
                        assert(spec_cmp(sa[i].0, sa[i + 1].0) != Ordering::Less);
                        assert(!pairs_sorted(sa));
                    }
                    return false;
                },
            }
        }
    }
    proof {
        assert(pairs_sorted(sa));
    }
    let mut k: usize = 0;
    while k < n
        invariant
            k <= n,
            forall|j: int| 0 <= j < k ==> valid_shape((#[trigger] sa[j]).0) && valid_shape(
                sa[j].1,
            ),
        decreases n - k,
    {
        if !sc_shape_ok(&ps[k].0) || !sc_shape_ok(&ps[k].1) {
            proof {
                assert(sa[k as int].0 == sv_view_of(ps@[k as int].0));
                assert(sa[k as int].1 == sv_view_of(ps@[k as int].1));
                lemma_valid_shape_pairs_index(sa);
            }
            return false;
        }
        proof {
            assert(sa[k as int].0 == sv_view_of(ps@[k as int].0));
            assert(sa[k as int].1 == sv_view_of(ps@[k as int].1));
        }
        k += 1;
    }
    proof {
        lemma_valid_shape_pairs_index(sa);
    }
    true
}

/// Converts an external value into this environment's tagged form.
/// Partial: fails with `InvalidShape` on exactly the shapes the tagged
/// representation cannot hold — an absent container, a symbol outside its
/// alphabet or length bound, an address of the wrong length, map entries
/// not strictly sorted by key (so in particular a duplicated key) — and
/// with `Overflow` on a well-shaped value holding an error code outside
/// the reserved external code space.  The shape is judged first, so a
/// value that is both ill-shaped and unserializable fails with
/// `InvalidShape`.  On success the new tagged value's model is exactly
/// the external value's.
pub fn from_scval(env: &mut Env, v: &ScVal) -> (r: Result<RawVal, ConversionError>)
    requires
        env_wf(*old(env)),
    ensures
        env_wf(*final(env)),
        env_extends(*old(env), *final(env)),
        match r {
            Result::Ok(rv) => {
                &&& valid_shape(v@)
                &&& serializable(v@)
                &&& rv_model(*final(env), rv) == Option::Some(v@)
            },
            Result::Err(e) => {
                &&& (e == ConversionError::InvalidShape || e == ConversionError::Overflow)
                &&& (e == ConversionError::InvalidShape <==> !valid_shape(v@))
                &&& (e == ConversionError::Overflow <==> valid_shape(v@) && !serializable(v@))
            },
        },
{
    if !sc_shape_ok(v) {
        return Result::Err(ConversionError::InvalidShape);
    }
    match from_scval_rec(env, v) {
        Result::Ok(rv) => Result::Ok(rv),
        Result::Err(e) => {
            proof {
                assert(e != ConversionError::InvalidShape);
            }
            Result::Err(e)
        },
    }
}

/// Whether converting a tagged value outward might fail: the conservative
/// screen the differential harness applies before it insists on outward
/// conversion succeeding.  It reports whether the value holds an error
/// value anywhere in its closure — the one kind whose codes can lack an
/// external representation — and treats a value whose handles do not
/// resolve as might-fail too.
#[verifier::rlimit(100)]
pub fn scval_conversion_might_fail(env: &Env, v: &RawVal) -> (r: bool)
    requires
        env_wf(*env),
    ensures
        rv_model(*env, *v) is Some ==> r == contains_error(some_or_void(rv_model(*env, *v))),
        rv_model(*env, *v) is None ==> r == true,
    decreases rv_cmeasure(*v), 1int,
{
    if !env.check_val(v) {
        return true;
    }
    match v {
        RawVal::Error(..) => true,
        RawVal::Vec(h) => might_fail_vec(env, *h),
        RawVal::MapVal(h) => might_fail_map(env, *h),
        _ => false,
    }
}

/// The error screen over a vector object's elements.
#[verifier::loop_isolation(false)]
#[verifier::rlimit(100)]
fn might_fail_vec(env: &Env, h: Handle) -> (r: bool)
    requires
        env_wf(*env),
        rv_model(*env, RawVal::Vec(h)) is Some,
    ensures
        r == contains_error(some_or_void(rv_model(*env, RawVal::Vec(h)))),
    decreases h.idx + 1, 0int,
{
    let ghost m = some_or_void(rv_model(*env, RawVal::Vec(h)));
    let ghost sa = vec_payload_of(m);
    let o = match env.resolve(h) {
        Result::Ok(o) => o,
        Result::Err(..) => {
            proof {
                assert(false);
            }
            return true;
        },
    };
    match o {
        HostObject::Vec(elems) => {
            proof {
                lemma_vals_model_index(*env, elems@, h.idx as int);
                assert(sa.len() == elems@.len());
            }
            let n = elems.len();
            let mut k: usize = 0;
            while k < n
                invariant
                    k <= n,
                    forall|j: int| 0 <= j < k ==> !contains_error(#[trigger] sa[j]),
                decreases n - k,
            {
                proof {
                    lemma_cmeasure_below(*env, elems@[k as int], h.idx as int);
                    lemma_rv_model_mono(*env, elems@[k as int], h.idx as int, env.objs@.len() as int);
                }
                if scval_conversion_might_fail(env, &elems[k]) {
                    proof {
                        assert(contains_error(sa[k as int]));
                        crate::model::lemma_contains_error_seq_index(sa);
                    }
                    return true;
                }
                k += 1;
            }
            proof {
                crate::model::lemma_contains_error_seq_index(sa);
            }
            false
        },
        _ => {
            proof {
                assert(false);
            }
            true
        },
    }
}

/// The error screen over a map object's keys and values.
#[verifier::loop_isolation(false)]
#[verifier::rlimit(100)]
fn might_fail_map(env: &Env, h: Handle) -> (r: bool)
    requires
        env_wf(*env),
        rv_model(*env, RawVal::MapVal(h)) is Some,
    ensures
        r == contains_error(some_or_void(rv_model(*env, RawVal::MapVal(h)))),
    decreases h.idx + 1, 0int,
{
    let ghost m = some_or_void(rv_model(*env, RawVal::MapVal(h)));
    let ghost sa = map_payload_of(m);
    let o = match env.resolve(h) {
        Result::Ok(o) => o,
        Result::Err(..) => {
            proof {
                assert(false);
            }
            return true;
        },
    };
    match o {
        HostObject::MapVal(pairs) => {
            proof {
                lemma_pairs_model_index(*env, pairs@, h.idx as int);
                assert(sa.len() == pairs@.len());
            }
            let n = pairs.len();
            let mut k: usize = 0;
            while k < n
                invariant
                    k <= n,
                    forall|j: int|
                        0 <= j < k ==> !contains_error((#[trigger] sa[j]).0) && !contains_error(
                            sa[j].1,
                        ),
                decreases n - k,
            {
                proof {
                    lemma_cmeasure_below(*env, pairs@[k as int].0, h.idx as int);
                    lemma_cmeasure_below(*env, pairs@[k as int].1, h.idx as int);
                    lemma_rv_model_mono(
                        *env,
                        pairs@[k as int].0,
                        h.idx as int,
                        env.objs@.len() as int,
                    );
                    lemma_rv_model_mono(
                        *env,
                        pairs@[k as int].1,
                        h.idx as int,
                        env.objs@.len() as int,
                    );
                }
                if scval_conversion_might_fail(env, &pairs[k].0) {
                    proof {
                        assert(contains_error(sa[k as int].0));
                        crate::model::lemma_contains_error_pairs_index(sa);
                    }
                    return true;
                }
                if scval_conversion_might_fail(env, &pairs[k].1) {
                    proof {
                        assert(contains_error(sa[k as int].1));
                        crate::model::lemma_contains_error_pairs_index(sa);
                    }
                    return true;
                }
                k += 1;
            }
            proof {
                crate::model::lemma_contains_error_pairs_index(sa);
            }
            false
        },
        _ => {
            proof {
                assert(false);
            }
            true
        },
    }
}

} // verus!
