//! The differential checks the property harness runs on generated values.
//! Each check is itself verified: what the harness once asserted at run
//! time is proved here for every input, so a check can only report
//! agreement.

use vstd::prelude::*;

use crate::model::{
    contains_error, lemma_cmp_refl, lemma_no_error_serializable, serializable, spec_cmp,
    valid_shape,
};
use crate::env::{
    env_extends, env_wf, lemma_rv_model_extends_full, rv_model, some_or_void, Env,
};
use crate::convert::{from_scval, to_scval};
use crate::scval::{sc_cmp, Budget, ScVal};
use crate::val::RawVal;
use core::cmp::Ordering;

verus! {

/// Comparator consistency: converts both tagged values outward and
/// compares in both representations.  Whenever both conversions succeed
/// the two outcomes are returned, and they are proved equal; the check
/// declines exactly when a value does not resolve here or is not
/// serializable.
pub fn compare_agreement(env: &Env, a: &RawVal, b: &RawVal) -> (r: Option<(Ordering, Ordering)>)
    requires
        env_wf(*env),
    ensures
        r matches Option::Some(p) ==> p.0 == p.1 && p.0 == spec_cmp(
            some_or_void(rv_model(*env, *a)),
            some_or_void(rv_model(*env, *b)),
        ),
        (r is Some) <==> {
            &&& rv_model(*env, *a) is Some
            &&& rv_model(*env, *b) is Some
            &&& serializable(some_or_void(rv_model(*env, *a)))
            &&& serializable(some_or_void(rv_model(*env, *b)))
        },
{
    let ea = match to_scval(env, a) {
        Result::Ok(e) => e,
        Result::Err(..) => {
            return Option::None;
        },
    };
    let eb = match to_scval(env, b) {
        Result::Ok(e) => e,
        Result::Err(..) => {
            return Option::None;
        },
    };
    let tagged = match env.compare(a, b) {
        Result::Ok(c) => c,
        Result::Err(..) => {
            proof {
                assert(false);
            }
            return Option::None;
        },
    };
    let external = sc_cmp(&ea, &eb);
    Option::Some((tagged, external))
}

/// Comparator consistency for the metered comparator: the budget's
/// outcome is the unmetered external comparator's outcome.
pub fn budget_agreement(budget: &mut Budget, a: &ScVal, b: &ScVal) -> (r: (Ordering, Ordering))
    ensures
        r.0 == spec_cmp(a@, b@),
        r.1 == spec_cmp(a@, b@),
        final(budget).steps >= old(budget).steps,
{
    let metered = match budget.compare(a, b) {
        Result::Ok(c) => c,
        Result::Err(..) => {
            proof {
                assert(false);
            }
            return (Ordering::Equal, Ordering::Equal);
        },
    };
    let plain = sc_cmp(a, b);
    (metered, plain)
}

/// Round-trip idempotence: converts a tagged value outward and back, and
/// compares the result with the original.  Whenever the outward leg
/// succeeds the whole trip succeeds and the comparison is proved to come
/// out equal.
pub fn round_trip_tagged(env: &mut Env, v: &RawVal) -> (r: Option<Ordering>)
    requires
        env_wf(*old(env)),
    ensures
        env_wf(*final(env)),
        env_extends(*old(env), *final(env)),
        r matches Option::Some(c) ==> c == Ordering::Equal,
        (r is Some) <==> (rv_model(*old(env), *v) is Some && serializable(
            some_or_void(rv_model(*old(env), *v)),
        )),
{
    let e = match to_scval(env, v) {
        Result::Ok(e) => e,
        Result::Err(..) => {
            return Option::None;
        },
    };
    let v2 = match from_scval(env, &e) {
        Result::Ok(v2) => v2,
        Result::Err(..) => {
            proof {
                assert(false);
            }
            return Option::None;
        },
    };
    proof {
        lemma_rv_model_extends_full(*old(env), *env, *v);
    }
    let c = match env.compare(v, &v2) {
        Result::Ok(c) => c,
        Result::Err(..) => {
            proof {
                assert(false);
            }
            return Option::None;
        },
    };
    proof {
        lemma_cmp_refl(some_or_void(rv_model(*old(env), *v)));
    }
    Option::Some(c)
}

/// Reverse round trip: converts an external value inward and back out.
/// Whenever the inward leg succeeds the outward leg succeeds too, and
/// the value that comes back denotes the same abstract value as the
/// original.
pub fn round_trip_external(env: &mut Env, e: &ScVal) -> (r: Option<ScVal>)
    requires
        env_wf(*old(env)),
    ensures
        env_wf(*final(env)),
        env_extends(*old(env), *final(env)),
        r matches Option::Some(e2) ==> e2@ == e@,
        (r is Some) <==> (valid_shape(e@) && serializable(e@)),
{
    let v = match from_scval(env, e) {
        Result::Ok(v) => v,
        Result::Err(..) => {
            return Option::None;
        },
    };
    match to_scval(env, &v) {
        Result::Ok(e2) => Option::Some(e2),
        Result::Err(..) => {
            proof {
                assert(false);
            }
            Option::None
        },
    }
}

/// The screen the harness applies before insisting on agreement: it
/// admits exactly the values that resolve here and hold no error value
/// anywhere, and an admitted value is proved serializable, so
/// `compare_agreement` cannot decline on it.
pub fn screen_admits(env: &Env, v: &RawVal) -> (r: bool)
    requires
        env_wf(*env),
    ensures
        r == (rv_model(*env, *v) is Some && !contains_error(some_or_void(rv_model(*env, *v)))),
        r ==> serializable(some_or_void(rv_model(*env, *v))),
{
    let might_fail = crate::convert::scval_conversion_might_fail(env, v);
    proof {
        if !might_fail {
            lemma_no_error_serializable(some_or_void(rv_model(*env, *v)));
        }
    }
    !might_fail
}

} // verus!
