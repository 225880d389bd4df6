//! The environment instance: an append-only object store owning every
//! composite payload, and the models that read a tagged value back into an
//! abstract value by resolving its handles.

use vstd::prelude::*;

use crate::model::{
    pairs_sorted, symbol_ok, spec_cmp, SpecVal, ADDRESS_LEN, SYMBOL_MAX_LEN,
};
use crate::val::{ConversionError, Handle, RawVal};
use core::cmp::Ordering;

verus! {

/// A heap object owned by the object store: the payload of every tagged
/// kind that does not fit inline.  The 256-bit kinds hold four limbs, most
/// significant first.
pub enum HostObject {
    U128(u128),
    I128(i128),
    U256(u64, u64, u64, u64),
    I256(i64, u64, u64, u64),
    Bytes(Vec<u8>),
    String(Vec<u8>),
    Symbol(Vec<u8>),
    Vec(Vec<RawVal>),
    MapVal(Vec<(RawVal, RawVal)>),
    Address(Vec<u8>),
}

/// An environment instance: an identifier distinguishing it from other
/// instances, and the object store it exclusively owns.  The store is
/// append-only: an object, once allocated, never moves or changes, so an
/// object can only refer to objects allocated before it.
pub struct Env {
    pub instance: u64,
    pub objs: Vec<HostObject>,
}

/// Whether a handle points into this environment's store.
pub open spec fn handle_live(env: Env, h: Handle) -> bool {
    h.owner == env.instance && h.idx < env.objs@.len()
}

/// The contained value of an optional abstract value, with a fixed
/// stand-in for absence so that the expression is total.
pub open spec fn some_or_void(o: Option<SpecVal>) -> SpecVal {
    match o {
        Option::Some(v) => v,
        Option::None => SpecVal::Void,
    }
}

/// The abstract value a tagged value denotes in an environment, resolving
/// container handles only below store slot `b`: `None` when a handle does
/// not resolve or resolves to an object of another kind than its tag.
///
/// The bound makes the definition total on every store, well formed or
/// not: in a well-formed store an object only refers to objects below it,
/// so the bound never bites there.
pub open spec fn rv_model_b(env: Env, v: RawVal, b: int) -> Option<SpecVal>
    decreases b, 1int, 0int,
{
    match v {
        RawVal::Void => Option::Some(SpecVal::Void),
        RawVal::Bool(x) => Option::Some(SpecVal::Bool(x)),
        RawVal::Error(x) => Option::Some(SpecVal::Error(x)),
        RawVal::U32(x) => Option::Some(SpecVal::U32(x)),
        RawVal::I32(x) => Option::Some(SpecVal::I32(x)),
        RawVal::U64(x) => Option::Some(SpecVal::U64(x)),
        RawVal::I64(x) => Option::Some(SpecVal::I64(x)),
        RawVal::Timepoint(x) => Option::Some(SpecVal::Timepoint(x)),
        RawVal::Duration(x) => Option::Some(SpecVal::Duration(x)),
        RawVal::U128(h) => if handle_live(env, h) {
            match env.objs@[h.idx as int] {
                HostObject::U128(x) => Option::Some(SpecVal::U128(x)),
                _ => Option::None,
            }
        } else {
            Option::None
        },
        RawVal::I128(h) => if handle_live(env, h) {
            match env.objs@[h.idx as int] {
                HostObject::I128(x) => Option::Some(SpecVal::I128(x)),
                _ => Option::None,
            }
        } else {
            Option::None
        },
        RawVal::U256(h) => if handle_live(env, h) {
            match env.objs@[h.idx as int] {
                HostObject::U256(x3, x2, x1, x0) => Option::Some(SpecVal::U256(x3, x2, x1, x0)),
                _ => Option::None,
            }
        } else {
            Option::None
        },
        RawVal::I256(h) => if handle_live(env, h) {
            match env.objs@[h.idx as int] {
                HostObject::I256(x3, x2, x1, x0) => Option::Some(SpecVal::I256(x3, x2, x1, x0)),
                _ => Option::None,
            }
        } else {
            Option::None
        },
        RawVal::Bytes(h) => if handle_live(env, h) {
            match env.objs@[h.idx as int] {
                HostObject::Bytes(s) => Option::Some(SpecVal::Bytes(s@)),
                _ => Option::None,
            }
        } else {
            Option::None
        },
        RawVal::String(h) => if handle_live(env, h) {
            match env.objs@[h.idx as int] {
                HostObject::String(s) => Option::Some(SpecVal::String(s@)),
                _ => Option::None,
            }
        } else {
            Option::None
        },
        RawVal::Symbol(h) => if handle_live(env, h) {
            match env.objs@[h.idx as int] {
                HostObject::Symbol(s) => Option::Some(SpecVal::Symbol(s@)),
                _ => Option::None,
            }
        } else {
            Option::None
        },
        RawVal::Vec(h) => if handle_live(env, h) && h.idx < b {
            match env.objs@[h.idx as int] {
                HostObject::Vec(elems) => match vals_model(env, elems@, h.idx as int) {
                    Option::Some(s) => Option::Some(SpecVal::Vec(Option::Some(s))),
                    Option::None => Option::None,
                },
                _ => Option::None,
            }
        } else {
            Option::None
        },
        RawVal::MapVal(h) => if handle_live(env, h) && h.idx < b {
            match env.objs@[h.idx as int] {
                HostObject::MapVal(pairs) => match pairs_model(env, pairs@, h.idx as int) {
                    Option::Some(s) => Option::Some(SpecVal::MapVal(Option::Some(s))),
                    Option::None => Option::None,
                },
                _ => Option::None,
            }
        } else {
            Option::None
        },
        RawVal::Address(h) => if handle_live(env, h) {
            match env.objs@[h.idx as int] {
                HostObject::Address(s) => Option::Some(SpecVal::Address(s@)),
                _ => Option::None,
            }
        } else {
            Option::None
        },
    }
}

/// The abstract values of a sequence of tagged values, container handles
/// resolved only below slot `b`; `None` when any element has no model.
pub open spec fn vals_model(env: Env, s: Seq<RawVal>, b: int) -> Option<Seq<SpecVal>>
    decreases b, 2int, s.len(),
{
    if s.len() == 0 {
        Option::Some(Seq::empty())
    } else {
        match rv_model_b(env, s[0], b) {
            Option::None => Option::None,
            Option::Some(m) => match vals_model(env, s.subrange(1, s.len() as int), b) {
                Option::None => Option::None,
                Option::Some(rest) => Option::Some(seq![m] + rest),
            },
        }
    }
}

/// The abstract values of a sequence of tagged key-value pairs, container
/// handles resolved only below slot `b`.
pub open spec fn pairs_model(env: Env, s: Seq<(RawVal, RawVal)>, b: int) -> Option<
    Seq<(SpecVal, SpecVal)>,
>
    decreases b, 2int, s.len(),
{
    if s.len() == 0 {
        Option::Some(Seq::empty())
    } else {
        match (rv_model_b(env, s[0].0, b), rv_model_b(env, s[0].1, b)) {
            (Option::Some(mk), Option::Some(mv)) => match pairs_model(
                env,
                s.subrange(1, s.len() as int),
                b,
            ) {
                Option::None => Option::None,
                Option::Some(rest) => Option::Some(seq![(mk, mv)] + rest),
            },
            _ => Option::None,
        }
    }
}

/// The abstract value a tagged value denotes in an environment: `None`
/// exactly when some handle along the way does not resolve here.
pub open spec fn rv_model(env: Env, v: RawVal) -> Option<SpecVal> {
    rv_model_b(env, v, env.objs@.len() as int)
}

/// The abstract value a heap object would denote were it stored in this
/// environment, its payload's handles resolved against the current store.
pub open spec fn payload_model(env: Env, obj: HostObject) -> Option<SpecVal> {
    match obj {
        HostObject::U128(x) => Option::Some(SpecVal::U128(x)),
        HostObject::I128(x) => Option::Some(SpecVal::I128(x)),
        HostObject::U256(x3, x2, x1, x0) => Option::Some(SpecVal::U256(x3, x2, x1, x0)),
        HostObject::I256(x3, x2, x1, x0) => Option::Some(SpecVal::I256(x3, x2, x1, x0)),
        HostObject::Bytes(s) => Option::Some(SpecVal::Bytes(s@)),
        HostObject::String(s) => Option::Some(SpecVal::String(s@)),
        HostObject::Symbol(s) => Option::Some(SpecVal::Symbol(s@)),
        HostObject::Vec(elems) => match vals_model(env, elems@, env.objs@.len() as int) {
            Option::Some(s) => Option::Some(SpecVal::Vec(Option::Some(s))),
            Option::None => Option::None,
        },
        HostObject::MapVal(pairs) => match pairs_model(env, pairs@, env.objs@.len() as int) {
            Option::Some(s) => Option::Some(SpecVal::MapVal(Option::Some(s))),
            Option::None => Option::None,
        },
        HostObject::Address(s) => Option::Some(SpecVal::Address(s@)),
    }
}

/// The tagged value that refers to a heap object of this kind through the
/// given handle.
pub open spec fn rv_of_handle(obj: HostObject, h: Handle) -> RawVal {
    match obj {
        HostObject::U128(..) => RawVal::U128(h),
        HostObject::I128(..) => RawVal::I128(h),
        HostObject::U256(..) => RawVal::U256(h),
        HostObject::I256(..) => RawVal::I256(h),
        HostObject::Bytes(..) => RawVal::Bytes(h),
        HostObject::String(..) => RawVal::String(h),
        HostObject::Symbol(..) => RawVal::Symbol(h),
        HostObject::Vec(..) => RawVal::Vec(h),
        HostObject::MapVal(..) => RawVal::MapVal(h),
        HostObject::Address(..) => RawVal::Address(h),
    }
}

/// Well-formedness of the object in slot `i`: every tagged value in its
/// payload has a model resolving strictly below `i`, symbols and addresses
/// meet their byte constraints, and map entries are strictly sorted by the
/// order on their keys' models.
pub open spec fn obj_wf(env: Env, i: int) -> bool {
    match env.objs@[i] {
        HostObject::Symbol(s) => symbol_ok(s@),
        HostObject::Address(s) => s@.len() == ADDRESS_LEN,
        HostObject::Vec(elems) => forall|j: int|
            0 <= j < elems@.len() ==> rv_model_b(env, #[trigger] elems@[j], i) is Some,
        HostObject::MapVal(pairs) => {
            &&& forall|j: int|
                0 <= j < pairs@.len() ==> rv_model_b(env, (#[trigger] pairs@[j]).0, i) is Some
                    && rv_model_b(env, pairs@[j].1, i) is Some
            &&& forall|j: int|
                0 <= j && j + 1 < pairs@.len() ==> #[trigger] spec_cmp(
                    some_or_void(rv_model_b(env, pairs@[j].0, i)),
                    some_or_void(rv_model_b(env, pairs@[j + 1].0, i)),
                ) == Ordering::Less
        },
        _ => true,
    }
}

/// Well-formedness of an environment: every stored object is well formed.
/// Allocation establishes this and every operation preserves it.
pub open spec fn env_wf(env: Env) -> bool {
    forall|i: int| 0 <= i < env.objs@.len() ==> #[trigger] obj_wf(env, i)
}

/// The second environment is the first with zero or more objects appended:
/// same instance, same objects in the shared prefix.
pub open spec fn env_extends(e1: Env, e2: Env) -> bool {
    &&& e2.instance == e1.instance
    &&& e1.objs@.len() <= e2.objs@.len()
    &&& forall|i: int| 0 <= i < e1.objs@.len() ==> e1.objs@[i] == #[trigger] e2.objs@[i]
}

/// Extension is reflexive and composes.
pub proof fn lemma_extends_trans(e1: Env, e2: Env, e3: Env)
    requires
        env_extends(e1, e2),
        env_extends(e2, e3),
    ensures
        env_extends(e1, e3),
{
}

/// A sequence of tagged values has a model exactly when each element has
/// one, and then the model sequence is the elementwise model.
pub proof fn lemma_vals_model_index(env: Env, s: Seq<RawVal>, b: int)
    ensures
        (vals_model(env, s, b) is Some) <==> (forall|j: int|
            0 <= j < s.len() ==> rv_model_b(env, #[trigger] s[j], b) is Some),
        vals_model(env, s, b) matches Option::Some(ms) ==> ms.len() == s.len() && (forall|j: int|
            0 <= j < s.len() ==> ms[j] == some_or_void(rv_model_b(env, #[trigger] s[j], b))),
    decreases s.len(),
{
    if s.len() > 0 {
        let t = s.subrange(1, s.len() as int);
        lemma_vals_model_index(env, t, b);
        assert forall|j: int| 1 <= j < s.len() implies s[j] == t[j - 1] by {}
        if vals_model(env, s, b) is Some {
            let ms = vals_model(env, s, b).unwrap();
            let mt = vals_model(env, t, b).unwrap();
            assert(ms == seq![some_or_void(rv_model_b(env, s[0], b))] + mt);
            assert forall|j: int| 0 <= j < s.len() implies ms[j] == some_or_void(
                rv_model_b(env, #[trigger] s[j], b),
            ) by {
                if j > 0 {
                    assert(ms[j] == mt[j - 1]);
                    assert(s[j] == t[j - 1]);
                }
            }
        } else {
            if rv_model_b(env, s[0], b) is Some {
                assert(vals_model(env, t, b) is None);
            }
        }
    }
}

/// A sequence of tagged pairs has a model exactly when each component has
/// one, and then the model sequence is the componentwise model.
pub proof fn lemma_pairs_model_index(env: Env, s: Seq<(RawVal, RawVal)>, b: int)
    ensures
        (pairs_model(env, s, b) is Some) <==> (forall|j: int|
            0 <= j < s.len() ==> rv_model_b(env, (#[trigger] s[j]).0, b) is Some && rv_model_b(
                env,
                s[j].1,
                b,
            ) is Some),
        pairs_model(env, s, b) matches Option::Some(ms) ==> ms.len() == s.len() && (forall|j: int|
            0 <= j < s.len() ==> (#[trigger] ms[j]).0 == some_or_void(
                rv_model_b(env, s[j].0, b),
            ) && ms[j].1 == some_or_void(rv_model_b(env, s[j].1, b))),
    decreases s.len(),
{
    if s.len() > 0 {
        let t = s.subrange(1, s.len() as int);
        lemma_pairs_model_index(env, t, b);
        assert forall|j: int| 1 <= j < s.len() implies s[j] == t[j - 1] by {}
        if pairs_model(env, s, b) is Some {
            let ms = pairs_model(env, s, b).unwrap();
            let mt = pairs_model(env, t, b).unwrap();
            assert(ms == seq![
                (
                    some_or_void(rv_model_b(env, s[0].0, b)),
                    some_or_void(rv_model_b(env, s[0].1, b)),
                ),
            ] + mt);
            assert forall|j: int| 0 <= j < s.len() implies (#[trigger] ms[j]).0 == some_or_void(
                rv_model_b(env, s[j].0, b),
            ) && ms[j].1 == some_or_void(rv_model_b(env, s[j].1, b)) by {
                if j > 0 {
                    assert(ms[j] == mt[j - 1]);
                    assert(s[j] == t[j - 1]);
                }
            }
        } else {
            if rv_model_b(env, s[0].0, b) is Some && rv_model_b(env, s[0].1, b) is Some {
                assert(pairs_model(env, t, b) is None);
            }
        }
    }
}

/// A model found below a bound is unchanged when the bound is relaxed: the
/// bound only gates the outermost container handle.
pub proof fn lemma_rv_model_mono(env: Env, v: RawVal, b1: int, b2: int)
    requires
        b1 <= b2,
        rv_model_b(env, v, b1) is Some,
    ensures
        rv_model_b(env, v, b2) == rv_model_b(env, v, b1),
{
}

/// Models already resolved in an environment are unchanged in any
/// extension of it.
pub proof fn lemma_rv_model_extends(e1: Env, e2: Env, v: RawVal, b: int)
    requires
        env_extends(e1, e2),
        b <= e1.objs@.len(),
        rv_model_b(e1, v, b) is Some,
    ensures
        rv_model_b(e2, v, b) == rv_model_b(e1, v, b),
    decreases b, 1int, 0int,
{
    match v {
        RawVal::Vec(h) => {
            assert(env_extends(e1, e2));
            assert(e1.objs@[h.idx as int] == e2.objs@[h.idx as int]);
            match e1.objs@[h.idx as int] {
                HostObject::Vec(elems) => {
                    lemma_vals_model_extends(e1, e2, elems@, h.idx as int);
                },
                _ => {},
            }
        },
        RawVal::MapVal(h) => {
            assert(e1.objs@[h.idx as int] == e2.objs@[h.idx as int]);
            match e1.objs@[h.idx as int] {
                HostObject::MapVal(pairs) => {
                    lemma_pairs_model_extends(e1, e2, pairs@, h.idx as int);
                },
                _ => {},
            }
        },
        RawVal::U128(h) | RawVal::I128(h) | RawVal::U256(h) | RawVal::I256(h) | RawVal::Bytes(h)
        | RawVal::String(h) | RawVal::Symbol(h) | RawVal::Address(h) => {
            assert(e1.objs@[h.idx as int] == e2.objs@[h.idx as int]);
        },
        _ => {},
    }
}

/// Element models already resolved in an environment are unchanged in any
/// extension of it.
pub proof fn lemma_vals_model_extends(e1: Env, e2: Env, s: Seq<RawVal>, b: int)
    requires
        env_extends(e1, e2),
        b <= e1.objs@.len(),
        vals_model(e1, s, b) is Some,
    ensures
        vals_model(e2, s, b) == vals_model(e1, s, b),
    decreases b, 2int, s.len(),
{
    if s.len() > 0 {
        lemma_rv_model_extends(e1, e2, s[0], b);
        lemma_vals_model_extends(e1, e2, s.subrange(1, s.len() as int), b);
    }
}

/// Pair models already resolved in an environment are unchanged in any
/// extension of it.
pub proof fn lemma_pairs_model_extends(e1: Env, e2: Env, s: Seq<(RawVal, RawVal)>, b: int)
    requires
        env_extends(e1, e2),
        b <= e1.objs@.len(),
        pairs_model(e1, s, b) is Some,
    ensures
        pairs_model(e2, s, b) == pairs_model(e1, s, b),
    decreases b, 2int, s.len(),
{
    if s.len() > 0 {
        lemma_rv_model_extends(e1, e2, s[0].0, b);
        lemma_rv_model_extends(e1, e2, s[0].1, b);
        lemma_pairs_model_extends(e1, e2, s.subrange(1, s.len() as int), b);
    }
}

/// In a well-formed environment the payload of a stored container object
/// has a model resolving below the object's own slot.
pub proof fn lemma_wf_obj_payload(env: Env, i: int)
    requires
        env_wf(env),
        0 <= i < env.objs@.len(),
    ensures
        match env.objs@[i] {
            HostObject::Vec(elems) => vals_model(env, elems@, i) is Some,
            HostObject::MapVal(pairs) => pairs_model(env, pairs@, i) is Some,
            _ => true,
        },
{
    assert(obj_wf(env, i));
    match env.objs@[i] {
        HostObject::Vec(elems) => {
            lemma_vals_model_index(env, elems@, i);
        },
        HostObject::MapVal(pairs) => {
            lemma_pairs_model_index(env, pairs@, i);
        },
        _ => {},
    }
}

/// In a well-formed environment a tagged value has a model exactly when
/// its own handle, if it has one, is live and names an object of its
/// tag's kind.
pub proof fn lemma_wf_model_some(env: Env, v: RawVal)
    requires
        env_wf(env),
    ensures
        rv_model(env, v) is Some <==> match crate::val::obj_handle_spec(v) {
            Result::Ok(h) => handle_live(env, h) && kind_matches(env.objs@[h.idx as int], v),
            Result::Err(..) => true,
        },
{
    match v {
        RawVal::Vec(h) => {
            if handle_live(env, h) {
                lemma_wf_obj_payload(env, h.idx as int);
            }
        },
        RawVal::MapVal(h) => {
            if handle_live(env, h) {
                lemma_wf_obj_payload(env, h.idx as int);
            }
        },
        _ => {},
    }
}

/// Whether a stored object is of the kind a tagged value's tag names.
pub open spec fn kind_matches(obj: HostObject, v: RawVal) -> bool {
    match (obj, v) {
        (HostObject::U128(..), RawVal::U128(..)) => true,
        (HostObject::I128(..), RawVal::I128(..)) => true,
        (HostObject::U256(..), RawVal::U256(..)) => true,
        (HostObject::I256(..), RawVal::I256(..)) => true,
        (HostObject::Bytes(..), RawVal::Bytes(..)) => true,
        (HostObject::String(..), RawVal::String(..)) => true,
        (HostObject::Symbol(..), RawVal::Symbol(..)) => true,
        (HostObject::Vec(..), RawVal::Vec(..)) => true,
        (HostObject::MapVal(..), RawVal::MapVal(..)) => true,
        (HostObject::Address(..), RawVal::Address(..)) => true,
        _ => false,
    }
}

/// A well-formed object stays well formed in any extension of its
/// environment.
pub proof fn lemma_obj_wf_extends(e1: Env, e2: Env, i: int)
    requires
        env_extends(e1, e2),
        0 <= i < e1.objs@.len(),
        obj_wf(e1, i),
    ensures
        obj_wf(e2, i),
{
    assert(e1.objs@[i] == e2.objs@[i]);
    match e1.objs@[i] {
        HostObject::Vec(elems) => {
            assert forall|j: int| 0 <= j < elems@.len() implies rv_model_b(
                e2,
                #[trigger] elems@[j],
                i,
            ) is Some by {
                lemma_rv_model_extends(e1, e2, elems@[j], i);
            }
        },
        HostObject::MapVal(pairs) => {
            assert forall|j: int| 0 <= j < pairs@.len() implies rv_model_b(
                e2,
                (#[trigger] pairs@[j]).0,
                i,
            ) is Some && rv_model_b(e2, pairs@[j].1, i) is Some by {
                lemma_rv_model_extends(e1, e2, pairs@[j].0, i);
                lemma_rv_model_extends(e1, e2, pairs@[j].1, i);
            }
            assert forall|j: int| 0 <= j && j + 1 < pairs@.len() implies #[trigger] spec_cmp(
                some_or_void(rv_model_b(e2, pairs@[j].0, i)),
                some_or_void(rv_model_b(e2, pairs@[j + 1].0, i)),
            ) == Ordering::Less by {
                lemma_rv_model_extends(e1, e2, pairs@[j].0, i);
                lemma_rv_model_extends(e1, e2, pairs@[j + 1].0, i);
                assert(spec_cmp(
                    some_or_void(rv_model_b(e1, pairs@[j].0, i)),
                    some_or_void(rv_model_b(e1, pairs@[j + 1].0, i)),
                ) == Ordering::Less);
            }
        },
        _ => {},
    }
}

/// Models already resolved in an environment are unchanged in any
/// extension of it, read with either store's own bound.
pub proof fn lemma_rv_model_extends_full(e1: Env, e2: Env, v: RawVal)
    requires
        env_extends(e1, e2),
        rv_model(e1, v) is Some,
    ensures
        rv_model(e2, v) == rv_model(e1, v),
{
    lemma_rv_model_extends(e1, e2, v, e1.objs@.len() as int);
    lemma_rv_model_mono(e2, v, e1.objs@.len() as int, e2.objs@.len() as int);
}

/// In a well-formed environment every model is a shape the tagged
/// representation can hold: no absent containers, symbols and addresses
/// within their byte constraints, map entries strictly sorted by key.
pub proof fn lemma_wf_model_valid_shape(env: Env, v: RawVal, b: int)
    requires
        env_wf(env),
        b <= env.objs@.len(),
        rv_model_b(env, v, b) is Some,
    ensures
        crate::model::valid_shape(some_or_void(rv_model_b(env, v, b))),
    decreases b, 1int, 0int,
{
    match v {
        RawVal::Symbol(h) => {
            assert(obj_wf(env, h.idx as int));
        },
        RawVal::Address(h) => {
            assert(obj_wf(env, h.idx as int));
        },
        RawVal::Vec(h) => {
            match env.objs@[h.idx as int] {
                HostObject::Vec(elems) => {
                    lemma_vals_model_valid_shape(env, elems@, h.idx as int);
                    crate::model::lemma_valid_shape_seq_index(
                        vals_model(env, elems@, h.idx as int).unwrap(),
                    );
                },
                _ => {},
            }
        },
        RawVal::MapVal(h) => {
            let i = h.idx as int;
            match env.objs@[i] {
                HostObject::MapVal(pairs) => {
                    lemma_pairs_model_valid_shape(env, pairs@, i);
                    crate::model::lemma_valid_shape_pairs_index(
                        pairs_model(env, pairs@, i).unwrap(),
                    );
                    assert(obj_wf(env, i));
                    let ms = pairs_model(env, pairs@, i).unwrap();
                    lemma_pairs_model_index(env, pairs@, i);
                    assert forall|j: int|
                        0 <= j && j + 1 < ms.len() implies #[trigger] spec_cmp(
                        ms[j].0,
                        ms[j + 1].0,
                    ) == Ordering::Less by {
                        assert(spec_cmp(
                            some_or_void(rv_model_b(env, pairs@[j].0, i)),
                            some_or_void(rv_model_b(env, pairs@[j + 1].0, i)),
                        ) == Ordering::Less);
                    }
                    assert(pairs_sorted(ms));
                },
                _ => {},
            }
        },
        _ => {},
    }
}

/// Element models of a well-formed store are all of valid shape.
pub proof fn lemma_vals_model_valid_shape(env: Env, s: Seq<RawVal>, b: int)
    requires
        env_wf(env),
        b <= env.objs@.len(),
        vals_model(env, s, b) is Some,
    ensures
        forall|j: int|
            0 <= j < vals_model(env, s, b).unwrap().len() ==> crate::model::valid_shape(
                #[trigger] vals_model(env, s, b).unwrap()[j],
            ),
    decreases b, 2int, s.len(),
{
    lemma_vals_model_index(env, s, b);
    let ms = vals_model(env, s, b).unwrap();
    assert forall|j: int| 0 <= j < ms.len() implies crate::model::valid_shape(
        #[trigger] ms[j],
    ) by {
        lemma_wf_model_valid_shape(env, s[j], b);
    }
}

/// Pair models of a well-formed store are all of valid shape in both
/// components.
pub proof fn lemma_pairs_model_valid_shape(env: Env, s: Seq<(RawVal, RawVal)>, b: int)
    requires
        env_wf(env),
        b <= env.objs@.len(),
        pairs_model(env, s, b) is Some,
    ensures
        forall|j: int|
            0 <= j < pairs_model(env, s, b).unwrap().len() ==> crate::model::valid_shape(
                (#[trigger] pairs_model(env, s, b).unwrap()[j]).0,
            ) && crate::model::valid_shape(pairs_model(env, s, b).unwrap()[j].1),
    decreases b, 2int, s.len(),
{
    lemma_pairs_model_index(env, s, b);
    let ms = pairs_model(env, s, b).unwrap();
    assert forall|j: int| 0 <= j < ms.len() implies crate::model::valid_shape(
        (#[trigger] ms[j]).0,
    ) && crate::model::valid_shape(ms[j].1) by {
        lemma_wf_model_valid_shape(env, s[j].0, b);
        lemma_wf_model_valid_shape(env, s[j].1, b);
    }
}

/// The shape conditions a payload must meet to be stored: symbols within
/// alphabet and length bound, addresses of the exact hash length, map
/// entries strictly sorted by the order on their keys' models.
pub open spec fn payload_shape_ok(env: Env, obj: HostObject) -> bool {
    match obj {
        HostObject::Symbol(s) => symbol_ok(s@),
        HostObject::Address(s) => s@.len() == ADDRESS_LEN,
        HostObject::MapVal(pairs) => match pairs_model(env, pairs@, env.objs@.len() as int) {
            Option::Some(ms) => pairs_sorted(ms),
            Option::None => true,
        },
        _ => true,
    }
}

/// A payload the store accepts: every handle in it resolves here, and the
/// shape conditions hold.
pub open spec fn payload_ok(env: Env, obj: HostObject) -> bool {
    payload_model(env, obj) is Some && payload_shape_ok(env, obj)
}

/// Whether a byte is in the symbol alphabet.
pub(crate) fn symbol_byte(b: u8) -> (r: bool)
    ensures
        r == crate::model::is_symbol_byte(b),
{
    b == 95 || (48 <= b && b <= 57) || (65 <= b && b <= 90) || (97 <= b && b <= 122)
}

/// Whether a byte buffer is a well-formed symbol payload.
#[verifier::loop_isolation(false)]
pub(crate) fn symbol_bytes_ok(s: &Vec<u8>) -> (r: bool)
    ensures
        r == symbol_ok(s@),
{
    if s.len() > SYMBOL_MAX_LEN {
        return false;
    }
    let n = s.len();
    let mut k: usize = 0;
    while k < n
        invariant
            k <= n,
            forall|j: int| 0 <= j < k ==> crate::model::is_symbol_byte(s@[j]),
        decreases n - k,
    {
        if !symbol_byte(s[k]) {
            return false;
        }
        k += 1;
    }
    true
}

impl Env {
    /// A fresh environment instance with the given identifier and an empty
    /// object store.
    pub fn new(instance: u64) -> (r: Env)
        ensures
            r.instance == instance,
            r.objs@.len() == 0,
            env_wf(r),
    {
        Env { instance, objs: Vec::new() }
    }

    /// Resolves a handle to the object it names.  Fails fast with
    /// `UnresolvableHandle` when the handle belongs to another environment
    /// instance or names no allocated slot.
    pub fn resolve(&self, h: Handle) -> (r: Result<&HostObject, ConversionError>)
        ensures
            match r {
                Result::Ok(o) => handle_live(*self, h) && *o == self.objs@[h.idx as int],
                Result::Err(e) => e == ConversionError::UnresolvableHandle && !handle_live(
                    *self,
                    h,
                ),
            },
    {
        if h.owner == self.instance && h.idx < self.objs.len() {
            Result::Ok(&self.objs[h.idx])
        } else {
            Result::Err(ConversionError::UnresolvableHandle)
        }
    }

    /// Whether a tagged value has a model here: its handle, if it has one,
    /// is live and names an object of its tag's kind.
    pub fn check_val(&self, v: &RawVal) -> (r: bool)
        requires
            env_wf(*self),
        ensures
            r == (rv_model(*self, *v) is Some),
    {
        proof {
            lemma_wf_model_some(*self, *v);
        }
        match v {
            RawVal::Void | RawVal::Bool(..) | RawVal::Error(..) | RawVal::U32(..)
            | RawVal::I32(..) | RawVal::U64(..) | RawVal::I64(..) | RawVal::Timepoint(..)
            | RawVal::Duration(..) => true,
            RawVal::U128(h) => match self.resolve(*h) {
                Result::Ok(o) => matches!(o, HostObject::U128(..)),
                Result::Err(..) => false,
            },
            RawVal::I128(h) => match self.resolve(*h) {
                Result::Ok(o) => matches!(o, HostObject::I128(..)),
                Result::Err(..) => false,
            },
            RawVal::U256(h) => match self.resolve(*h) {
                Result::Ok(o) => matches!(o, HostObject::U256(..)),
                Result::Err(..) => false,
            },
            RawVal::I256(h) => match self.resolve(*h) {
                Result::Ok(o) => matches!(o, HostObject::I256(..)),
                Result::Err(..) => false,
            },
            RawVal::Bytes(h) => match self.resolve(*h) {
                Result::Ok(o) => matches!(o, HostObject::Bytes(..)),
                Result::Err(..) => false,
            },
            RawVal::String(h) => match self.resolve(*h) {
                Result::Ok(o) => matches!(o, HostObject::String(..)),
                Result::Err(..) => false,
            },
            RawVal::Symbol(h) => match self.resolve(*h) {
                Result::Ok(o) => matches!(o, HostObject::Symbol(..)),
                Result::Err(..) => false,
            },
            RawVal::Vec(h) => match self.resolve(*h) {
                Result::Ok(o) => matches!(o, HostObject::Vec(..)),
                Result::Err(..) => false,
            },
            RawVal::MapVal(h) => match self.resolve(*h) {
                Result::Ok(o) => matches!(o, HostObject::MapVal(..)),
                Result::Err(..) => false,
            },
            RawVal::Address(h) => match self.resolve(*h) {
                Result::Ok(o) => matches!(o, HostObject::Address(..)),
                Result::Err(..) => false,
            },
        }
    }

    /// Stores a heap object, handing back the handle that names it.  The
    /// store is append-only, so every object the payload refers to was
    /// allocated earlier and well-formedness is preserved.  Fails with
    /// `UnresolvableHandle` when the payload holds a handle that does not
    /// resolve here, and with `InvalidShape` when the payload breaks its
    /// kind's shape conditions; a failed call leaves the store untouched.
    #[verifier::loop_isolation(false)]
    #[verifier::rlimit(60)]
    pub fn allocate(&mut self, obj: HostObject) -> (r: Result<Handle, ConversionError>)
        requires
            env_wf(*old(self)),
        ensures
            env_wf(*final(self)),
            env_extends(*old(self), *final(self)),
            match r {
                Result::Ok(h) => {
                    &&& payload_ok(*old(self), obj)
                    &&& final(self).objs@ == old(self).objs@.push(obj)
                    &&& h.idx == old(self).objs@.len()
                    &&& h.owner == old(self).instance
                    &&& rv_model(*final(self), rv_of_handle(obj, h)) == Option::Some(
                        some_or_void(payload_model(*old(self), obj)),
                    )
                },
                Result::Err(e) => {
                    &&& *final(self) == *old(self)
                    &&& !payload_ok(*old(self), obj)
                    &&& (e == ConversionError::UnresolvableHandle || e
                        == ConversionError::InvalidShape)
                    &&& (e == ConversionError::UnresolvableHandle ==> payload_model(
                        *old(self),
                        obj,
                    ) is None)
                    &&& (e == ConversionError::InvalidShape ==> payload_model(*old(self), obj)
                        is Some && !payload_shape_ok(*old(self), obj))
                },
            },
    {
        let ghost old_env = *self;
        let ghost bound = self.objs@.len() as int;
        match &obj {
            HostObject::Symbol(s) => {
                if !symbol_bytes_ok(s) {
                    return Result::Err(ConversionError::InvalidShape);
                }
            },
            HostObject::Address(s) => {
                if s.len() != ADDRESS_LEN {
                    return Result::Err(ConversionError::InvalidShape);
                }
            },
            HostObject::Vec(elems) => {
                let n = elems.len();
                let mut k: usize = 0;
                while k < n
                    invariant
                        k <= n,
                        forall|j: int|
                            0 <= j < k ==> rv_model_b(old_env, #[trigger] elems@[j], bound)
                                is Some,
                    decreases n - k,
                {
                    if !self.check_val(&elems[k]) {
                        proof {
                            lemma_vals_model_index(old_env, elems@, bound);
                        }
                        return Result::Err(ConversionError::UnresolvableHandle);
                    }
                    k += 1;
                }
                proof {
                    lemma_vals_model_index(old_env, elems@, bound);
                }
            },
            HostObject::MapVal(pairs) => {
                let n = pairs.len();
                let mut k: usize = 0;
                while k < n
                    invariant
                        k <= n,
                        forall|j: int|
                            0 <= j < k ==> rv_model_b(old_env, (#[trigger] pairs@[j]).0, bound)
                                is Some && rv_model_b(old_env, pairs@[j].1, bound) is Some,
                    decreases n - k,
                {
                    if !self.check_val(&pairs[k].0) || !self.check_val(&pairs[k].1) {
                        proof {
                            lemma_pairs_model_index(old_env, pairs@, bound);
                        }
                        return Result::Err(ConversionError::UnresolvableHandle);
                    }
                    k += 1;
                }
                proof {
                    lemma_pairs_model_index(old_env, pairs@, bound);
                }
                let ghost ms = pairs_model(old_env, pairs@, bound).unwrap();
                if n > 0 {
                    let mut k: usize = 0;
                    while k + 1 < n
                        invariant
                            k < n,
                            forall|j: int|
                                0 <= j && j + 1 <= k ==> #[trigger] spec_cmp(
                                    ms[j].0,
                                    ms[j + 1].0,
                                ) == Ordering::Less,
                        decreases n - k,
                    {
                        let c = match crate::compare::cmp_rv(self, &pairs[k].0, &pairs[k + 1].0) {
                            Result::Ok(c) => c,
                            Result::Err(..) => {
                                proof {
                                    assert(false);
                                }
                                return Result::Err(ConversionError::UnresolvableHandle);
                            },
                        };
                        match c {
                            Ordering::Less => {
                                k += 1;
                            },
                            _ => {
                                proof {
                                    let i = k as int;
                                    assert(ms[i].0 == some_or_void(
                                        rv_model_b(old_env, pairs@[i].0, bound),
                                    ));
                                    assert(ms[i + 1].0 == some_or_void(
                                        rv_model_b(old_env, pairs@[i + 1].0, bound),
                                    ));
                                    assert(spec_cmp(ms[i].0, ms[i + 1].0) != Ordering::Less);
                                    assert(!pairs_sorted(ms));
                                }
                                return Result::Err(ConversionError::InvalidShape);
                            },
                        }
                    }
                }
                proof {
                    assert(pairs_sorted(ms));
                }
            },
            _ => {},
        }
        let ghost gobj = obj;
        let idx = self.objs.len();
        let h = Handle { idx, owner: self.instance };
        self.objs.push(obj);
        proof {
            let new_env = *self;
            assert(env_extends(old_env, new_env));
            assert forall|i: int| 0 <= i < new_env.objs@.len() implies #[trigger] obj_wf(
                new_env,
                i,
            ) by {
                if i < old_env.objs@.len() {
                    assert(obj_wf(old_env, i));
                    lemma_obj_wf_extends(old_env, new_env, i);
                } else {
                    assert(new_env.objs@[i] == gobj);
                    match gobj {
                        HostObject::Vec(elems) => {
                            lemma_vals_model_index(old_env, elems@, bound);
                            assert forall|j: int| 0 <= j < elems@.len() implies rv_model_b(
                                new_env,
                                #[trigger] elems@[j],
                                i,
                            ) is Some by {
                                lemma_rv_model_extends(old_env, new_env, elems@[j], bound);
                            }
                        },
                        HostObject::MapVal(pairs) => {
                            lemma_pairs_model_index(old_env, pairs@, bound);
                            let ms = pairs_model(old_env, pairs@, bound).unwrap();
                            assert forall|j: int| 0 <= j < pairs@.len() implies rv_model_b(
                                new_env,
                                (#[trigger] pairs@[j]).0,
                                i,
                            ) is Some && rv_model_b(new_env, pairs@[j].1, i) is Some by {
                                lemma_rv_model_extends(old_env, new_env, pairs@[j].0, bound);
                                lemma_rv_model_extends(old_env, new_env, pairs@[j].1, bound);
                            }
                            assert forall|j: int|
                                0 <= j && j + 1 < pairs@.len() implies #[trigger] spec_cmp(
                                some_or_void(rv_model_b(new_env, pairs@[j].0, i)),
                                some_or_void(rv_model_b(new_env, pairs@[j + 1].0, i)),
                            ) == Ordering::Less by {
                                lemma_rv_model_extends(old_env, new_env, pairs@[j].0, bound);
                                lemma_rv_model_extends(old_env, new_env, pairs@[j + 1].0, bound);
                                assert(spec_cmp(ms[j].0, ms[j + 1].0) == Ordering::Less);
                            }
                        },
                        _ => {},
                    }
                }
            }
            match gobj {
                HostObject::Vec(elems) => {
                    lemma_vals_model_extends(old_env, new_env, elems@, bound);
                },
                HostObject::MapVal(pairs) => {
                    lemma_pairs_model_extends(old_env, new_env, pairs@, bound);
                },
                _ => {},
            }
        }
        Result::Ok(h)
    }
}

} // verus!
