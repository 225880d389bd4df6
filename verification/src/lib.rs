//! A value model for smart-contract data: a compact tagged representation
//! whose composite payloads live in an environment-owned object store, a
//! self-describing external representation, a total-order comparator that
//! agrees across both representations, and byte-oracle generators that
//! produce well-formed values of every kind.

use vstd::prelude::*;

mod model;
mod val;
mod env;
mod compare;
mod scval;
mod convert;
mod laws;
mod harness;
mod arbitrary;
mod user_types;

pub use model::{
    cmp_bytes, cmp_pairs, cmp_seq, contains_error, lemma_cmp_eq_iff, lemma_cmp_flip,
    lemma_cmp_refl, lemma_cmp_trans, lemma_map_build_swap_adjacent, lemma_map_set_commute,
    lemma_sorted_pairwise, map_build, map_set, pairs_sorted,
    rank, serializable, spec_cmp, valid_shape, SpecVal, ADDRESS_LEN, ERROR_CODE_LIMIT,
    SYMBOL_MAX_LEN,
};
pub use val::{
    from_inline_spec, from_obj_spec, inline_payload_spec, is_inline_tag, is_object_tag,
    obj_handle_spec, tag_of, tag_of_code, ConversionError, Error, Handle, RawVal, Tag,
};
pub use env::{
    env_extends, env_wf, handle_live, payload_model, payload_ok, rv_model, some_or_void, Env,
    HostObject,
};
pub use scval::{sc_cmp, sv_view, Budget, Int256Parts, ScVal, UInt256Parts};
pub use convert::{from_scval, scval_conversion_might_fail, to_scval};
pub use laws::{lemma_duplicate_key_not_valid, lemma_equal_iff_same, lemma_prefix_less};
pub use harness::{budget_agreement, compare_agreement, round_trip_external, round_trip_tagged, screen_admits};
pub use user_types::{Bar, Foo, PrivEnum, PrivEnumInt, PrivStruct, PrivStructPubFields, PrivTupleStruct, PrivTupleStructPubFields, PubCrateEnum, PubCrateStruct, PubEnum, PubEnumInt, PubStruct, PubStructPubFields, PubTupleStruct, PubTupleStructPubFields};
pub use arbitrary::{ArbitraryAddress, ArbitraryBytes, ArbitraryBytesN, ArbitraryDuration, ArbitraryI256, ArbitraryRawVal, ArbitraryRawValMap, ArbitraryRawValVec, ArbitraryMap, ArbitraryString, ArbitrarySymbol, ArbitraryTimepoint, ArbitraryU256, ArbitraryVec, ByteOracle, SorobanArbitrary};

verus! {

/// The error code a trapped execution surfaces for each failure kind.
pub open spec fn panic_code(e: ConversionError) -> u32 {
    match e {
        ConversionError::InvalidTag => 1,
        ConversionError::UnresolvableHandle => 2,
        ConversionError::NotSerializable => 3,
        ConversionError::InvalidShape => 4,
        ConversionError::Overflow => 5,
    }
}

/// Turns a failure into the error value a trapped execution hands to its
/// caller, so that a failing operation ends in a value, never in a crash.
pub fn handle_panic(e: ConversionError) -> (r: RawVal)
    ensures
        r == RawVal::Error(panic_code(e)),
{
    match e {
        ConversionError::InvalidTag => RawVal::Error(1),
        ConversionError::UnresolvableHandle => RawVal::Error(2),
        ConversionError::NotSerializable => RawVal::Error(3),
        ConversionError::InvalidShape => RawVal::Error(4),
        ConversionError::Overflow => RawVal::Error(5),
    }
}

/// Anchor that a build can call so the linker keeps this crate's objects;
/// it performs nothing at run time.
pub fn __link_sections()
    ensures
        true,
{
}

} // verus!
