//! The compact tagged value: a discriminated union whose small scalars are
//! stored inline and whose composite payloads are object-store handles.

use vstd::prelude::*;

verus! {

/// The failures the value layer reports.  All of them come back as values,
/// never as panics.
#[derive(Clone, Copy, Debug, PartialEq, Eq, Structural)]
pub enum ConversionError {
    /// A tagged value was asked to carry a payload shape its tag does not
    /// have, or its tag is not one of the assigned kinds.
    InvalidTag,
    /// An object handle does not resolve in the environment at hand: out of
    /// range, owned by another environment instance, or of the wrong kind
    /// for its tag.
    UnresolvableHandle,
    /// A tagged value has no external representation: it holds an error
    /// value whose code is outside the reserved external code space.
    NotSerializable,
    /// An external value has no tagged counterpart: an absent-container
    /// sentinel, a symbol outside its alphabet or length bound, an address
    /// of the wrong length, or map entries not strictly sorted by key.
    InvalidShape,
    /// An inline payload does not fit the numeric range of its tag's kind.
    Overflow,
}

/// An error value: a status carried as a value, with a numeric code.
/// Codes at or above the reserved external code space still exist as
/// tagged values but have no external representation.
#[derive(Clone, Copy, Debug, PartialEq, Eq, Structural)]
pub struct Error {
    pub code: u32,
}

/// The tag of a value kind, plus `Bad` for an unrecognized tag code.
#[derive(Clone, Copy, Debug, PartialEq, Eq, Structural)]
pub enum Tag {
    Void,
    Bool,
    Error,
    U32,
    I32,
    U64,
    I64,
    Timepoint,
    Duration,
    U128,
    I128,
    U256,
    I256,
    Bytes,
    String,
    Symbol,
    Vec,
    MapVal,
    Address,
    Bad,
}

/// A non-owning reference to an object in an environment's object store:
/// the store slot, and the instance the store belongs to.
#[derive(Clone, Copy, Debug, PartialEq, Eq, Structural)]
pub struct Handle {
    pub idx: usize,
    pub owner: u64,
}

/// A tagged value.  Scalars whose payload fits the fixed width are inline;
/// every other kind carries a handle into its environment's object store.
#[derive(Clone, Copy, Debug, PartialEq, Eq, Structural)]
pub enum RawVal {
    Void,
    Bool(bool),
    Error(u32),
    U32(u32),
    I32(i32),
    U64(u64),
    I64(i64),
    Timepoint(u64),
    Duration(u64),
    U128(Handle),
    I128(Handle),
    U256(Handle),
    I256(Handle),
    Bytes(Handle),
    String(Handle),
    Symbol(Handle),
    Vec(Handle),
    MapVal(Handle),
    Address(Handle),
}

/// The tag a value carries.
pub open spec fn tag_of(v: RawVal) -> Tag {
    match v {
        RawVal::Void => Tag::Void,
        RawVal::Bool(..) => Tag::Bool,
        RawVal::Error(..) => Tag::Error,
        RawVal::U32(..) => Tag::U32,
        RawVal::I32(..) => Tag::I32,
        RawVal::U64(..) => Tag::U64,
        RawVal::I64(..) => Tag::I64,
        RawVal::Timepoint(..) => Tag::Timepoint,
        RawVal::Duration(..) => Tag::Duration,
        RawVal::U128(..) => Tag::U128,
        RawVal::I128(..) => Tag::I128,
        RawVal::U256(..) => Tag::U256,
        RawVal::I256(..) => Tag::I256,
        RawVal::Bytes(..) => Tag::Bytes,
        RawVal::String(..) => Tag::String,
        RawVal::Symbol(..) => Tag::Symbol,
        RawVal::Vec(..) => Tag::Vec,
        RawVal::MapVal(..) => Tag::MapVal,
        RawVal::Address(..) => Tag::Address,
    }
}

/// The tag assigned to a code on the wire; unassigned codes give `Bad`.
pub open spec fn tag_of_code(code: u8) -> Tag {
    match code {
        0u8 => Tag::Void,
        1u8 => Tag::Bool,
        2u8 => Tag::Error,
        3u8 => Tag::U32,
        4u8 => Tag::I32,
        5u8 => Tag::U64,
        6u8 => Tag::I64,
        7u8 => Tag::Timepoint,
        8u8 => Tag::Duration,
        9u8 => Tag::U128,
        10u8 => Tag::I128,
        11u8 => Tag::U256,
        12u8 => Tag::I256,
        13u8 => Tag::Bytes,
        14u8 => Tag::String,
        15u8 => Tag::Symbol,
        16u8 => Tag::Vec,
        17u8 => Tag::MapVal,
        18u8 => Tag::Address,
        _ => Tag::Bad,
    }
}

/// The tags whose payload is stored inline.
pub open spec fn is_inline_tag(t: Tag) -> bool {
    match t {
        Tag::Void | Tag::Bool | Tag::Error | Tag::U32 | Tag::I32 | Tag::U64 | Tag::I64
        | Tag::Timepoint | Tag::Duration => true,
        _ => false,
    }
}

/// The tags whose payload is an object handle.
pub open spec fn is_object_tag(t: Tag) -> bool {
    match t {
        Tag::U128 | Tag::I128 | Tag::U256 | Tag::I256 | Tag::Bytes | Tag::String | Tag::Symbol
        | Tag::Vec | Tag::MapVal | Tag::Address => true,
        _ => false,
    }
}

/// What constructing a value from a tag and an inline payload gives: the
/// value when the tag is an inline kind and the payload fits its range,
/// `Overflow` when it does not fit, `InvalidTag` when the tag is not an
/// inline kind.
pub open spec fn from_inline_spec(t: Tag, payload: u64) -> Result<RawVal, ConversionError> {
    match t {
        Tag::Void => if payload == 0 {
            Result::Ok(RawVal::Void)
        } else {
            Result::Err(ConversionError::Overflow)
        },
        Tag::Bool => if payload == 0 {
            Result::Ok(RawVal::Bool(false))
        } else if payload == 1 {
            Result::Ok(RawVal::Bool(true))
        } else {
            Result::Err(ConversionError::Overflow)
        },
        Tag::Error => if payload <= u32::MAX as u64 {
            Result::Ok(RawVal::Error(payload as u32))
        } else {
            Result::Err(ConversionError::Overflow)
        },
        Tag::U32 => if payload <= u32::MAX as u64 {
            Result::Ok(RawVal::U32(payload as u32))
        } else {
            Result::Err(ConversionError::Overflow)
        },
        Tag::I32 => if payload <= u32::MAX as u64 {
            Result::Ok(RawVal::I32(payload as u32 as i32))
        } else {
            Result::Err(ConversionError::Overflow)
        },
        Tag::U64 => Result::Ok(RawVal::U64(payload)),
        Tag::I64 => Result::Ok(RawVal::I64(payload as i64)),
        Tag::Timepoint => Result::Ok(RawVal::Timepoint(payload)),
        Tag::Duration => Result::Ok(RawVal::Duration(payload)),
        _ => Result::Err(ConversionError::InvalidTag),
    }
}

/// What constructing a value from a tag and a handle gives: the value when
/// the tag is an object kind, `InvalidTag` otherwise.
pub open spec fn from_obj_spec(t: Tag, h: Handle) -> Result<RawVal, ConversionError> {
    match t {
        Tag::U128 => Result::Ok(RawVal::U128(h)),
        Tag::I128 => Result::Ok(RawVal::I128(h)),
        Tag::U256 => Result::Ok(RawVal::U256(h)),
        Tag::I256 => Result::Ok(RawVal::I256(h)),
        Tag::Bytes => Result::Ok(RawVal::Bytes(h)),
        Tag::String => Result::Ok(RawVal::String(h)),
        Tag::Symbol => Result::Ok(RawVal::Symbol(h)),
        Tag::Vec => Result::Ok(RawVal::Vec(h)),
        Tag::MapVal => Result::Ok(RawVal::MapVal(h)),
        Tag::Address => Result::Ok(RawVal::Address(h)),
        _ => Result::Err(ConversionError::InvalidTag),
    }
}

/// The inline payload of a value, as the fixed-width word it is stored in.
pub open spec fn inline_payload_spec(v: RawVal) -> Result<u64, ConversionError> {
    match v {
        RawVal::Void => Result::Ok(0u64),
        RawVal::Bool(x) => Result::Ok(if x {
            1u64
        } else {
            0u64
        }),
        RawVal::Error(x) => Result::Ok(x as u64),
        RawVal::U32(x) => Result::Ok(x as u64),
        RawVal::I32(x) => Result::Ok(x as u32 as u64),
        RawVal::U64(x) => Result::Ok(x),
        RawVal::I64(x) => Result::Ok(x as u64),
        RawVal::Timepoint(x) => Result::Ok(x),
        RawVal::Duration(x) => Result::Ok(x),
        _ => Result::Err(ConversionError::InvalidTag),
    }
}

/// The handle of a value whose tag is an object kind.
pub open spec fn obj_handle_spec(v: RawVal) -> Result<Handle, ConversionError> {
    match v {
        RawVal::U128(h) | RawVal::I128(h) | RawVal::U256(h) | RawVal::I256(h) | RawVal::Bytes(h)
        | RawVal::String(h) | RawVal::Symbol(h) | RawVal::Vec(h) | RawVal::MapVal(h)
        | RawVal::Address(h) => Result::Ok(h),
        _ => Result::Err(ConversionError::InvalidTag),
    }
}

impl Tag {
    /// Recognizes a tag code; an unassigned code gives `Bad` rather than
    /// failing.
    pub fn from_code(code: u8) -> (r: Tag)
        ensures
            r == tag_of_code(code),
    {
        match code {
            0u8 => Tag::Void,
            1u8 => Tag::Bool,
            2u8 => Tag::Error,
            3u8 => Tag::U32,
            4u8 => Tag::I32,
            5u8 => Tag::U64,
            6u8 => Tag::I64,
            7u8 => Tag::Timepoint,
            8u8 => Tag::Duration,
            9u8 => Tag::U128,
            10u8 => Tag::I128,
            11u8 => Tag::U256,
            12u8 => Tag::I256,
            13u8 => Tag::Bytes,
            14u8 => Tag::String,
            15u8 => Tag::Symbol,
            16u8 => Tag::Vec,
            17u8 => Tag::MapVal,
            18u8 => Tag::Address,
            _ => Tag::Bad,
        }
    }

    /// Whether this tag stores its payload inline.
    pub fn is_inline(&self) -> (r: bool)
        ensures
            r == is_inline_tag(*self),
    {
        match self {
            Tag::Void | Tag::Bool | Tag::Error | Tag::U32 | Tag::I32 | Tag::U64 | Tag::I64
            | Tag::Timepoint | Tag::Duration => true,
            _ => false,
        }
    }

    /// Whether this tag stores its payload as an object handle.
    pub fn is_object(&self) -> (r: bool)
        ensures
            r == is_object_tag(*self),
    {
        match self {
            Tag::U128 | Tag::I128 | Tag::U256 | Tag::I256 | Tag::Bytes | Tag::String
            | Tag::Symbol | Tag::Vec | Tag::MapVal | Tag::Address => true,
            _ => false,
        }
    }
}

impl RawVal {
    /// The tag of this value.
    pub fn tag(&self) -> (r: Tag)
        ensures
            r == tag_of(*self),
    {
        match self {
            RawVal::Void => Tag::Void,
            RawVal::Bool(..) => Tag::Bool,
            RawVal::Error(..) => Tag::Error,
            RawVal::U32(..) => Tag::U32,
            RawVal::I32(..) => Tag::I32,
            RawVal::U64(..) => Tag::U64,
            RawVal::I64(..) => Tag::I64,
            RawVal::Timepoint(..) => Tag::Timepoint,
            RawVal::Duration(..) => Tag::Duration,
            RawVal::U128(..) => Tag::U128,
            RawVal::I128(..) => Tag::I128,
            RawVal::U256(..) => Tag::U256,
            RawVal::I256(..) => Tag::I256,
            RawVal::Bytes(..) => Tag::Bytes,
            RawVal::String(..) => Tag::String,
            RawVal::Symbol(..) => Tag::Symbol,
            RawVal::Vec(..) => Tag::Vec,
            RawVal::MapVal(..) => Tag::MapVal,
            RawVal::Address(..) => Tag::Address,
        }
    }

    /// Constructs a value from a tag and an inline payload word; fails with
    /// `InvalidTag` when the tag is not an inline kind and with `Overflow`
    /// when the payload does not fit the kind's range.
    pub fn from_tag_inline(t: Tag, payload: u64) -> (r: Result<RawVal, ConversionError>)
        ensures
            r == from_inline_spec(t, payload),
    {
        match t {
            Tag::Void => if payload == 0 {
                Result::Ok(RawVal::Void)
            } else {
                Result::Err(ConversionError::Overflow)
            },
            Tag::Bool => if payload == 0 {
                Result::Ok(RawVal::Bool(false))
            } else if payload == 1 {
                Result::Ok(RawVal::Bool(true))
            } else {
                Result::Err(ConversionError::Overflow)
            },
            Tag::Error => if payload <= u32::MAX as u64 {
                Result::Ok(RawVal::Error(payload as u32))
            } else {
                Result::Err(ConversionError::Overflow)
            },
            Tag::U32 => if payload <= u32::MAX as u64 {
                Result::Ok(RawVal::U32(payload as u32))
            } else {
                Result::Err(ConversionError::Overflow)
            },
            Tag::I32 => if payload <= u32::MAX as u64 {
                Result::Ok(RawVal::I32(payload as u32 as i32))
            } else {
                Result::Err(ConversionError::Overflow)
            },
            Tag::U64 => Result::Ok(RawVal::U64(payload)),
            Tag::I64 => Result::Ok(RawVal::I64(payload as i64)),
            Tag::Timepoint => Result::Ok(RawVal::Timepoint(payload)),
            Tag::Duration => Result::Ok(RawVal::Duration(payload)),
            _ => Result::Err(ConversionError::InvalidTag),
        }
    }

    /// Constructs a value from a tag and an object handle; fails with
    /// `InvalidTag` when the tag is not an object kind.
    pub fn from_tag_obj(t: Tag, h: Handle) -> (r: Result<RawVal, ConversionError>)
        ensures
            r == from_obj_spec(t, h),
    {
        match t {
            Tag::U128 => Result::Ok(RawVal::U128(h)),
            Tag::I128 => Result::Ok(RawVal::I128(h)),
            Tag::U256 => Result::Ok(RawVal::U256(h)),
            Tag::I256 => Result::Ok(RawVal::I256(h)),
            Tag::Bytes => Result::Ok(RawVal::Bytes(h)),
            Tag::String => Result::Ok(RawVal::String(h)),
            Tag::Symbol => Result::Ok(RawVal::Symbol(h)),
            Tag::Vec => Result::Ok(RawVal::Vec(h)),
            Tag::MapVal => Result::Ok(RawVal::MapVal(h)),
            Tag::Address => Result::Ok(RawVal::Address(h)),
            _ => Result::Err(ConversionError::InvalidTag),
        }
    }

    /// The inline payload word of this value; fails with `InvalidTag` when
    /// the tag stores its payload as an object handle.
    pub fn inline_payload(&self) -> (r: Result<u64, ConversionError>)
        ensures
            r == inline_payload_spec(*self),
    {
        match self {
            RawVal::Void => Result::Ok(0u64),
            RawVal::Bool(x) => Result::Ok(
                if *x {
                    1u64
                } else {
                    0u64
                },
            ),
            RawVal::Error(x) => Result::Ok(*x as u64),
            RawVal::U32(x) => Result::Ok(*x as u64),
            RawVal::I32(x) => Result::Ok(*x as u32 as u64),
            RawVal::U64(x) => Result::Ok(*x),
            RawVal::I64(x) => Result::Ok(*x as u64),
            RawVal::Timepoint(x) => Result::Ok(*x),
            RawVal::Duration(x) => Result::Ok(*x),
            _ => Result::Err(ConversionError::InvalidTag),
        }
    }

    /// The object handle of this value; fails with `InvalidTag` when the
    /// tag stores its payload inline.
    pub fn obj_handle(&self) -> (r: Result<Handle, ConversionError>)
        ensures
            r == obj_handle_spec(*self),
    {
        match self {
            RawVal::U128(h) | RawVal::I128(h) | RawVal::U256(h) | RawVal::I256(h)
            | RawVal::Bytes(h) | RawVal::String(h) | RawVal::Symbol(h) | RawVal::Vec(h)
            | RawVal::MapVal(h) | RawVal::Address(h) => Result::Ok(*h),
            _ => Result::Err(ConversionError::InvalidTag),
        }
    }
}

} // verus!
