//! The mathematical model shared by both value representations: an abstract
//! value datatype, the total order on it, and the shape predicates that
//! decide which abstract values the tagged representation can hold.

use core::cmp::Ordering;
use vstd::prelude::*;

verus! {

/// Abstract value: the common model of a tagged value (with its object store
/// payloads resolved) and of an external self-describing value.
///
/// The 256-bit kinds carry four 64-bit limbs, most significant first; the
/// signed kind's top limb is signed.  Container kinds carry `None` for the
/// absent-container sentinel, which only the external representation can
/// express.
#[verifier::ext_equal]
pub enum SpecVal {
    Void,
    Bool(bool),
    Error(u32),
    U32(u32),
    I32(i32),
    U64(u64),
    I64(i64),
    Timepoint(u64),
    Duration(u64),
    U128(u128),
    I128(i128),
    U256(u64, u64, u64, u64),
    I256(i64, u64, u64, u64),
    Bytes(Seq<u8>),
    String(Seq<u8>),
    Symbol(Seq<u8>),
    Vec(Option<Seq<SpecVal>>),
    MapVal(Option<Seq<(SpecVal, SpecVal)>>),
    Address(Seq<u8>),
}

/// Rank of a kind in the fixed total order; values of different kinds are
/// ordered by rank alone.
pub open spec fn rank(v: SpecVal) -> int {
    match v {
        SpecVal::Void => 0,
        SpecVal::Bool(..) => 1,
        SpecVal::Error(..) => 2,
        SpecVal::U32(..) => 3,
        SpecVal::I32(..) => 4,
        SpecVal::U64(..) => 5,
        SpecVal::I64(..) => 6,
        SpecVal::Timepoint(..) => 7,
        SpecVal::Duration(..) => 8,
        SpecVal::U128(..) => 9,
        SpecVal::I128(..) => 10,
        SpecVal::U256(..) => 11,
        SpecVal::I256(..) => 12,
        SpecVal::Bytes(..) => 13,
        SpecVal::String(..) => 14,
        SpecVal::Symbol(..) => 15,
        SpecVal::Vec(..) => 16,
        SpecVal::MapVal(..) => 17,
        SpecVal::Address(..) => 18,
    }
}

/// Order on mathematical integers.
pub open spec fn cmp_int(x: int, y: int) -> Ordering {
    if x < y {
        Ordering::Less
    } else if x == y {
        Ordering::Equal
    } else {
        Ordering::Greater
    }
}

/// Numeric value of an unsigned 256-bit quantity given as four limbs,
/// most significant first.
pub open spec fn u256_int(hi_hi: u64, hi_lo: u64, lo_hi: u64, lo_lo: u64) -> int {
    hi_hi * 0x1000000000000000000000000000000000000000000000000
        + hi_lo * 0x100000000000000000000000000000000
        + lo_hi * 0x10000000000000000
        + lo_lo
}

/// Numeric value of a signed 256-bit quantity given as four limbs,
/// most significant first; only the top limb is signed.
pub open spec fn i256_int(hi_hi: i64, hi_lo: u64, lo_hi: u64, lo_lo: u64) -> int {
    hi_hi * 0x1000000000000000000000000000000000000000000000000
        + hi_lo * 0x100000000000000000000000000000000
        + lo_hi * 0x10000000000000000
        + lo_lo
}

/// The total order on abstract values: rank first, then the kind's own
/// payload order.  Containers are ordered lexicographically element by
/// element with the shorter sequence first when one is a prefix of the
/// other; an absent container sorts before every present one; the 128-bit
/// and 256-bit kinds are ordered by their numeric value.
///
/// Both representations are proved against this one order, so the two
/// comparators agree on every kind.  In particular the 128-bit and
/// 256-bit kinds — whose cross-representation ordering is sometimes left
/// open — are ordered numerically on both sides here: the external form's
/// limb comparison, most significant first, is proved equal to the
/// numeric comparison.
pub open spec fn spec_cmp(a: SpecVal, b: SpecVal) -> Ordering
    decreases a, b,
{
    if rank(a) != rank(b) {
        cmp_int(rank(a), rank(b))
    } else {
        match (a, b) {
            (SpecVal::Void, SpecVal::Void) => Ordering::Equal,
            (SpecVal::Bool(x), SpecVal::Bool(y)) => cmp_int(
                if x { 1int } else { 0int },
                if y { 1int } else { 0int },
            ),
            (SpecVal::Error(x), SpecVal::Error(y)) => cmp_int(x as int, y as int),
            (SpecVal::U32(x), SpecVal::U32(y)) => cmp_int(x as int, y as int),
            (SpecVal::I32(x), SpecVal::I32(y)) => cmp_int(x as int, y as int),
            (SpecVal::U64(x), SpecVal::U64(y)) => cmp_int(x as int, y as int),
            (SpecVal::I64(x), SpecVal::I64(y)) => cmp_int(x as int, y as int),
            (SpecVal::Timepoint(x), SpecVal::Timepoint(y)) => cmp_int(x as int, y as int),
            (SpecVal::Duration(x), SpecVal::Duration(y)) => cmp_int(x as int, y as int),
            (SpecVal::U128(x), SpecVal::U128(y)) => cmp_int(x as int, y as int),
            (SpecVal::I128(x), SpecVal::I128(y)) => cmp_int(x as int, y as int),
            (SpecVal::U256(a3, a2, a1, a0), SpecVal::U256(b3, b2, b1, b0)) => cmp_int(
                u256_int(a3, a2, a1, a0),
                u256_int(b3, b2, b1, b0),
            ),
            (SpecVal::I256(a3, a2, a1, a0), SpecVal::I256(b3, b2, b1, b0)) => cmp_int(
                i256_int(a3, a2, a1, a0),
                i256_int(b3, b2, b1, b0),
            ),
            (SpecVal::Bytes(x), SpecVal::Bytes(y)) => cmp_bytes(x, y),
            (SpecVal::String(x), SpecVal::String(y)) => cmp_bytes(x, y),
            (SpecVal::Symbol(x), SpecVal::Symbol(y)) => cmp_bytes(x, y),
            (SpecVal::Vec(x), SpecVal::Vec(y)) => match (x, y) {
                (Option::None, Option::None) => Ordering::Equal,
                (Option::None, Option::Some(_)) => Ordering::Less,
                (Option::Some(_), Option::None) => Ordering::Greater,
                (Option::Some(sx), Option::Some(sy)) => cmp_seq(sx, sy),
            },
            (SpecVal::MapVal(x), SpecVal::MapVal(y)) => match (x, y) {
                (Option::None, Option::None) => Ordering::Equal,
                (Option::None, Option::Some(_)) => Ordering::Less,
                (Option::Some(_), Option::None) => Ordering::Greater,
                (Option::Some(sx), Option::Some(sy)) => cmp_pairs(sx, sy),
            },
            (SpecVal::Address(x), SpecVal::Address(y)) => cmp_bytes(x, y),
            _ => Ordering::Equal,
        }
    }
}

/// Lexicographic order on byte sequences, shorter prefix first.
pub open spec fn cmp_bytes(a: Seq<u8>, b: Seq<u8>) -> Ordering
    decreases a.len(),
{
    if a.len() == 0 && b.len() == 0 {
        Ordering::Equal
    } else if a.len() == 0 {
        Ordering::Less
    } else if b.len() == 0 {
        Ordering::Greater
    } else if a[0] < b[0] {
        Ordering::Less
    } else if a[0] > b[0] {
        Ordering::Greater
    } else {
        cmp_bytes(a.subrange(1, a.len() as int), b.subrange(1, b.len() as int))
    }
}

/// Lexicographic order on sequences of abstract values.
pub open spec fn cmp_seq(a: Seq<SpecVal>, b: Seq<SpecVal>) -> Ordering
    decreases a, b,
{
    if a.len() == 0 && b.len() == 0 {
        Ordering::Equal
    } else if a.len() == 0 {
        Ordering::Less
    } else if b.len() == 0 {
        Ordering::Greater
    } else {
        let c = spec_cmp(a[0], b[0]);
        if c == Ordering::Equal {
            cmp_seq(a.subrange(1, a.len() as int), b.subrange(1, b.len() as int))
        } else {
            c
        }
    }
}

/// A symbol may hold at most this many bytes.
pub const SYMBOL_MAX_LEN: usize = 32;

/// An address hash holds exactly this many bytes.
pub const ADDRESS_LEN: usize = 32;

/// Error codes below this bound have an external representation; the
/// external form reserves a 16-bit code space for the error kind.
pub const ERROR_CODE_LIMIT: u32 = 65536;

/// The bytes a symbol may hold: ASCII letters, digits and underscore.
pub open spec fn is_symbol_byte(b: u8) -> bool {
    b == 95 || (48 <= b && b <= 57) || (65 <= b && b <= 90) || (97 <= b && b <= 122)
}

/// A symbol payload is within the length bound and drawn from the symbol
/// alphabet.
pub open spec fn symbol_ok(s: Seq<u8>) -> bool {
    &&& s.len() <= SYMBOL_MAX_LEN
    &&& forall|i: int| 0 <= i < s.len() ==> is_symbol_byte(s[i])
}

/// Map entries are strictly ascending in their keys, each adjacent pair in
/// order; with transitivity this makes every key unique.
pub open spec fn pairs_sorted(s: Seq<(SpecVal, SpecVal)>) -> bool {
    forall|i: int| 0 <= i && i + 1 < s.len() ==> #[trigger] spec_cmp(s[i].0, s[i + 1].0)
        == Ordering::Less
}

/// The abstract values that the tagged representation can hold: no absent
/// containers, symbols within alphabet and length bound, addresses of the
/// exact hash length, and map entries sorted strictly by key, all the way
/// down.
pub open spec fn valid_shape(v: SpecVal) -> bool
    decreases v,
{
    match v {
        SpecVal::Symbol(s) => symbol_ok(s),
        SpecVal::Address(s) => s.len() == ADDRESS_LEN,
        SpecVal::Vec(o) => match o {
            Option::None => false,
            Option::Some(s) => valid_shape_seq(s),
        },
        SpecVal::MapVal(o) => match o {
            Option::None => false,
            Option::Some(s) => pairs_sorted(s) && valid_shape_pairs(s),
        },
        _ => true,
    }
}

/// Every element of the sequence has a tagged shape.
pub open spec fn valid_shape_seq(s: Seq<SpecVal>) -> bool
    decreases s,
{
    if s.len() == 0 {
        true
    } else {
        valid_shape(s[0]) && valid_shape_seq(s.subrange(1, s.len() as int))
    }
}

/// Every key and value of the pair sequence has a tagged shape.
pub open spec fn valid_shape_pairs(s: Seq<(SpecVal, SpecVal)>) -> bool
    decreases s,
{
    if s.len() == 0 {
        true
    } else {
        valid_shape(s[0].0) && valid_shape(s[0].1) && valid_shape_pairs(
            s.subrange(1, s.len() as int),
        )
    }
}

/// A sequence has a tagged shape exactly when each of its elements does.
pub proof fn lemma_valid_shape_seq_index(s: Seq<SpecVal>)
    ensures
        valid_shape_seq(s) <==> (forall|j: int| 0 <= j < s.len() ==> valid_shape(#[trigger] s[j])),
    decreases s.len(),
{
    if s.len() > 0 {
        let t = s.subrange(1, s.len() as int);
        lemma_valid_shape_seq_index(t);
        assert forall|j: int| 1 <= j < s.len() implies s[j] == t[j - 1] by {}
        if valid_shape_seq(s) {
            assert forall|j: int| 0 <= j < s.len() implies valid_shape(#[trigger] s[j]) by {
                if j > 0 {
                    assert(valid_shape(t[j - 1]));
                }
            }
        } else {
            if valid_shape(s[0]) {
                assert(!valid_shape_seq(t));
            }
        }
    }
}

/// A pair sequence has a tagged shape exactly when each key and value
/// does.
pub proof fn lemma_valid_shape_pairs_index(s: Seq<(SpecVal, SpecVal)>)
    ensures
        valid_shape_pairs(s) <==> (forall|j: int|
            0 <= j < s.len() ==> valid_shape((#[trigger] s[j]).0) && valid_shape(s[j].1)),
    decreases s.len(),
{
    if s.len() > 0 {
        let t = s.subrange(1, s.len() as int);
        lemma_valid_shape_pairs_index(t);
        assert forall|j: int| 1 <= j < s.len() implies s[j] == t[j - 1] by {}
        if valid_shape_pairs(s) {
            assert forall|j: int| 0 <= j < s.len() implies valid_shape((#[trigger] s[j]).0)
                && valid_shape(s[j].1) by {
                if j > 0 {
                    assert(valid_shape(t[j - 1].0) && valid_shape(t[j - 1].1));
                }
            }
        } else {
            if valid_shape(s[0].0) && valid_shape(s[0].1) {
                assert(!valid_shape_pairs(t));
            }
        }
    }
}

/// The abstract values whose every error code fits the reserved external
/// code space, so that the value has an external representation.
pub open spec fn serializable(v: SpecVal) -> bool
    decreases v,
{
    match v {
        SpecVal::Error(code) => code < ERROR_CODE_LIMIT,
        SpecVal::Vec(o) => match o {
            Option::None => true,
            Option::Some(s) => serializable_seq(s),
        },
        SpecVal::MapVal(o) => match o {
            Option::None => true,
            Option::Some(s) => serializable_pairs(s),
        },
        _ => true,
    }
}

/// Every element of the sequence is serializable.
pub open spec fn serializable_seq(s: Seq<SpecVal>) -> bool
    decreases s,
{
    if s.len() == 0 {
        true
    } else {
        serializable(s[0]) && serializable_seq(s.subrange(1, s.len() as int))
    }
}

/// Every key and value of the pair sequence is serializable.
pub open spec fn serializable_pairs(s: Seq<(SpecVal, SpecVal)>) -> bool
    decreases s,
{
    if s.len() == 0 {
        true
    } else {
        serializable(s[0].0) && serializable(s[0].1) && serializable_pairs(
            s.subrange(1, s.len() as int),
        )
    }
}

/// A sequence is serializable exactly when each of its elements is.
pub proof fn lemma_serializable_seq_index(s: Seq<SpecVal>)
    ensures
        serializable_seq(s) <==> (forall|j: int|
            0 <= j < s.len() ==> serializable(#[trigger] s[j])),
    decreases s.len(),
{
    if s.len() > 0 {
        let t = s.subrange(1, s.len() as int);
        lemma_serializable_seq_index(t);
        assert forall|j: int| 1 <= j < s.len() implies s[j] == t[j - 1] by {}
        if serializable_seq(s) {
            assert forall|j: int| 0 <= j < s.len() implies serializable(#[trigger] s[j]) by {
                if j > 0 {
                    assert(serializable(t[j - 1]));
                }
            }
        } else {
            if serializable(s[0]) {
                assert(!serializable_seq(t));
            }
        }
    }
}

/// A pair sequence is serializable exactly when each key and value is.
pub proof fn lemma_serializable_pairs_index(s: Seq<(SpecVal, SpecVal)>)
    ensures
        serializable_pairs(s) <==> (forall|j: int|
            0 <= j < s.len() ==> serializable((#[trigger] s[j]).0) && serializable(s[j].1)),
    decreases s.len(),
{
    if s.len() > 0 {
        let t = s.subrange(1, s.len() as int);
        lemma_serializable_pairs_index(t);
        assert forall|j: int| 1 <= j < s.len() implies s[j] == t[j - 1] by {}
        if serializable_pairs(s) {
            assert forall|j: int| 0 <= j < s.len() implies serializable((#[trigger] s[j]).0)
                && serializable(s[j].1) by {
                if j > 0 {
                    assert(serializable(t[j - 1].0) && serializable(t[j - 1].1));
                }
            }
        } else {
            if serializable(s[0].0) && serializable(s[0].1) {
                assert(!serializable_pairs(t));
            }
        }
    }
}

/// Whether a value holds an error value anywhere in its closure.  This is
/// the conservative screen the differential harness uses: a value free of
/// error values is always serializable.
pub open spec fn contains_error(v: SpecVal) -> bool
    decreases v,
{
    match v {
        SpecVal::Error(..) => true,
        SpecVal::Vec(o) => match o {
            Option::None => false,
            Option::Some(s) => contains_error_seq(s),
        },
        SpecVal::MapVal(o) => match o {
            Option::None => false,
            Option::Some(s) => contains_error_pairs(s),
        },
        _ => false,
    }
}

/// Some element of the sequence holds an error value.
pub open spec fn contains_error_seq(s: Seq<SpecVal>) -> bool
    decreases s,
{
    if s.len() == 0 {
        false
    } else {
        contains_error(s[0]) || contains_error_seq(s.subrange(1, s.len() as int))
    }
}

/// Some key or value of the pair sequence holds an error value.
pub open spec fn contains_error_pairs(s: Seq<(SpecVal, SpecVal)>) -> bool
    decreases s,
{
    if s.len() == 0 {
        false
    } else {
        contains_error(s[0].0) || contains_error(s[0].1) || contains_error_pairs(
            s.subrange(1, s.len() as int),
        )
    }
}

/// A sequence holds an error value exactly when some element does.
pub proof fn lemma_contains_error_seq_index(s: Seq<SpecVal>)
    ensures
        contains_error_seq(s) <==> (exists|j: int|
            0 <= j < s.len() && contains_error(#[trigger] s[j])),
    decreases s.len(),
{
    if s.len() > 0 {
        let t = s.subrange(1, s.len() as int);
        lemma_contains_error_seq_index(t);
        assert forall|j: int| 1 <= j < s.len() implies s[j] == t[j - 1] by {}
        if contains_error_seq(s) {
            if contains_error(s[0]) {
                assert(contains_error(s[0]));
            } else {
                let j = choose|j: int| 0 <= j < t.len() && contains_error(#[trigger] t[j]);
                assert(contains_error(s[j + 1]));
            }
        } else {
            if exists|j: int| 0 <= j < s.len() && contains_error(#[trigger] s[j]) {
                let j = choose|j: int| 0 <= j < s.len() && contains_error(#[trigger] s[j]);
                if j > 0 {
                    assert(contains_error(t[j - 1]));
                }
            }
        }
    }
}

/// A pair sequence holds an error value exactly when some key or value
/// does.
pub proof fn lemma_contains_error_pairs_index(s: Seq<(SpecVal, SpecVal)>)
    ensures
        contains_error_pairs(s) <==> (exists|j: int|
            0 <= j < s.len() && (contains_error((#[trigger] s[j]).0) || contains_error(s[j].1))),
    decreases s.len(),
{
    if s.len() > 0 {
        let t = s.subrange(1, s.len() as int);
        lemma_contains_error_pairs_index(t);
        assert forall|j: int| 1 <= j < s.len() implies s[j] == t[j - 1] by {}
        if contains_error_pairs(s) {
            if contains_error(s[0].0) || contains_error(s[0].1) {
                assert(contains_error(s[0].0) || contains_error(s[0].1));
            } else {
                let j = choose|j: int|
                    0 <= j < t.len() && (contains_error((#[trigger] t[j]).0) || contains_error(
                        t[j].1,
                    ));
                assert(contains_error(s[j + 1].0) || contains_error(s[j + 1].1));
            }
        } else {
            if exists|j: int|
                0 <= j < s.len() && (contains_error((#[trigger] s[j]).0) || contains_error(
                    s[j].1,
                )) {
                let j = choose|j: int|
                    0 <= j < s.len() && (contains_error((#[trigger] s[j]).0) || contains_error(
                        s[j].1,
                    ));
                if j > 0 {
                    assert(contains_error(t[j - 1].0) || contains_error(t[j - 1].1));
                }
            }
        }
    }
}

/// A present map with an entry whose key or value is not serializable is
/// not serializable.
#[verifier::spinoff_prover]
pub proof fn lemma_not_serializable_map(s: Seq<(SpecVal, SpecVal)>, k: int)
    requires
        0 <= k < s.len(),
        !serializable(s[k].0) || !serializable(s[k].1),
    ensures
        !serializable(SpecVal::MapVal(Option::Some(s))),
{
    lemma_serializable_pairs_index(s);
    assert(!serializable_pairs(s));
}

/// A present map with an entry whose key or value has no tagged shape has
/// no tagged shape itself.
#[verifier::spinoff_prover]
pub proof fn lemma_not_valid_shape_map(s: Seq<(SpecVal, SpecVal)>, k: int)
    requires
        0 <= k < s.len(),
        !valid_shape(s[k].0) || !valid_shape(s[k].1),
    ensures
        !valid_shape(SpecVal::MapVal(Option::Some(s))),
{
    lemma_valid_shape_pairs_index(s);
    assert(!valid_shape_pairs(s));
}

/// A present map whose entries are not strictly sorted by key has no
/// tagged shape.
#[verifier::spinoff_prover]
pub proof fn lemma_unsorted_map_not_valid(s: Seq<(SpecVal, SpecVal)>)
    requires
        !pairs_sorted(s),
    ensures
        !valid_shape(SpecVal::MapVal(Option::Some(s))),
{

}

/// A present vector with an element that is not serializable is not
/// serializable.
#[verifier::spinoff_prover]
pub proof fn lemma_not_serializable_vec(s: Seq<SpecVal>, k: int)
    requires
        0 <= k < s.len(),
        !serializable(s[k]),
    ensures
        !serializable(SpecVal::Vec(Option::Some(s))),
{
    lemma_serializable_seq_index(s);
    assert(!serializable_seq(s));
}

/// A present vector with an element that has no tagged shape has no
/// tagged shape itself.
#[verifier::spinoff_prover]
pub proof fn lemma_not_valid_shape_vec(s: Seq<SpecVal>, k: int)
    requires
        0 <= k < s.len(),
        !valid_shape(s[k]),
    ensures
        !valid_shape(SpecVal::Vec(Option::Some(s))),
{
    lemma_valid_shape_seq_index(s);
    assert(!valid_shape_seq(s));
}

/// A value that holds no error value anywhere is serializable.
pub proof fn lemma_no_error_serializable(v: SpecVal)
    requires
        !contains_error(v),
    ensures
        serializable(v),
    decreases v,
{
    match v {
        SpecVal::Vec(Option::Some(s)) => {
            lemma_no_error_serializable_seq(s);
        },
        SpecVal::MapVal(Option::Some(s)) => {
            lemma_no_error_serializable_pairs(s);
        },
        _ => {},
    }
}

/// A sequence free of error values is elementwise serializable.
pub proof fn lemma_no_error_serializable_seq(s: Seq<SpecVal>)
    requires
        !contains_error_seq(s),
    ensures
        serializable_seq(s),
    decreases s,
{
    if s.len() > 0 {
        lemma_no_error_serializable(s[0]);
        lemma_no_error_serializable_seq(s.subrange(1, s.len() as int));
    }
}

/// A pair sequence free of error values is componentwise serializable.
pub proof fn lemma_no_error_serializable_pairs(s: Seq<(SpecVal, SpecVal)>)
    requires
        !contains_error_pairs(s),
    ensures
        serializable_pairs(s),
    decreases s,
{
    if s.len() > 0 {
        lemma_no_error_serializable(s[0].0);
        lemma_no_error_serializable(s[0].1);
        lemma_no_error_serializable_pairs(s.subrange(1, s.len() as int));
    }
}

/// In a strictly sorted entry sequence every earlier key is below every
/// later key, so no two entries share a key.
#[verifier::rlimit(50)]
pub proof fn lemma_sorted_pairwise(s: Seq<(SpecVal, SpecVal)>)
    requires
        pairs_sorted(s),
    ensures
        forall|i: int, j: int| 0 <= i < j < s.len() ==> #[trigger] spec_cmp(s[i].0, s[j].0)
            == Ordering::Less,
{
    assert forall|i: int, j: int| 0 <= i < j < s.len() implies #[trigger] spec_cmp(s[i].0, s[j].0)
        == Ordering::Less by {
        lemma_sorted_below(s, i, j);
    }
}

/// Helper induction for `lemma_sorted_pairwise`: walks from `i` up to `j`.
#[verifier::rlimit(50)]
proof fn lemma_sorted_below(s: Seq<(SpecVal, SpecVal)>, i: int, j: int)
    requires
        pairs_sorted(s),
        0 <= i < j < s.len(),
    ensures
        spec_cmp(s[i].0, s[j].0) == Ordering::Less,
    decreases j - i,
{
    if j == i + 1 {
        assert(spec_cmp(s[i].0, s[i + 1].0) == Ordering::Less);
    } else {
        lemma_sorted_below(s, i, j - 1);
        let k = j - 1;
        assert(spec_cmp(s[k].0, s[k + 1].0) == Ordering::Less);
        lemma_cmp_trans(s[i].0, s[j - 1].0, s[j].0);
    }
}

/// Inserts one entry into a key-sorted entry sequence: an entry with an
/// equal key is replaced, otherwise the new entry lands at its key's
/// position in the order.
pub open spec fn map_set(s: Seq<(SpecVal, SpecVal)>, k: SpecVal, v: SpecVal) -> Seq<
    (SpecVal, SpecVal),
>
    decreases s,
{
    if s.len() == 0 {
        seq![(k, v)]
    } else {
        let c = spec_cmp(k, s[0].0);
        if c == Ordering::Less {
            seq![(k, v)] + s
        } else if c == Ordering::Equal {
            seq![(k, v)] + s.subrange(1, s.len() as int)
        } else {
            seq![s[0]] + map_set(s.subrange(1, s.len() as int), k, v)
        }
    }
}

/// The map that inserting the entries one after the other builds: later
/// entries win over earlier ones with an equal key.
pub open spec fn map_build(entries: Seq<(SpecVal, SpecVal)>) -> Seq<(SpecVal, SpecVal)>
    decreases entries,
{
    if entries.len() == 0 {
        Seq::empty()
    } else {
        map_set(
            map_build(entries.subrange(0, entries.len() - 1)),
            entries[entries.len() - 1].0,
            entries[entries.len() - 1].1,
        )
    }
}

/// What inserting at the scan position gives: entries with keys below the
/// new key keep their places, then the new entry replaces an equal key or
/// is spliced in before the first greater key.
pub proof fn lemma_map_set_shape(s: Seq<(SpecVal, SpecVal)>, k: SpecVal, v: SpecVal, i: int)
    requires
        0 <= i <= s.len(),
        forall|j: int| 0 <= j < i ==> #[trigger] spec_cmp(k, s[j].0) == Ordering::Greater,
        i < s.len() ==> spec_cmp(k, s[i].0) != Ordering::Greater,
    ensures
        map_set(s, k, v) == (if i == s.len() {
            s.push((k, v))
        } else if spec_cmp(k, s[i].0) == Ordering::Equal {
            s.update(i, (k, v))
        } else {
            s.subrange(0, i) + seq![(k, v)] + s.subrange(i, s.len() as int)
        }),
    decreases i,
{
    if i == 0 {
        if s.len() == 0 {
            assert(map_set(s, k, v) =~= s.push((k, v)));
        } else if spec_cmp(k, s[0].0) == Ordering::Equal {
            assert(map_set(s, k, v) =~= s.update(0, (k, v)));
        } else {
            assert(map_set(s, k, v) =~= s.subrange(0, 0) + seq![(k, v)] + s.subrange(
                0,
                s.len() as int,
            ));
        }
    } else {
        let t = s.subrange(1, s.len() as int);
        assert(spec_cmp(k, s[0].0) == Ordering::Greater);
        assert forall|j: int| 0 <= j < i - 1 implies #[trigger] spec_cmp(k, t[j].0)
            == Ordering::Greater by {
            assert(t[j] == s[j + 1]);
            assert(spec_cmp(k, s[j + 1].0) == Ordering::Greater);
        }
        assert(i - 1 < t.len() ==> t[i - 1] == s[i]);
        lemma_map_set_shape(t, k, v, i - 1);
        if i == s.len() {
            assert(map_set(s, k, v) =~= s.push((k, v)));
        } else if spec_cmp(k, s[i].0) == Ordering::Equal {
            assert(map_set(s, k, v) =~= s.update(i, (k, v)));
        } else {
            assert(map_set(s, k, v) =~= s.subrange(0, i) + seq![(k, v)] + s.subrange(
                i,
                s.len() as int,
            ));
        }
    }
}

/// Set-insertion keeps the entries strictly sorted by key.
pub proof fn lemma_map_set_sorted(s: Seq<(SpecVal, SpecVal)>, k: SpecVal, v: SpecVal, i: int)
    requires
        pairs_sorted(s),
        0 <= i <= s.len(),
        forall|j: int| 0 <= j < i ==> #[trigger] spec_cmp(k, s[j].0) == Ordering::Greater,
        i < s.len() ==> spec_cmp(k, s[i].0) != Ordering::Greater,
    ensures
        pairs_sorted(map_set(s, k, v)),
{
    lemma_map_set_shape(s, k, v, i);
    let r = map_set(s, k, v);
    if i == s.len() {
        assert forall|j: int| 0 <= j && j + 1 < r.len() implies #[trigger] spec_cmp(
            r[j].0,
            r[j + 1].0,
        ) == Ordering::Less by {
            if j + 1 < i {
                assert(spec_cmp(s[j].0, s[j + 1].0) == Ordering::Less);
            } else {
                assert(spec_cmp(k, s[j].0) == Ordering::Greater);
                lemma_cmp_flip(k, s[j].0);
            }
        }
    } else if spec_cmp(k, s[i].0) == Ordering::Equal {
        lemma_cmp_eq_iff(k, s[i].0);
        assert forall|j: int| 0 <= j && j + 1 < r.len() implies #[trigger] spec_cmp(
            r[j].0,
            r[j + 1].0,
        ) == Ordering::Less by {
            assert(spec_cmp(s[j].0, s[j + 1].0) == Ordering::Less);
            assert(r[j].0 == s[j].0 && r[j + 1].0 == s[j + 1].0);
        }
    } else {
        assert(spec_cmp(k, s[i].0) == Ordering::Less);
        assert forall|j: int| 0 <= j && j + 1 < r.len() implies #[trigger] spec_cmp(
            r[j].0,
            r[j + 1].0,
        ) == Ordering::Less by {
            if j + 1 < i {
                assert(r[j] == s[j] && r[j + 1] == s[j + 1]);
                assert(spec_cmp(s[j].0, s[j + 1].0) == Ordering::Less);
            } else if j + 1 == i {
                assert(r[j] == s[j] && r[j + 1] == (k, v));
                assert(spec_cmp(k, s[j].0) == Ordering::Greater);
                lemma_cmp_flip(k, s[j].0);
            } else if j == i {
                assert(r[j] == (k, v) && r[j + 1] == s[i]);
            } else {
                assert(r[j] == s[j - 1] && r[j + 1] == s[j]);
                let j0 = j - 1;
                assert(spec_cmp(s[j0].0, s[j0 + 1].0) == Ordering::Less);
            }
        }
    }
}

/// Set-insertions of entries with distinct keys commute: the two
/// insertion orders build the same entry sequence.
pub proof fn lemma_map_set_commute(
    s: Seq<(SpecVal, SpecVal)>,
    k1: SpecVal,
    v1: SpecVal,
    k2: SpecVal,
    v2: SpecVal,
)
    requires
        spec_cmp(k1, k2) != Ordering::Equal,
    ensures
        map_set(map_set(s, k1, v1), k2, v2) == map_set(map_set(s, k2, v2), k1, v1),
    decreases s.len(),
{
    lemma_cmp_flip(k1, k2);
    if s.len() == 0 {
        lemma_msc_empty(s, k1, v1, k2, v2);
    } else {
        let c1 = spec_cmp(k1, s[0].0);
        let c2 = spec_cmp(k2, s[0].0);
        if c1 == Ordering::Greater && c2 == Ordering::Greater {
            lemma_map_set_commute(s.subrange(1, s.len() as int), k1, v1, k2, v2);
            lemma_msc_both_greater(s, k1, v1, k2, v2);
        } else if c1 == Ordering::Greater {
            lemma_msc_one_greater(s, k2, v2, k1, v1);
        } else if c2 == Ordering::Greater {
            lemma_msc_one_greater(s, k1, v1, k2, v2);
        } else {
            lemma_msc_neither_greater(s, k1, v1, k2, v2);
        }
    }
}

/// Commutation on the empty entry sequence.
proof fn lemma_msc_empty(
    s: Seq<(SpecVal, SpecVal)>,
    k1: SpecVal,
    v1: SpecVal,
    k2: SpecVal,
    v2: SpecVal,
)
    requires
        s.len() == 0,
        spec_cmp(k1, k2) != Ordering::Equal,
    ensures
        map_set(map_set(s, k1, v1), k2, v2) == map_set(map_set(s, k2, v2), k1, v1),
{
    lemma_cmp_flip(k1, k2);
    let a1 = map_set(s, k1, v1);
    let b1 = map_set(s, k2, v2);
    assert(a1 == seq![(k1, v1)]);
    assert(b1 == seq![(k2, v2)]);
    assert(a1.subrange(1, a1.len() as int).len() == 0);
    assert(b1.subrange(1, b1.len() as int).len() == 0);
    if spec_cmp(k1, k2) == Ordering::Less {
        assert(spec_cmp(k2, a1[0].0) == Ordering::Greater);
        assert(map_set(a1, k2, v2) == seq![a1[0]] + map_set(
            a1.subrange(1, a1.len() as int),
            k2,
            v2,
        ));
        assert(map_set(a1, k2, v2) =~= seq![(k1, v1), (k2, v2)]);
        assert(spec_cmp(k1, b1[0].0) == Ordering::Less);
        assert(map_set(b1, k1, v1) == seq![(k1, v1)] + b1);
        assert(map_set(b1, k1, v1) =~= seq![(k1, v1), (k2, v2)]);
    } else {
        assert(spec_cmp(k2, a1[0].0) == Ordering::Less);
        assert(map_set(a1, k2, v2) == seq![(k2, v2)] + a1);
        assert(map_set(a1, k2, v2) =~= seq![(k2, v2), (k1, v1)]);
        assert(spec_cmp(k1, b1[0].0) == Ordering::Greater);
        assert(map_set(b1, k1, v1) == seq![b1[0]] + map_set(
            b1.subrange(1, b1.len() as int),
            k1,
            v1,
        ));
        assert(map_set(b1, k1, v1) =~= seq![(k2, v2), (k1, v1)]);
    }
}

/// Commutation when both keys land strictly past the first entry,
/// given commutation on the remainder.
proof fn lemma_msc_both_greater(
    s: Seq<(SpecVal, SpecVal)>,
    k1: SpecVal,
    v1: SpecVal,
    k2: SpecVal,
    v2: SpecVal,
)
    requires
        s.len() > 0,
        spec_cmp(k1, k2) != Ordering::Equal,
        spec_cmp(k1, s[0].0) == Ordering::Greater,
        spec_cmp(k2, s[0].0) == Ordering::Greater,
        map_set(map_set(s.subrange(1, s.len() as int), k1, v1), k2, v2) == map_set(
            map_set(s.subrange(1, s.len() as int), k2, v2),
            k1,
            v1,
        ),
    ensures
        map_set(map_set(s, k1, v1), k2, v2) == map_set(map_set(s, k2, v2), k1, v1),
{
    let h = s[0];
    let t = s.subrange(1, s.len() as int);
    let a1 = map_set(s, k1, v1);
    let b1 = map_set(s, k2, v2);
    assert(a1 == seq![h] + map_set(t, k1, v1));
    assert(b1 == seq![h] + map_set(t, k2, v2));
    assert(a1.subrange(1, a1.len() as int) =~= map_set(t, k1, v1));
    assert(b1.subrange(1, b1.len() as int) =~= map_set(t, k2, v2));
    assert(spec_cmp(k2, a1[0].0) == Ordering::Greater);
    assert(map_set(a1, k2, v2) == seq![a1[0]] + map_set(
        a1.subrange(1, a1.len() as int),
        k2,
        v2,
    ));
    assert(spec_cmp(k1, b1[0].0) == Ordering::Greater);
    assert(map_set(b1, k1, v1) == seq![b1[0]] + map_set(
        b1.subrange(1, b1.len() as int),
        k1,
        v1,
    ));
    assert(map_set(a1, k2, v2) =~= map_set(b1, k1, v1));
}

/// Commutation when exactly the second key lands strictly past the
/// first entry: the first key then precedes it outright.
proof fn lemma_msc_one_greater(
    s: Seq<(SpecVal, SpecVal)>,
    k1: SpecVal,
    v1: SpecVal,
    k2: SpecVal,
    v2: SpecVal,
)
    requires
        s.len() > 0,
        spec_cmp(k1, k2) != Ordering::Equal,
        spec_cmp(k1, s[0].0) != Ordering::Greater,
        spec_cmp(k2, s[0].0) == Ordering::Greater,
    ensures
        map_set(map_set(s, k1, v1), k2, v2) == map_set(map_set(s, k2, v2), k1, v1),
{
    let h = s[0];
    let t = s.subrange(1, s.len() as int);
    lemma_cmp_flip(k1, k2);
    lemma_cmp_flip(k2, h.0);
    lemma_cmp_eq_iff(k1, h.0);
    let a1 = map_set(s, k1, v1);
    let b1 = map_set(s, k2, v2);
    assert(b1 == seq![h] + map_set(t, k2, v2));
    assert(b1.subrange(1, b1.len() as int) =~= map_set(t, k2, v2));
    if spec_cmp(k1, h.0) == Ordering::Less {
        lemma_cmp_trans(k1, h.0, k2);
        assert(a1 == seq![(k1, v1)] + s);
        assert(a1.subrange(1, a1.len() as int) =~= s);
        assert(spec_cmp(k2, a1[0].0) == Ordering::Greater);
        assert(map_set(a1, k2, v2) == seq![a1[0]] + map_set(
            a1.subrange(1, a1.len() as int),
            k2,
            v2,
        ));
        assert(spec_cmp(k1, b1[0].0) == Ordering::Less);
        assert(map_set(b1, k1, v1) == seq![(k1, v1)] + b1);
        assert(map_set(a1, k2, v2) =~= map_set(b1, k1, v1));
    } else {
        assert(k1 == h.0);
        assert(a1 == seq![(k1, v1)] + t);
        assert(a1.subrange(1, a1.len() as int) =~= t);
        assert(spec_cmp(k2, a1[0].0) == Ordering::Greater);
        assert(map_set(a1, k2, v2) == seq![a1[0]] + map_set(
            a1.subrange(1, a1.len() as int),
            k2,
            v2,
        ));
        assert(spec_cmp(k1, b1[0].0) == Ordering::Equal);
        assert(map_set(b1, k1, v1) == seq![(k1, v1)] + b1.subrange(1, b1.len() as int));
        assert(map_set(a1, k2, v2) =~= map_set(b1, k1, v1));
    }
}

/// Commutation when neither key lands strictly past the first entry:
/// at most one of them can equal its key, so they interleave at the
/// front.
proof fn lemma_msc_neither_greater(
    s: Seq<(SpecVal, SpecVal)>,
    k1: SpecVal,
    v1: SpecVal,
    k2: SpecVal,
    v2: SpecVal,
)
    requires
        s.len() > 0,
        spec_cmp(k1, k2) != Ordering::Equal,
        spec_cmp(k1, s[0].0) != Ordering::Greater,
        spec_cmp(k2, s[0].0) != Ordering::Greater,
    ensures
        map_set(map_set(s, k1, v1), k2, v2) == map_set(map_set(s, k2, v2), k1, v1),
{
    let h = s[0];
    let t = s.subrange(1, s.len() as int);
    lemma_cmp_flip(k1, k2);
    lemma_cmp_eq_iff(k1, h.0);
    lemma_cmp_eq_iff(k2, h.0);
    let c1 = spec_cmp(k1, h.0);
    let c2 = spec_cmp(k2, h.0);
    let a1 = map_set(s, k1, v1);
    let b1 = map_set(s, k2, v2);
    if c1 == Ordering::Equal {
        assert(spec_cmp(k2, k1) == c2);
        assert(a1 == seq![(k1, v1)] + t);
        assert(b1 == seq![(k2, v2)] + s);
        assert(b1.subrange(1, b1.len() as int) =~= s);
        assert(spec_cmp(k2, a1[0].0) == Ordering::Less);
        assert(map_set(a1, k2, v2) == seq![(k2, v2)] + a1);
        assert(spec_cmp(k1, b1[0].0) == Ordering::Greater);
        assert(map_set(b1, k1, v1) == seq![b1[0]] + map_set(
            b1.subrange(1, b1.len() as int),
            k1,
            v1,
        ));
        assert(map_set(b1, k1, v1) =~= map_set(a1, k2, v2));
    } else if c2 == Ordering::Equal {
        assert(spec_cmp(k1, k2) == c1);
        assert(a1 == seq![(k1, v1)] + s);
        assert(b1 == seq![(k2, v2)] + t);
        assert(a1.subrange(1, a1.len() as int) =~= s);
        assert(spec_cmp(k2, a1[0].0) == Ordering::Greater);
        assert(map_set(a1, k2, v2) == seq![a1[0]] + map_set(
            a1.subrange(1, a1.len() as int),
            k2,
            v2,
        ));
        assert(spec_cmp(k1, b1[0].0) == Ordering::Less);
        assert(map_set(b1, k1, v1) == seq![(k1, v1)] + b1);
        assert(map_set(a1, k2, v2) =~= map_set(b1, k1, v1));
    } else {
        assert(a1 == seq![(k1, v1)] + s);
        assert(b1 == seq![(k2, v2)] + s);
        assert(a1.subrange(1, a1.len() as int) =~= s);
        assert(b1.subrange(1, b1.len() as int) =~= s);
        if spec_cmp(k1, k2) == Ordering::Less {
            assert(spec_cmp(k2, a1[0].0) == Ordering::Greater);
            assert(map_set(a1, k2, v2) == seq![a1[0]] + map_set(
                a1.subrange(1, a1.len() as int),
                k2,
                v2,
            ));
            assert(spec_cmp(k1, b1[0].0) == Ordering::Less);
            assert(map_set(b1, k1, v1) == seq![(k1, v1)] + b1);
            assert(map_set(a1, k2, v2) =~= map_set(b1, k1, v1));
        } else {
            assert(spec_cmp(k2, a1[0].0) == Ordering::Less);
            assert(map_set(a1, k2, v2) == seq![(k2, v2)] + a1);
            assert(spec_cmp(k1, b1[0].0) == Ordering::Greater);
            assert(map_set(b1, k1, v1) == seq![b1[0]] + map_set(
                b1.subrange(1, b1.len() as int),
                k1,
                v1,
            ));
            assert(map_set(b1, k1, v1) =~= map_set(a1, k2, v2));
        }
    }
}

/// One step of building a map: inserting the next entry into the map
/// built from the entries before it.
pub proof fn lemma_map_build_step(entries: Seq<(SpecVal, SpecVal)>, n: int)
    requires
        0 <= n < entries.len(),
    ensures
        map_build(entries.subrange(0, n + 1)) == map_set(
            map_build(entries.subrange(0, n)),
            entries[n].0,
            entries[n].1,
        ),
{
    let p = entries.subrange(0, n + 1);
    assert(p.subrange(0, p.len() - 1) =~= entries.subrange(0, n));
    assert(p[p.len() - 1] == entries[n]);
}

/// Insertion order matters only between entries sharing a key:
/// exchanging two adjacent entries whose keys compare as distinct builds
/// the same map.
pub proof fn lemma_map_build_swap_adjacent(entries: Seq<(SpecVal, SpecVal)>, i: int)
    requires
        0 <= i,
        i + 1 < entries.len(),
        spec_cmp(entries[i].0, entries[i + 1].0) != Ordering::Equal,
    ensures
        map_build(entries.update(i, entries[i + 1]).update(i + 1, entries[i])) == map_build(
            entries,
        ),
    decreases entries.len(),
{
    let n = entries.len() as int;
    let e2 = entries.update(i, entries[i + 1]).update(i + 1, entries[i]);
    assert(entries.subrange(0, n) =~= entries);
    assert(e2.subrange(0, n) =~= e2);
    if i + 1 == n - 1 {
        let p = entries.subrange(0, n - 2);
        assert(e2.subrange(0, n - 2) =~= p);
        lemma_map_build_step(entries, n - 1);
        lemma_map_build_step(entries, n - 2);
        lemma_map_build_step(e2, n - 1);
        lemma_map_build_step(e2, n - 2);
        assert(e2[n - 2] == entries[n - 1]);
        assert(e2[n - 1] == entries[n - 2]);
        lemma_map_set_commute(
            map_build(p),
            entries[n - 2].0,
            entries[n - 2].1,
            entries[n - 1].0,
            entries[n - 1].1,
        );
    } else {
        let p = entries.subrange(0, n - 1);
        let p2 = e2.subrange(0, n - 1);
        assert(p2 =~= p.update(i, p[i + 1]).update(i + 1, p[i]));
        lemma_map_build_swap_adjacent(p, i);
        lemma_map_build_step(entries, n - 1);
        lemma_map_build_step(e2, n - 1);
        assert(e2[n - 1] == entries[n - 1]);
    }
}

/// The opposite of an ordering outcome.
pub open spec fn rev_ord(o: Ordering) -> Ordering {
    match o {
        Ordering::Less => Ordering::Greater,
        Ordering::Equal => Ordering::Equal,
        Ordering::Greater => Ordering::Less,
    }
}

/// Lexicographic order on sequences of key-value pairs: a pair is ordered
/// by its key first, then its value.
pub open spec fn cmp_pairs(a: Seq<(SpecVal, SpecVal)>, b: Seq<(SpecVal, SpecVal)>) -> Ordering
    decreases a, b,
{
    if a.len() == 0 && b.len() == 0 {
        Ordering::Equal
    } else if a.len() == 0 {
        Ordering::Less
    } else if b.len() == 0 {
        Ordering::Greater
    } else {
        let ck = spec_cmp(a[0].0, b[0].0);
        if ck == Ordering::Equal {
            let cv = spec_cmp(a[0].1, b[0].1);
            if cv == Ordering::Equal {
                cmp_pairs(a.subrange(1, a.len() as int), b.subrange(1, b.len() as int))
            } else {
                cv
            }
        } else {
            ck
        }
    }
}

/// Two byte sequences compare as equal exactly when they are the same
/// sequence.
pub proof fn lemma_cmp_bytes_eq_iff(a: Seq<u8>, b: Seq<u8>)
    ensures
        (cmp_bytes(a, b) == Ordering::Equal) <==> (a == b),
    decreases a.len(),
{
    if a.len() == 0 && b.len() == 0 {
        assert(a =~= b);
    } else if a.len() == 0 || b.len() == 0 {
        assert(a != b);
    } else if a[0] == b[0] {
        let ta = a.subrange(1, a.len() as int);
        let tb = b.subrange(1, b.len() as int);
        lemma_cmp_bytes_eq_iff(ta, tb);
        if cmp_bytes(a, b) == Ordering::Equal {
            assert(ta == tb);
            assert forall|i: int| 0 <= i < a.len() implies a[i] == b[i] by {
                if i > 0 {
                    assert(a[i] == ta[i - 1]);
                    assert(b[i] == tb[i - 1]);
                }
            }
            assert(a =~= b);
        }
        if a == b {
            assert(ta =~= tb);
        }
    } else {
        assert(a != b);
    }
}

/// Swapping the operands of the byte order reverses its outcome.
pub proof fn lemma_cmp_bytes_flip(a: Seq<u8>, b: Seq<u8>)
    ensures
        cmp_bytes(b, a) == rev_ord(cmp_bytes(a, b)),
    decreases a.len(),
{
    if a.len() > 0 && b.len() > 0 && a[0] == b[0] {
        lemma_cmp_bytes_flip(a.subrange(1, a.len() as int), b.subrange(1, b.len() as int));
    }
}

/// The byte order is transitive in its strict part.
pub proof fn lemma_cmp_bytes_trans(a: Seq<u8>, b: Seq<u8>, c: Seq<u8>)
    requires
        cmp_bytes(a, b) == Ordering::Less,
        cmp_bytes(b, c) == Ordering::Less,
    ensures
        cmp_bytes(a, c) == Ordering::Less,
    decreases a.len(),
{
    if a.len() == 0 {
    } else {
        assert(b.len() > 0);
        assert(c.len() > 0);
        if a[0] == b[0] && b[0] == c[0] {
            lemma_cmp_bytes_trans(
                a.subrange(1, a.len() as int),
                b.subrange(1, b.len() as int),
                c.subrange(1, c.len() as int),
            );
        }
    }
}

/// Comparing byte sequences that agree on a prefix is comparing what
/// follows the prefix.
pub proof fn lemma_cmp_bytes_skip(a: Seq<u8>, b: Seq<u8>, k: int)
    requires
        0 <= k <= a.len(),
        k <= b.len(),
        forall|j: int| 0 <= j < k ==> a[j] == b[j],
    ensures
        cmp_bytes(a, b) == cmp_bytes(a.subrange(k, a.len() as int), b.subrange(k, b.len() as int)),
    decreases k,
{
    if k == 0 {
        assert(a.subrange(0, a.len() as int) =~= a);
        assert(b.subrange(0, b.len() as int) =~= b);
    } else {
        let ta = a.subrange(1, a.len() as int);
        let tb = b.subrange(1, b.len() as int);
        assert forall|j: int| 0 <= j < k - 1 implies ta[j] == tb[j] by {
            assert(ta[j] == a[j + 1]);
            assert(tb[j] == b[j + 1]);
        }
        lemma_cmp_bytes_skip(ta, tb, k - 1);
        assert(ta.subrange(k - 1, ta.len() as int) =~= a.subrange(k, a.len() as int));
        assert(tb.subrange(k - 1, tb.len() as int) =~= b.subrange(k, b.len() as int));
    }
}

/// Comparing value sequences that agree on a prefix is comparing what
/// follows the prefix.
pub proof fn lemma_cmp_seq_skip(a: Seq<SpecVal>, b: Seq<SpecVal>, k: int)
    requires
        0 <= k <= a.len(),
        k <= b.len(),
        forall|j: int| 0 <= j < k ==> a[j] == b[j],
    ensures
        cmp_seq(a, b) == cmp_seq(a.subrange(k, a.len() as int), b.subrange(k, b.len() as int)),
    decreases k,
{
    if k == 0 {
        assert(a.subrange(0, a.len() as int) =~= a);
        assert(b.subrange(0, b.len() as int) =~= b);
    } else {
        lemma_cmp_refl(a[0]);
        let ta = a.subrange(1, a.len() as int);
        let tb = b.subrange(1, b.len() as int);
        assert forall|j: int| 0 <= j < k - 1 implies ta[j] == tb[j] by {
            assert(ta[j] == a[j + 1]);
            assert(tb[j] == b[j + 1]);
        }
        lemma_cmp_seq_skip(ta, tb, k - 1);
        assert(ta.subrange(k - 1, ta.len() as int) =~= a.subrange(k, a.len() as int));
        assert(tb.subrange(k - 1, tb.len() as int) =~= b.subrange(k, b.len() as int));
    }
}

/// Comparing pair sequences that agree on a prefix is comparing what
/// follows the prefix.
pub proof fn lemma_cmp_pairs_skip(a: Seq<(SpecVal, SpecVal)>, b: Seq<(SpecVal, SpecVal)>, k: int)
    requires
        0 <= k <= a.len(),
        k <= b.len(),
        forall|j: int| 0 <= j < k ==> a[j] == b[j],
    ensures
        cmp_pairs(a, b) == cmp_pairs(
            a.subrange(k, a.len() as int),
            b.subrange(k, b.len() as int),
        ),
    decreases k,
{
    if k == 0 {
        assert(a.subrange(0, a.len() as int) =~= a);
        assert(b.subrange(0, b.len() as int) =~= b);
    } else {
        lemma_cmp_refl(a[0].0);
        lemma_cmp_refl(a[0].1);
        let ta = a.subrange(1, a.len() as int);
        let tb = b.subrange(1, b.len() as int);
        assert forall|j: int| 0 <= j < k - 1 implies ta[j] == tb[j] by {
            assert(ta[j] == a[j + 1]);
            assert(tb[j] == b[j + 1]);
        }
        lemma_cmp_pairs_skip(ta, tb, k - 1);
        assert(ta.subrange(k - 1, ta.len() as int) =~= a.subrange(k, a.len() as int));
        assert(tb.subrange(k - 1, tb.len() as int) =~= b.subrange(k, b.len() as int));
    }
}

/// Comparing unsigned 256-bit quantities by their numeric value is
/// comparing their limbs most significant first.
pub proof fn lemma_u256_cmp(
    a3: u64,
    a2: u64,
    a1: u64,
    a0: u64,
    b3: u64,
    b2: u64,
    b1: u64,
    b0: u64,
)
    ensures
        cmp_int(u256_int(a3, a2, a1, a0), u256_int(b3, b2, b1, b0)) == (if a3 != b3 {
            cmp_int(a3 as int, b3 as int)
        } else if a2 != b2 {
            cmp_int(a2 as int, b2 as int)
        } else if a1 != b1 {
            cmp_int(a1 as int, b1 as int)
        } else {
            cmp_int(a0 as int, b0 as int)
        }),
{
}

/// Comparing signed 256-bit quantities by their numeric value is comparing
/// their limbs most significant first, the top limb as signed.
pub proof fn lemma_i256_cmp(
    a3: i64,
    a2: u64,
    a1: u64,
    a0: u64,
    b3: i64,
    b2: u64,
    b1: u64,
    b0: u64,
)
    ensures
        cmp_int(i256_int(a3, a2, a1, a0), i256_int(b3, b2, b1, b0)) == (if a3 != b3 {
            cmp_int(a3 as int, b3 as int)
        } else if a2 != b2 {
            cmp_int(a2 as int, b2 as int)
        } else if a1 != b1 {
            cmp_int(a1 as int, b1 as int)
        } else {
            cmp_int(a0 as int, b0 as int)
        }),
{
}

/// Two abstract values compare as equal exactly when they are the same
/// value.
pub proof fn lemma_cmp_eq_iff(a: SpecVal, b: SpecVal)
    ensures
        (spec_cmp(a, b) == Ordering::Equal) <==> (a == b),
    decreases a, b,
{
    if rank(a) != rank(b) {
    } else {
        match (a, b) {
            (SpecVal::Bytes(x), SpecVal::Bytes(y)) => lemma_cmp_bytes_eq_iff(x, y),
            (SpecVal::String(x), SpecVal::String(y)) => lemma_cmp_bytes_eq_iff(x, y),
            (SpecVal::Symbol(x), SpecVal::Symbol(y)) => lemma_cmp_bytes_eq_iff(x, y),
            (SpecVal::Address(x), SpecVal::Address(y)) => lemma_cmp_bytes_eq_iff(x, y),
            (SpecVal::Vec(Option::Some(sx)), SpecVal::Vec(Option::Some(sy))) => {
                lemma_cmp_seq_eq_iff(sx, sy);
            },
            (SpecVal::MapVal(Option::Some(sx)), SpecVal::MapVal(Option::Some(sy))) => {
                lemma_cmp_pairs_eq_iff(sx, sy);
            },
            _ => {},
        }
    }
}

/// Two sequences of abstract values compare as equal exactly when they are
/// the same sequence.
pub proof fn lemma_cmp_seq_eq_iff(a: Seq<SpecVal>, b: Seq<SpecVal>)
    ensures
        (cmp_seq(a, b) == Ordering::Equal) <==> (a == b),
    decreases a, b,
{
    if a.len() == 0 && b.len() == 0 {
        assert(a =~= b);
    } else if a.len() == 0 || b.len() == 0 {
        assert(a != b);
    } else {
        lemma_cmp_eq_iff(a[0], b[0]);
        if spec_cmp(a[0], b[0]) == Ordering::Equal {
            let ta = a.subrange(1, a.len() as int);
            let tb = b.subrange(1, b.len() as int);
            lemma_cmp_seq_eq_iff(ta, tb);
            if cmp_seq(a, b) == Ordering::Equal {
                assert(ta == tb);
                assert forall|i: int| 0 <= i < a.len() implies a[i] == b[i] by {
                    if i > 0 {
                        assert(a[i] == ta[i - 1]);
                        assert(b[i] == tb[i - 1]);
                    }
                }
                assert(a =~= b);
            }
            if a == b {
                assert(ta =~= tb);
            }
        } else {
            assert(a != b);
        }
    }
}

/// Two sequences of pairs of abstract values compare as equal exactly when
/// they are the same sequence.
pub proof fn lemma_cmp_pairs_eq_iff(a: Seq<(SpecVal, SpecVal)>, b: Seq<(SpecVal, SpecVal)>)
    ensures
        (cmp_pairs(a, b) == Ordering::Equal) <==> (a == b),
    decreases a, b,
{
    if a.len() == 0 && b.len() == 0 {
        assert(a =~= b);
    } else if a.len() == 0 || b.len() == 0 {
        assert(a != b);
    } else {
        lemma_cmp_eq_iff(a[0].0, b[0].0);
        lemma_cmp_eq_iff(a[0].1, b[0].1);
        if spec_cmp(a[0].0, b[0].0) == Ordering::Equal && spec_cmp(a[0].1, b[0].1)
            == Ordering::Equal {
            let ta = a.subrange(1, a.len() as int);
            let tb = b.subrange(1, b.len() as int);
            lemma_cmp_pairs_eq_iff(ta, tb);
            if cmp_pairs(a, b) == Ordering::Equal {
                assert(ta == tb);
                assert forall|i: int| 0 <= i < a.len() implies a[i] == b[i] by {
                    if i > 0 {
                        assert(a[i] == ta[i - 1]);
                        assert(b[i] == tb[i - 1]);
                    }
                }
                assert(a =~= b);
            }
            if a == b {
                assert(ta =~= tb);
            }
        } else {
            assert(a != b);
        }
    }
}

/// A value compares as equal to itself.
pub proof fn lemma_cmp_refl(a: SpecVal)
    ensures
        spec_cmp(a, a) == Ordering::Equal,
{
    lemma_cmp_eq_iff(a, a);
}

/// Swapping the operands of the order reverses its outcome.
pub proof fn lemma_cmp_flip(a: SpecVal, b: SpecVal)
    ensures
        spec_cmp(b, a) == rev_ord(spec_cmp(a, b)),
    decreases a, b,
{
    if rank(a) != rank(b) {
    } else {
        match (a, b) {
            (SpecVal::Bytes(x), SpecVal::Bytes(y)) => lemma_cmp_bytes_flip(x, y),
            (SpecVal::String(x), SpecVal::String(y)) => lemma_cmp_bytes_flip(x, y),
            (SpecVal::Symbol(x), SpecVal::Symbol(y)) => lemma_cmp_bytes_flip(x, y),
            (SpecVal::Address(x), SpecVal::Address(y)) => lemma_cmp_bytes_flip(x, y),
            (SpecVal::Vec(Option::Some(sx)), SpecVal::Vec(Option::Some(sy))) => {
                lemma_cmp_seq_flip(sx, sy);
            },
            (SpecVal::MapVal(Option::Some(sx)), SpecVal::MapVal(Option::Some(sy))) => {
                lemma_cmp_pairs_flip(sx, sy);
            },
            _ => {},
        }
    }
}

/// Swapping the operands of the sequence order reverses its outcome.
pub proof fn lemma_cmp_seq_flip(a: Seq<SpecVal>, b: Seq<SpecVal>)
    ensures
        cmp_seq(b, a) == rev_ord(cmp_seq(a, b)),
    decreases a, b,
{
    if a.len() > 0 && b.len() > 0 {
        lemma_cmp_flip(a[0], b[0]);
        if spec_cmp(a[0], b[0]) == Ordering::Equal {
            lemma_cmp_seq_flip(a.subrange(1, a.len() as int), b.subrange(1, b.len() as int));
        }
    }
}

/// Swapping the operands of the pair-sequence order reverses its outcome.
pub proof fn lemma_cmp_pairs_flip(a: Seq<(SpecVal, SpecVal)>, b: Seq<(SpecVal, SpecVal)>)
    ensures
        cmp_pairs(b, a) == rev_ord(cmp_pairs(a, b)),
    decreases a, b,
{
    if a.len() > 0 && b.len() > 0 {
        lemma_cmp_flip(a[0].0, b[0].0);
        lemma_cmp_flip(a[0].1, b[0].1);
        if spec_cmp(a[0].0, b[0].0) == Ordering::Equal && spec_cmp(a[0].1, b[0].1)
            == Ordering::Equal {
            lemma_cmp_pairs_flip(a.subrange(1, a.len() as int), b.subrange(1, b.len() as int));
        }
    }
}

/// The order on abstract values is transitive in its strict part.
pub proof fn lemma_cmp_trans(a: SpecVal, b: SpecVal, c: SpecVal)
    requires
        spec_cmp(a, b) == Ordering::Less,
        spec_cmp(b, c) == Ordering::Less,
    ensures
        spec_cmp(a, c) == Ordering::Less,
    decreases a, b, c,
{
    if rank(a) == rank(b) && rank(b) == rank(c) {
        match (a, b, c) {
            (SpecVal::Bytes(x), SpecVal::Bytes(y), SpecVal::Bytes(z)) => {
                lemma_cmp_bytes_trans(x, y, z);
            },
            (SpecVal::String(x), SpecVal::String(y), SpecVal::String(z)) => {
                lemma_cmp_bytes_trans(x, y, z);
            },
            (SpecVal::Symbol(x), SpecVal::Symbol(y), SpecVal::Symbol(z)) => {
                lemma_cmp_bytes_trans(x, y, z);
            },
            (SpecVal::Address(x), SpecVal::Address(y), SpecVal::Address(z)) => {
                lemma_cmp_bytes_trans(x, y, z);
            },
            (
                SpecVal::Vec(Option::Some(sx)),
                SpecVal::Vec(Option::Some(sy)),
                SpecVal::Vec(Option::Some(sz)),
            ) => {
                lemma_cmp_seq_trans(sx, sy, sz);
            },
            (
                SpecVal::MapVal(Option::Some(sx)),
                SpecVal::MapVal(Option::Some(sy)),
                SpecVal::MapVal(Option::Some(sz)),
            ) => {
                lemma_cmp_pairs_trans(sx, sy, sz);
            },
            _ => {},
        }
    }
}

/// The order on sequences of abstract values is transitive in its strict
/// part.
pub proof fn lemma_cmp_seq_trans(a: Seq<SpecVal>, b: Seq<SpecVal>, c: Seq<SpecVal>)
    requires
        cmp_seq(a, b) == Ordering::Less,
        cmp_seq(b, c) == Ordering::Less,
    ensures
        cmp_seq(a, c) == Ordering::Less,
    decreases a, b, c,
{
    assert(b.len() > 0);
    assert(c.len() > 0);
    if a.len() == 0 {
    } else {
        let cab = spec_cmp(a[0], b[0]);
        let cbc = spec_cmp(b[0], c[0]);
        lemma_cmp_eq_iff(a[0], b[0]);
        lemma_cmp_eq_iff(b[0], c[0]);
        if cab == Ordering::Less && cbc == Ordering::Less {
            lemma_cmp_trans(a[0], b[0], c[0]);
        } else if cab == Ordering::Equal && cbc == Ordering::Equal {
            lemma_cmp_seq_trans(
                a.subrange(1, a.len() as int),
                b.subrange(1, b.len() as int),
                c.subrange(1, c.len() as int),
            );
        }
    }
}

/// The order on sequences of pairs of abstract values is transitive in its
/// strict part.
pub proof fn lemma_cmp_pairs_trans(
    a: Seq<(SpecVal, SpecVal)>,
    b: Seq<(SpecVal, SpecVal)>,
    c: Seq<(SpecVal, SpecVal)>,
)
    requires
        cmp_pairs(a, b) == Ordering::Less,
        cmp_pairs(b, c) == Ordering::Less,
    ensures
        cmp_pairs(a, c) == Ordering::Less,
    decreases a, b, c,
{
    assert(b.len() > 0);
    assert(c.len() > 0);
    if a.len() == 0 {
    } else {
        let kab = spec_cmp(a[0].0, b[0].0);
        let kbc = spec_cmp(b[0].0, c[0].0);
        lemma_cmp_eq_iff(a[0].0, b[0].0);
        lemma_cmp_eq_iff(b[0].0, c[0].0);
        if kab == Ordering::Less && kbc == Ordering::Less {
            lemma_cmp_trans(a[0].0, b[0].0, c[0].0);
        } else if kab == Ordering::Equal && kbc == Ordering::Equal {
            let vab = spec_cmp(a[0].1, b[0].1);
            let vbc = spec_cmp(b[0].1, c[0].1);
            lemma_cmp_eq_iff(a[0].1, b[0].1);
            lemma_cmp_eq_iff(b[0].1, c[0].1);
            if vab == Ordering::Less && vbc == Ordering::Less {
                lemma_cmp_trans(a[0].1, b[0].1, c[0].1);
            } else if vab == Ordering::Equal && vbc == Ordering::Equal {
                lemma_cmp_pairs_trans(
                    a.subrange(1, a.len() as int),
                    b.subrange(1, b.len() as int),
                    c.subrange(1, c.len() as int),
                );
            }
        }
    }
}

} // verus!
