//! Structured random generation of values, driven by a byte oracle.
//!
//! A prototype is plain data that can be drawn from the oracle with no
//! environment at hand, and realized later into a tagged value of a given
//! environment.  Every value kind has a prototype, and user-defined record
//! and variant types obtain one by composing the prototypes of their
//! fields.  Generation is bounded in depth and size, and every generated
//! prototype realizes successfully: symbols, for instance, are drawn from
//! their legal alphabet only.

use vstd::prelude::*;

use crate::model::{
    is_symbol_byte, map_build, map_set, pairs_sorted, symbol_ok, SpecVal, ADDRESS_LEN,
};
use crate::env::{
    env_extends, env_wf, lemma_extends_trans, lemma_pairs_model_index,
    lemma_rv_model_extends_full, lemma_vals_model_index, pairs_model, rv_model, rv_model_b,
    some_or_void, vals_model, Env, HostObject,
};
use crate::val::{ConversionError, RawVal};
use core::cmp::Ordering;

verus! {

/// A finite, restartable source of bytes: the randomness budget of one
/// generation run.  Reading past the end yields zero bytes, so every
/// generator is total and deterministic in the oracle's contents.
pub struct ByteOracle {
    pub data: Vec<u8>,
    pub pos: usize,
}

/// One oracle step: the byte found at a position of the contents, and
/// the position after; past the end the byte is zero and the position
/// stays.
pub open spec fn take_byte(data: Seq<u8>, pos: int) -> (u8, int) {
    if 0 <= pos < data.len() {
        (data[pos], pos + 1)
    } else {
        (0u8, pos)
    }
}

/// Four oracle steps composed into an unsigned 32-bit quantity, most
/// significant byte first.
pub open spec fn take_u32(data: Seq<u8>, pos: int) -> (u32, int) {
    let (b0, p0) = take_byte(data, pos);
    let (b1, p1) = take_byte(data, p0);
    let (b2, p2) = take_byte(data, p1);
    let (b3, p3) = take_byte(data, p2);
    (
        ((b0 as u32) * 0x1000000 + (b1 as u32) * 0x10000 + (b2 as u32) * 0x100
            + (b3 as u32)) as u32,
        p3,
    )
}

/// Eight oracle steps composed into an unsigned 64-bit quantity, most
/// significant byte first.
pub open spec fn take_u64(data: Seq<u8>, pos: int) -> (u64, int) {
    let (hi, p0) = take_u32(data, pos);
    let (lo, p1) = take_u32(data, p0);
    (((hi as u64) * 0x100000000 + (lo as u64)) as u64, p1)
}

/// Sixteen oracle steps composed into an unsigned 128-bit quantity, most
/// significant byte first.
pub open spec fn take_u128(data: Seq<u8>, pos: int) -> (u128, int) {
    let (hi, p0) = take_u64(data, pos);
    let (lo, p1) = take_u64(data, p0);
    (((hi as u128) * 0x10000000000000000 + (lo as u128)) as u128, p1)
}

/// A run of oracle steps: the next `n` bytes of the contents and the
/// position after them.
pub open spec fn take_n_bytes(data: Seq<u8>, pos: int, n: nat) -> (Seq<u8>, int)
    decreases n,
{
    if n == 0 {
        (Seq::empty(), pos)
    } else {
        let (b, p0) = take_byte(data, pos);
        let (rest, p1) = take_n_bytes(data, p0, (n - 1) as nat);
        (seq![b] + rest, p1)
    }
}

/// A length byte bounded by `m`, then that many oracle bytes.
pub open spec fn take_sized_bytes(data: Seq<u8>, pos: int, m: u8) -> (Seq<u8>, int) {
    let (lb, p0) = take_byte(data, pos);
    take_n_bytes(data, p0, (lb % m) as nat)
}

impl ByteOracle {
    /// An oracle over the given bytes, positioned at the start.
    pub fn new(data: Vec<u8>) -> (r: ByteOracle)
        ensures
            r.data@ == data@,
            r.pos == 0,
    {
        ByteOracle { data, pos: 0 }
    }

    /// The next byte, or zero when the bytes are exhausted.
    pub fn next_byte(&mut self) -> (r: u8)
        ensures
            final(self).data@ == old(self).data@,
            r == take_byte(old(self).data@, old(self).pos as int).0,
            final(self).pos as int == take_byte(old(self).data@, old(self).pos as int).1,
    {
        if self.pos < self.data.len() {
            let b = self.data[self.pos];
            self.pos = self.pos + 1;
            b
        } else {
            0
        }
    }

    /// The next four bytes as an unsigned 32-bit quantity, most
    /// significant byte first.
    pub fn next_u32(&mut self) -> (r: u32)
        ensures
            final(self).data@ == old(self).data@,
            r == take_u32(old(self).data@, old(self).pos as int).0,
            final(self).pos as int == take_u32(old(self).data@, old(self).pos as int).1,
    {
        let b0 = self.next_byte();
        let b1 = self.next_byte();
        let b2 = self.next_byte();
        let b3 = self.next_byte();
        (b0 as u32) * 0x1000000 + (b1 as u32) * 0x10000 + (b2 as u32) * 0x100 + (b3 as u32)
    }

    /// The next eight bytes as an unsigned 64-bit quantity, most
    /// significant byte first.
    pub fn next_u64(&mut self) -> (r: u64)
        ensures
            final(self).data@ == old(self).data@,
            r == take_u64(old(self).data@, old(self).pos as int).0,
            final(self).pos as int == take_u64(old(self).data@, old(self).pos as int).1,
    {
        let hi = self.next_u32();
        let lo = self.next_u32();
        (hi as u64) * 0x100000000 + (lo as u64)
    }

    /// The next sixteen bytes as an unsigned 128-bit quantity, most
    /// significant byte first.
    pub fn next_u128(&mut self) -> (r: u128)
        ensures
            final(self).data@ == old(self).data@,
            r == take_u128(old(self).data@, old(self).pos as int).0,
            final(self).pos as int == take_u128(old(self).data@, old(self).pos as int).1,
    {
        let hi = self.next_u64();
        let lo = self.next_u64();
        (hi as u128) * 0x10000000000000000 + (lo as u128)
    }
}

/// A value that can be drawn from the byte oracle as a prototype and
/// realized into a tagged value of an environment.
///
/// `wf` is the prototype's own well-formedness; `generate` establishes it
/// and `realize` relies on it.  `model` is the abstract value the
/// prototype denotes; realization always succeeds on a well-formed
/// prototype and produces a tagged value with exactly that model, growing
/// the environment's store as needed.
///
/// `gen_spec` is the mathematical mirror of generation: from the
/// oracle's contents and a position it gives the abstract value drawn
/// and the position after.  `generate` draws a prototype denoting
/// exactly that value and leaves the oracle at exactly that position, so
/// generation is seed-driven and restartable: equal oracle contents give
/// equal values, with no hidden state.
pub trait SorobanArbitrary: Sized {
    /// Well-formedness of the prototype.
    spec fn wf(&self) -> bool;

    /// The abstract value the prototype denotes.
    spec fn model(&self) -> SpecVal;

    /// The abstract value drawing from the given oracle contents at the
    /// given position yields, and the position after.
    spec fn gen_spec(data: Seq<u8>, pos: int) -> (SpecVal, int);

    /// Draws a well-formed prototype from the oracle, deterministically
    /// in the oracle's bytes.
    fn generate(u: &mut ByteOracle) -> (r: Self)
        ensures
            r.wf(),
            final(u).data@ == old(u).data@,
            r.model() == Self::gen_spec(old(u).data@, old(u).pos as int).0,
            final(u).pos as int == Self::gen_spec(old(u).data@, old(u).pos as int).1,
    ;

    /// Realizes the prototype in an environment.
    fn realize(&self, env: &mut Env) -> (r: Result<RawVal, ConversionError>)
        requires
            self.wf(),
            env_wf(*old(env)),
        ensures
            env_wf(*final(env)),
            env_extends(*old(env), *final(env)),
            r matches Result::Ok(v) && rv_model(*final(env), v) == Option::Some(self.model()),
    ;
}

impl SorobanArbitrary for () {
    open spec fn wf(&self) -> bool {
        true
    }

    open spec fn model(&self) -> SpecVal {
        SpecVal::Void
    }

    open spec fn gen_spec(data: Seq<u8>, pos: int) -> (SpecVal, int) {
        (SpecVal::Void, pos)
    }

    fn generate(u: &mut ByteOracle) -> Self {
    }

    fn realize(&self, env: &mut Env) -> Result<RawVal, ConversionError> {
        Result::Ok(RawVal::Void)
    }
}

impl SorobanArbitrary for bool {
    open spec fn wf(&self) -> bool {
        true
    }

    open spec fn model(&self) -> SpecVal {
        SpecVal::Bool(*self)
    }

    open spec fn gen_spec(data: Seq<u8>, pos: int) -> (SpecVal, int) {
        let (b, p) = take_byte(data, pos);
        (SpecVal::Bool(b % 2 == 1), p)
    }

    fn generate(u: &mut ByteOracle) -> Self {
        u.next_byte() % 2 == 1
    }

    fn realize(&self, env: &mut Env) -> Result<RawVal, ConversionError> {
        Result::Ok(RawVal::Bool(*self))
    }
}

impl SorobanArbitrary for u32 {
    open spec fn wf(&self) -> bool {
        true
    }

    open spec fn model(&self) -> SpecVal {
        SpecVal::U32(*self)
    }

    open spec fn gen_spec(data: Seq<u8>, pos: int) -> (SpecVal, int) {
        let (x, p) = take_u32(data, pos);
        (SpecVal::U32(x), p)
    }

    fn generate(u: &mut ByteOracle) -> Self {
        u.next_u32()
    }

    fn realize(&self, env: &mut Env) -> Result<RawVal, ConversionError> {
        Result::Ok(RawVal::U32(*self))
    }
}

impl SorobanArbitrary for i32 {
    open spec fn wf(&self) -> bool {
        true
    }

    open spec fn model(&self) -> SpecVal {
        SpecVal::I32(*self)
    }

    open spec fn gen_spec(data: Seq<u8>, pos: int) -> (SpecVal, int) {
        let (x, p) = take_u32(data, pos);
        (SpecVal::I32(x as i32), p)
    }

    fn generate(u: &mut ByteOracle) -> Self {
        u.next_u32() as i32
    }

    fn realize(&self, env: &mut Env) -> Result<RawVal, ConversionError> {
        Result::Ok(RawVal::I32(*self))
    }
}

impl SorobanArbitrary for u64 {
    open spec fn wf(&self) -> bool {
        true
    }

    open spec fn model(&self) -> SpecVal {
        SpecVal::U64(*self)
    }

    open spec fn gen_spec(data: Seq<u8>, pos: int) -> (SpecVal, int) {
        let (x, p) = take_u64(data, pos);
        (SpecVal::U64(x), p)
    }

    fn generate(u: &mut ByteOracle) -> Self {
        u.next_u64()
    }

    fn realize(&self, env: &mut Env) -> Result<RawVal, ConversionError> {
        Result::Ok(RawVal::U64(*self))
    }
}

impl SorobanArbitrary for i64 {
    open spec fn wf(&self) -> bool {
        true
    }

    open spec fn model(&self) -> SpecVal {
        SpecVal::I64(*self)
    }

    open spec fn gen_spec(data: Seq<u8>, pos: int) -> (SpecVal, int) {
        let (x, p) = take_u64(data, pos);
        (SpecVal::I64(x as i64), p)
    }

    fn generate(u: &mut ByteOracle) -> Self {
        u.next_u64() as i64
    }

    fn realize(&self, env: &mut Env) -> Result<RawVal, ConversionError> {
        Result::Ok(RawVal::I64(*self))
    }
}

impl SorobanArbitrary for u128 {
    open spec fn wf(&self) -> bool {
        true
    }

    open spec fn model(&self) -> SpecVal {
        SpecVal::U128(*self)
    }

    open spec fn gen_spec(data: Seq<u8>, pos: int) -> (SpecVal, int) {
        let (x, p) = take_u128(data, pos);
        (SpecVal::U128(x), p)
    }

    fn generate(u: &mut ByteOracle) -> Self {
        u.next_u128()
    }

    fn realize(&self, env: &mut Env) -> (r: Result<RawVal, ConversionError>) {
        match env.allocate(HostObject::U128(*self)) {
            Result::Ok(h) => Result::Ok(RawVal::U128(h)),
            Result::Err(..) => {
                proof {
                    assert(false);
                }
                Result::Err(ConversionError::InvalidShape)
            },
        }
    }
}

impl SorobanArbitrary for i128 {
    open spec fn wf(&self) -> bool {
        true
    }

    open spec fn model(&self) -> SpecVal {
        SpecVal::I128(*self)
    }

    open spec fn gen_spec(data: Seq<u8>, pos: int) -> (SpecVal, int) {
        let (x, p) = take_u128(data, pos);
        (SpecVal::I128(x as i128), p)
    }

    fn generate(u: &mut ByteOracle) -> Self {
        u.next_u128() as i128
    }

    fn realize(&self, env: &mut Env) -> (r: Result<RawVal, ConversionError>) {
        match env.allocate(HostObject::I128(*self)) {
            Result::Ok(h) => Result::Ok(RawVal::I128(h)),
            Result::Err(..) => {
                proof {
                    assert(false);
                }
                Result::Err(ConversionError::InvalidShape)
            },
        }
    }
}

impl SorobanArbitrary for crate::val::Error {
    open spec fn wf(&self) -> bool {
        true
    }

    open spec fn model(&self) -> SpecVal {
        SpecVal::Error(self.code)
    }

    open spec fn gen_spec(data: Seq<u8>, pos: int) -> (SpecVal, int) {
        let (x, p) = take_u32(data, pos);
        (SpecVal::Error(x), p)
    }

    fn generate(u: &mut ByteOracle) -> Self {
        crate::val::Error { code: u.next_u32() }
    }

    fn realize(&self, env: &mut Env) -> Result<RawVal, ConversionError> {
        Result::Ok(RawVal::Error(self.code))
    }
}

/// Prototype of a timepoint value.
pub struct ArbitraryTimepoint {
    pub inner: u64,
}

impl SorobanArbitrary for ArbitraryTimepoint {
    open spec fn wf(&self) -> bool {
        true
    }

    open spec fn model(&self) -> SpecVal {
        SpecVal::Timepoint(self.inner)
    }

    open spec fn gen_spec(data: Seq<u8>, pos: int) -> (SpecVal, int) {
        let (x, p) = take_u64(data, pos);
        (SpecVal::Timepoint(x), p)
    }

    fn generate(u: &mut ByteOracle) -> Self {
        ArbitraryTimepoint { inner: u.next_u64() }
    }

    fn realize(&self, env: &mut Env) -> Result<RawVal, ConversionError> {
        Result::Ok(RawVal::Timepoint(self.inner))
    }
}

/// Prototype of a duration value.
pub struct ArbitraryDuration {
    pub inner: u64,
}

impl SorobanArbitrary for ArbitraryDuration {
    open spec fn wf(&self) -> bool {
        true
    }

    open spec fn model(&self) -> SpecVal {
        SpecVal::Duration(self.inner)
    }

    open spec fn gen_spec(data: Seq<u8>, pos: int) -> (SpecVal, int) {
        let (x, p) = take_u64(data, pos);
        (SpecVal::Duration(x), p)
    }

    fn generate(u: &mut ByteOracle) -> Self {
        ArbitraryDuration { inner: u.next_u64() }
    }

    fn realize(&self, env: &mut Env) -> Result<RawVal, ConversionError> {
        Result::Ok(RawVal::Duration(self.inner))
    }
}

/// Prototype of an unsigned 256-bit value, as four limbs, most
/// significant first.
pub struct ArbitraryU256 {
    pub parts: (u64, u64, u64, u64),
}

impl SorobanArbitrary for ArbitraryU256 {
    open spec fn wf(&self) -> bool {
        true
    }

    open spec fn model(&self) -> SpecVal {
        SpecVal::U256(self.parts.0, self.parts.1, self.parts.2, self.parts.3)
    }

    open spec fn gen_spec(data: Seq<u8>, pos: int) -> (SpecVal, int) {
        let (x0, p0) = take_u64(data, pos);
        let (x1, p1) = take_u64(data, p0);
        let (x2, p2) = take_u64(data, p1);
        let (x3, p3) = take_u64(data, p2);
        (SpecVal::U256(x0, x1, x2, x3), p3)
    }

    fn generate(u: &mut ByteOracle) -> Self {
        let p0 = u.next_u64();
        let p1 = u.next_u64();
        let p2 = u.next_u64();
        let p3 = u.next_u64();
        ArbitraryU256 { parts: (p0, p1, p2, p3) }
    }

    fn realize(&self, env: &mut Env) -> (r: Result<RawVal, ConversionError>) {
        match env.allocate(
            HostObject::U256(self.parts.0, self.parts.1, self.parts.2, self.parts.3),
        ) {
            Result::Ok(h) => Result::Ok(RawVal::U256(h)),
            Result::Err(..) => {
                proof {
                    assert(false);
                }
                Result::Err(ConversionError::InvalidShape)
            },
        }
    }
}

/// Prototype of a signed 256-bit value, as four limbs, most significant
/// first; the top limb carries the sign.
pub struct ArbitraryI256 {
    pub parts: (i64, u64, u64, u64),
}

impl SorobanArbitrary for ArbitraryI256 {
    open spec fn wf(&self) -> bool {
        true
    }

    open spec fn model(&self) -> SpecVal {
        SpecVal::I256(self.parts.0, self.parts.1, self.parts.2, self.parts.3)
    }

    open spec fn gen_spec(data: Seq<u8>, pos: int) -> (SpecVal, int) {
        let (x0, p0) = take_u64(data, pos);
        let (x1, p1) = take_u64(data, p0);
        let (x2, p2) = take_u64(data, p1);
        let (x3, p3) = take_u64(data, p2);
        (SpecVal::I256(x0 as i64, x1, x2, x3), p3)
    }

    fn generate(u: &mut ByteOracle) -> Self {
        let p0 = u.next_u64() as i64;
        let p1 = u.next_u64();
        let p2 = u.next_u64();
        let p3 = u.next_u64();
        ArbitraryI256 { parts: (p0, p1, p2, p3) }
    }

    fn realize(&self, env: &mut Env) -> (r: Result<RawVal, ConversionError>) {
        match env.allocate(
            HostObject::I256(self.parts.0, self.parts.1, self.parts.2, self.parts.3),
        ) {
            Result::Ok(h) => Result::Ok(RawVal::I256(h)),
            Result::Err(..) => {
                proof {
                    assert(false);
                }
                Result::Err(ConversionError::InvalidShape)
            },
        }
    }
}

/// Draws a byte buffer of oracle-chosen length.
#[verifier::loop_isolation(false)]
fn generate_bytes(u: &mut ByteOracle) -> (r: Vec<u8>)
    ensures
        final(u).data@ == old(u).data@,
        r@ == take_sized_bytes(old(u).data@, old(u).pos as int, 17).0,
        final(u).pos as int == take_sized_bytes(old(u).data@, old(u).pos as int, 17).1,
{
    let ghost data = u.data@;
    let n = (u.next_byte() % 17) as usize;
    let ghost p0 = u.pos as int;
    let mut out: Vec<u8> = Vec::new();
    let mut k: usize = 0;
    while k < n
        invariant
            k <= n,
            out@.len() == k,
            u.data@ == data,
            out@ + take_n_bytes(data, u.pos as int, (n - k) as nat).0 == take_n_bytes(
                data,
                p0,
                n as nat,
            ).0,
            take_n_bytes(data, u.pos as int, (n - k) as nat).1 == take_n_bytes(
                data,
                p0,
                n as nat,
            ).1,
        decreases n - k,
    {
        let ghost prev = u.pos as int;
        let b = u.next_byte();
        proof {
            assert(out@.push(b) + take_n_bytes(data, u.pos as int, (n - (k + 1)) as nat).0
                =~= out@ + take_n_bytes(data, prev, (n - k) as nat).0);
        }
        out.push(b);
        k += 1;
    }
    proof {
        assert(out@ + take_n_bytes(data, u.pos as int, 0) .0 =~= out@);
    }
    out
}

/// Copies a byte buffer.
#[verifier::loop_isolation(false)]
fn clone_bytes(src: &Vec<u8>) -> (r: Vec<u8>)
    ensures
        r@ == src@,
{
    let n = src.len();
    let mut out: Vec<u8> = Vec::new();
    let mut k: usize = 0;
    while k < n
        invariant
            k <= n,
            out@.len() == k,
            forall|j: int| 0 <= j < k ==> out@[j] == src@[j],
        decreases n - k,
    {
        out.push(src[k]);
        k += 1;
    }
    proof {
        assert(out@ =~= src@);
    }
    out
}

/// Prototype of a byte-buffer value.
pub struct ArbitraryBytes {
    pub vec: Vec<u8>,
}

impl SorobanArbitrary for ArbitraryBytes {
    open spec fn wf(&self) -> bool {
        true
    }

    open spec fn model(&self) -> SpecVal {
        SpecVal::Bytes(self.vec@)
    }

    open spec fn gen_spec(data: Seq<u8>, pos: int) -> (SpecVal, int) {
        let (bs, p) = take_sized_bytes(data, pos, 17);
        (SpecVal::Bytes(bs), p)
    }

    fn generate(u: &mut ByteOracle) -> Self {
        ArbitraryBytes { vec: generate_bytes(u) }
    }

    fn realize(&self, env: &mut Env) -> (r: Result<RawVal, ConversionError>) {
        match env.allocate(HostObject::Bytes(clone_bytes(&self.vec))) {
            Result::Ok(h) => Result::Ok(RawVal::Bytes(h)),
            Result::Err(..) => {
                proof {
                    assert(false);
                }
                Result::Err(ConversionError::InvalidShape)
            },
        }
    }
}

/// Prototype of a string value.
pub struct ArbitraryString {
    pub inner: Vec<u8>,
}

impl SorobanArbitrary for ArbitraryString {
    open spec fn wf(&self) -> bool {
        true
    }

    open spec fn model(&self) -> SpecVal {
        SpecVal::String(self.inner@)
    }

    open spec fn gen_spec(data: Seq<u8>, pos: int) -> (SpecVal, int) {
        let (bs, p) = take_sized_bytes(data, pos, 17);
        (SpecVal::String(bs), p)
    }

    fn generate(u: &mut ByteOracle) -> Self {
        ArbitraryString { inner: generate_bytes(u) }
    }

    fn realize(&self, env: &mut Env) -> (r: Result<RawVal, ConversionError>) {
        match env.allocate(HostObject::String(clone_bytes(&self.inner))) {
            Result::Ok(h) => Result::Ok(RawVal::String(h)),
            Result::Err(..) => {
                proof {
                    assert(false);
                }
                Result::Err(ConversionError::InvalidShape)
            },
        }
    }
}

/// Prototype of a byte buffer of a fixed length.
pub struct ArbitraryBytesN<const N: usize> {
    pub array: Vec<u8>,
}

impl<const N: usize> SorobanArbitrary for ArbitraryBytesN<N> {
    open spec fn wf(&self) -> bool {
        self.array@.len() == N
    }

    open spec fn model(&self) -> SpecVal {
        SpecVal::Bytes(self.array@)
    }

    open spec fn gen_spec(data: Seq<u8>, pos: int) -> (SpecVal, int) {
        let (bs, p) = take_n_bytes(data, pos, N as nat);
        (SpecVal::Bytes(bs), p)
    }

    #[verifier::loop_isolation(false)]
    fn generate(u: &mut ByteOracle) -> (r: Self)
    {
        let ghost data = u.data@;
        let ghost p0 = u.pos as int;
        let mut out: Vec<u8> = Vec::new();
        let mut k: usize = 0;
        while k < N
            invariant
                k <= N,
                out@.len() == k,
                u.data@ == data,
                out@ + take_n_bytes(data, u.pos as int, (N - k) as nat).0 == take_n_bytes(
                    data,
                    p0,
                    N as nat,
                ).0,
                take_n_bytes(data, u.pos as int, (N - k) as nat).1 == take_n_bytes(
                    data,
                    p0,
                    N as nat,
                ).1,
            decreases N - k,
        {
            let ghost prev = u.pos as int;
            let b = u.next_byte();
            proof {
                assert(out@.push(b) + take_n_bytes(data, u.pos as int, (N - (k + 1)) as nat).0
                    =~= out@ + take_n_bytes(data, prev, (N - k) as nat).0);
            }
            out.push(b);
            k += 1;
        }
        proof {
            assert(out@ + take_n_bytes(data, u.pos as int, 0) .0 =~= out@);
        }
        ArbitraryBytesN { array: out }
    }

    fn realize(&self, env: &mut Env) -> (r: Result<RawVal, ConversionError>) {
        match env.allocate(HostObject::Bytes(clone_bytes(&self.array))) {
            Result::Ok(h) => Result::Ok(RawVal::Bytes(h)),
            Result::Err(..) => {
                proof {
                    assert(false);
                }
                Result::Err(ConversionError::InvalidShape)
            },
        }
    }
}

/// The byte of the symbol alphabet an oracle byte picks: underscore,
/// then the lower-case letters, the upper-case letters and the digits.
pub open spec fn sym_byte(pick: u8) -> u8 {
    let c = pick % 63;
    if c == 0 {
        95u8
    } else if c <= 26 {
        (96 + c) as u8
    } else if c <= 52 {
        (64 + (c - 26)) as u8
    } else {
        (48 + (c - 53)) as u8
    }
}

/// A run of oracle steps mapped through the symbol alphabet.
pub open spec fn take_syms(data: Seq<u8>, pos: int, n: nat) -> (Seq<u8>, int)
    decreases n,
{
    if n == 0 {
        (Seq::empty(), pos)
    } else {
        let (b, p0) = take_byte(data, pos);
        let (rest, p1) = take_syms(data, p0, (n - 1) as nat);
        (seq![sym_byte(b)] + rest, p1)
    }
}

/// One byte of the symbol alphabet, picked by an oracle byte.
fn symbol_alphabet(pick: u8) -> (r: u8)
    ensures
        is_symbol_byte(r),
        r == sym_byte(pick),
{
    let c = pick % 63;
    if c == 0 {
        95
    } else if c <= 26 {
        96 + c
    } else if c <= 52 {
        64 + (c - 26)
    } else {
        48 + (c - 53)
    }
}

/// Prototype of a symbol value: only bytes of the symbol alphabet, within
/// the length bound, are ever drawn, so realization cannot be refused.
pub struct ArbitrarySymbol {
    pub s: Vec<u8>,
}

impl SorobanArbitrary for ArbitrarySymbol {
    open spec fn wf(&self) -> bool {
        symbol_ok(self.s@)
    }

    open spec fn model(&self) -> SpecVal {
        SpecVal::Symbol(self.s@)
    }

    open spec fn gen_spec(data: Seq<u8>, pos: int) -> (SpecVal, int) {
        let (lb, p0) = take_byte(data, pos);
        let (bs, p1) = take_syms(data, p0, (lb % 33) as nat);
        (SpecVal::Symbol(bs), p1)
    }

    #[verifier::loop_isolation(false)]
    fn generate(u: &mut ByteOracle) -> (r: Self)
    {
        let ghost data = u.data@;
        let n = (u.next_byte() % 33) as usize;
        let ghost p0 = u.pos as int;
        let mut out: Vec<u8> = Vec::new();
        let mut k: usize = 0;
        while k < n
            invariant
                k <= n,
                n <= 32,
                out@.len() == k,
                u.data@ == data,
                forall|j: int| 0 <= j < k ==> is_symbol_byte(#[trigger] out@[j]),
                out@ + take_syms(data, u.pos as int, (n - k) as nat).0 == take_syms(
                    data,
                    p0,
                    n as nat,
                ).0,
                take_syms(data, u.pos as int, (n - k) as nat).1 == take_syms(
                    data,
                    p0,
                    n as nat,
                ).1,
            decreases n - k,
        {
            let ghost prev = u.pos as int;
            let b = u.next_byte();
            let c = symbol_alphabet(b);
            proof {
                assert(out@.push(c) + take_syms(data, u.pos as int, (n - (k + 1)) as nat).0
                    =~= out@ + take_syms(data, prev, (n - k) as nat).0);
            }
            out.push(c);
            k += 1;
        }
        proof {
            assert(out@ + take_syms(data, u.pos as int, 0) .0 =~= out@);
        }
        ArbitrarySymbol { s: out }
    }

    fn realize(&self, env: &mut Env) -> (r: Result<RawVal, ConversionError>) {
        match env.allocate(HostObject::Symbol(clone_bytes(&self.s))) {
            Result::Ok(h) => Result::Ok(RawVal::Symbol(h)),
            Result::Err(..) => {
                proof {
                    assert(false);
                }
                Result::Err(ConversionError::InvalidShape)
            },
        }
    }
}

/// Prototype of an address value: a hash of the exact address length.
pub struct ArbitraryAddress {
    pub inner: Vec<u8>,
}

impl SorobanArbitrary for ArbitraryAddress {
    open spec fn wf(&self) -> bool {
        self.inner@.len() == ADDRESS_LEN
    }

    open spec fn model(&self) -> SpecVal {
        SpecVal::Address(self.inner@)
    }

    open spec fn gen_spec(data: Seq<u8>, pos: int) -> (SpecVal, int) {
        let (bs, p) = take_n_bytes(data, pos, ADDRESS_LEN as nat);
        (SpecVal::Address(bs), p)
    }

    #[verifier::loop_isolation(false)]
    fn generate(u: &mut ByteOracle) -> (r: Self)
    {
        let ghost data = u.data@;
        let ghost p0 = u.pos as int;
        let mut out: Vec<u8> = Vec::new();
        let mut k: usize = 0;
        while k < ADDRESS_LEN
            invariant
                k <= ADDRESS_LEN,
                out@.len() == k,
                u.data@ == data,
                out@ + take_n_bytes(data, u.pos as int, (ADDRESS_LEN - k) as nat).0
                    == take_n_bytes(data, p0, ADDRESS_LEN as nat).0,
                take_n_bytes(data, u.pos as int, (ADDRESS_LEN - k) as nat).1 == take_n_bytes(
                    data,
                    p0,
                    ADDRESS_LEN as nat,
                ).1,
            decreases ADDRESS_LEN - k,
        {
            let ghost prev = u.pos as int;
            let b = u.next_byte();
            proof {
                assert(out@.push(b) + take_n_bytes(
                    data,
                    u.pos as int,
                    (ADDRESS_LEN - (k + 1)) as nat,
                ).0 =~= out@ + take_n_bytes(data, prev, (ADDRESS_LEN - k) as nat).0);
            }
            out.push(b);
            k += 1;
        }
        proof {
            assert(out@ + take_n_bytes(data, u.pos as int, 0) .0 =~= out@);
        }
        ArbitraryAddress { inner: out }
    }

    fn realize(&self, env: &mut Env) -> (r: Result<RawVal, ConversionError>) {
        match env.allocate(HostObject::Address(clone_bytes(&self.inner))) {
            Result::Ok(h) => Result::Ok(RawVal::Address(h)),
            Result::Err(..) => {
                proof {
                    assert(false);
                }
                Result::Err(ConversionError::InvalidShape)
            },
        }
    }
}

/// The mathematical mirror of drawing `n` elements one after the other:
/// their abstract values and the position after.
pub open spec fn gen_models_spec<T: SorobanArbitrary>(data: Seq<u8>, pos: int, n: nat) -> (
    Seq<SpecVal>,
    int,
)
    decreases n,
{
    if n == 0 {
        (Seq::empty(), pos)
    } else {
        let (m, p0) = T::gen_spec(data, pos);
        let (rest, p1) = gen_models_spec::<T>(data, p0, (n - 1) as nat);
        (seq![m] + rest, p1)
    }
}

/// The mathematical mirror of drawing `n` key-value entries one after
/// the other.
pub open spec fn gen_pair_models_spec<K: SorobanArbitrary, V: SorobanArbitrary>(
    data: Seq<u8>,
    pos: int,
    n: nat,
) -> (Seq<(SpecVal, SpecVal)>, int)
    decreases n,
{
    if n == 0 {
        (Seq::empty(), pos)
    } else {
        let (mk, p0) = K::gen_spec(data, pos);
        let (mv, p1) = V::gen_spec(data, p0);
        let (rest, p2) = gen_pair_models_spec::<K, V>(data, p1, (n - 1) as nat);
        (seq![(mk, mv)] + rest, p2)
    }
}

/// The abstract values a sequence of prototypes denotes.
pub open spec fn models_of<T: SorobanArbitrary>(s: Seq<T>) -> Seq<SpecVal> {
    s.map_values(|x: T| x.model())
}

/// Prototype of a vector value, composed of the element prototypes.
pub struct ArbitraryVec<T> {
    pub vec: Vec<T>,
}

impl<T: SorobanArbitrary> SorobanArbitrary for ArbitraryVec<T> {
    open spec fn wf(&self) -> bool {
        forall|i: int| 0 <= i < self.vec@.len() ==> (#[trigger] self.vec@[i]).wf()
    }

    open spec fn model(&self) -> SpecVal {
        SpecVal::Vec(Option::Some(models_of(self.vec@)))
    }

    open spec fn gen_spec(data: Seq<u8>, pos: int) -> (SpecVal, int) {
        let (lb, p0) = take_byte(data, pos);
        let (ms, p1) = gen_models_spec::<T>(data, p0, (lb % 5) as nat);
        (SpecVal::Vec(Option::Some(ms)), p1)
    }

    #[verifier::loop_isolation(false)]
    fn generate(u: &mut ByteOracle) -> (r: Self)
    {
        let ghost data = u.data@;
        let n = (u.next_byte() % 5) as usize;
        let ghost p0 = u.pos as int;
        let mut out: Vec<T> = Vec::new();
        let mut k: usize = 0;
        while k < n
            invariant
                k <= n,
                out@.len() == k,
                u.data@ == data,
                forall|j: int| 0 <= j < k ==> (#[trigger] out@[j]).wf(),
                models_of(out@) + gen_models_spec::<T>(data, u.pos as int, (n - k) as nat).0
                    == gen_models_spec::<T>(data, p0, n as nat).0,
                gen_models_spec::<T>(data, u.pos as int, (n - k) as nat).1 == gen_models_spec::<
                    T,
                >(data, p0, n as nat).1,
            decreases n - k,
        {
            let ghost prev = u.pos as int;
            let x = T::generate(u);
            proof {
                assert(models_of(out@.push(x)) =~= models_of(out@).push(x.model()));
                assert(models_of(out@).push(x.model()) + gen_models_spec::<T>(
                    data,
                    u.pos as int,
                    (n - (k + 1)) as nat,
                ).0 =~= models_of(out@) + gen_models_spec::<T>(data, prev, (n - k) as nat).0);
            }
            out.push(x);
            k += 1;
        }
        proof {
            assert(models_of(out@) + gen_models_spec::<T>(data, u.pos as int, 0) .0
                =~= models_of(out@));
        }
        ArbitraryVec { vec: out }
    }

    #[verifier::loop_isolation(false)]
    #[verifier::rlimit(100)]
    fn realize(&self, env: &mut Env) -> (r: Result<RawVal, ConversionError>) {
        let ghost env0 = *old(env);
        let ghost sa = models_of(self.vec@);
        let n = self.vec.len();
        let mut out: Vec<RawVal> = Vec::new();
        let mut k: usize = 0;
        while k < n
            invariant
                k <= n,
                out@.len() == k,
                env_wf(*env),
                env_extends(env0, *env),
                forall|j: int|
                    0 <= j < k ==> rv_model(*env, #[trigger] out@[j]) == Option::Some(sa[j]),
            decreases n - k,
        {
            let ghost env_pre = *env;
            let rv = match self.vec[k].realize(env) {
                Result::Ok(rv) => rv,
                Result::Err(e) => {
                    proof {
                        assert(false);
                    }
                    return Result::Err(e);
                },
            };
            proof {
                assert(sa[k as int] == self.vec@[k as int].model());
                assert forall|j: int| 0 <= j < k implies rv_model(*env, #[trigger] out@[j])
                    == Option::Some(sa[j]) by {
                    lemma_rv_model_extends_full(env_pre, *env, out@[j]);
                }
                lemma_extends_trans(env0, env_pre, *env);
            }
            out.push(rv);
            k += 1;
        }
        let ghost env1 = *env;
        let ghost gout = out@;
        proof {
            lemma_vals_model_index(env1, gout, env1.objs@.len() as int);
        }
        match env.allocate(HostObject::Vec(out)) {
            Result::Ok(h) => {
                proof {
                    let ms = vals_model(env1, gout, env1.objs@.len() as int).unwrap();
                    assert forall|j: int| 0 <= j < sa.len() implies ms[j] == #[trigger] sa[j] by {
                        assert(rv_model(env1, gout[j]) == Option::Some(sa[j]));
                    }
                    assert(ms =~= sa);
                    lemma_extends_trans(env0, env1, *env);
                }
                Result::Ok(RawVal::Vec(h))
            },
            Result::Err(..) => {
                proof {
                    assert forall|j: int| 0 <= j < gout.len() implies rv_model_b(
                        env1,
                        #[trigger] gout[j],
                        env1.objs@.len() as int,
                    ) is Some by {
                        assert(rv_model(env1, gout[j]) == Option::Some(sa[j]));
                    }
                    assert(false);
                }
                Result::Err(ConversionError::InvalidShape)
            },
        }
    }
}

/// Inserts one realized entry into a key-sorted entry list with the
/// map's set semantics: an entry with a comparator-equal key is replaced,
/// any other entry lands at its key's position in the order.
#[verifier::loop_isolation(false)]
#[verifier::rlimit(100)]
fn map_push_entry(env: &Env, acc: &mut Vec<(RawVal, RawVal)>, k: RawVal, v: RawVal)
    requires
        env_wf(*env),
        rv_model(*env, k) is Some,
        rv_model(*env, v) is Some,
        pairs_model(*env, old(acc)@, env.objs@.len() as int) is Some,
        pairs_sorted(pairs_model(*env, old(acc)@, env.objs@.len() as int).unwrap()),
    ensures
        pairs_model(*env, final(acc)@, env.objs@.len() as int) == Option::Some(
            map_set(
                pairs_model(*env, old(acc)@, env.objs@.len() as int).unwrap(),
                some_or_void(rv_model(*env, k)),
                some_or_void(rv_model(*env, v)),
            ),
        ),
        pairs_sorted(pairs_model(*env, final(acc)@, env.objs@.len() as int).unwrap()),
{
    let ghost bound = env.objs@.len() as int;
    let ghost ms = pairs_model(*env, old(acc)@, bound).unwrap();
    let ghost mk = some_or_void(rv_model(*env, k));
    let ghost mv = some_or_void(rv_model(*env, v));
    proof {
        lemma_pairs_model_index(*env, acc@, bound);
    }
    let n = acc.len();
    let mut i: usize = 0;
    let mut scanning = true;
    while i < n && scanning
        invariant
            i <= n,
            acc@ == old(acc)@,
            forall|j: int| 0 <= j < i ==> #[trigger] crate::model::spec_cmp(mk, ms[j].0)
                == Ordering::Greater,
            !scanning ==> i < n && crate::model::spec_cmp(mk, ms[i as int].0)
                != Ordering::Greater,
        decreases n - i, if scanning { 1int } else { 0int },
    {
        let c = match crate::compare::cmp_rv(env, &k, &acc[i].0) {
            Result::Ok(c) => c,
            Result::Err(..) => {
                proof {
                    assert(false);
                }
                return ;
            },
        };
        match c {
            Ordering::Greater => {
                i += 1;
            },
            _ => {
                scanning = false;
            },
        }
    }
    proof {
        crate::model::lemma_map_set_shape(ms, mk, mv, i as int);
        crate::model::lemma_map_set_sorted(ms, mk, mv, i as int);
    }
    if i == n {
        acc.push((k, v));
        proof {
            lemma_pairs_model_index(*env, acc@, bound);
            let ms2 = pairs_model(*env, acc@, bound).unwrap();
            assert(ms2 =~= ms.push((mk, mv)));
        }
    } else {
        let c = match crate::compare::cmp_rv(env, &k, &acc[i].0) {
            Result::Ok(c) => c,
            Result::Err(..) => {
                proof {
                    assert(false);
                }
                return ;
            },
        };
        match c {
            Ordering::Equal => {
                acc.set(i, (k, v));
                proof {
                    lemma_pairs_model_index(*env, acc@, bound);
                    let ms2 = pairs_model(*env, acc@, bound).unwrap();
                    assert(ms2 =~= ms.update(i as int, (mk, mv)));
                }
            },
            Ordering::Less => {
                acc.insert(i, (k, v));
                proof {
                    lemma_pairs_model_index(*env, acc@, bound);
                    let ms2 = pairs_model(*env, acc@, bound).unwrap();
                    assert(ms2 =~= ms.subrange(0, i as int) + seq![(mk, mv)] + ms.subrange(
                        i as int,
                        ms.len() as int,
                    ));
                }
            },
            Ordering::Greater => {
                proof {
                    assert(false);
                }
            },
        }
    }
}

/// The abstract entries a sequence of prototype pairs denotes.
pub open spec fn pair_models_of<K: SorobanArbitrary, V: SorobanArbitrary>(s: Seq<(K, V)>) -> Seq<
    (SpecVal, SpecVal),
> {
    s.map_values(|p: (K, V)| (p.0.model(), p.1.model()))
}

/// Prototype of a map value, composed of key and value prototypes.  The
/// entries are arbitrary; realization inserts them one after the other
/// with the map's set semantics, so a later entry wins over an earlier
/// one with a comparator-equal key, and the stored entries end up
/// strictly sorted by key.
pub struct ArbitraryMap<K, V> {
    pub map: Vec<(K, V)>,
}

impl<K: SorobanArbitrary, V: SorobanArbitrary> SorobanArbitrary for ArbitraryMap<K, V> {
    open spec fn wf(&self) -> bool {
        forall|i: int|
            0 <= i < self.map@.len() ==> (#[trigger] self.map@[i]).0.wf() && self.map@[i].1.wf()
    }

    open spec fn model(&self) -> SpecVal {
        SpecVal::MapVal(Option::Some(map_build(pair_models_of(self.map@))))
    }

    open spec fn gen_spec(data: Seq<u8>, pos: int) -> (SpecVal, int) {
        let (lb, p0) = take_byte(data, pos);
        let (ms, p1) = gen_pair_models_spec::<K, V>(data, p0, (lb % 5) as nat);
        (SpecVal::MapVal(Option::Some(map_build(ms))), p1)
    }

    #[verifier::loop_isolation(false)]
    fn generate(u: &mut ByteOracle) -> (r: Self)
    {
        let ghost data = u.data@;
        let n = (u.next_byte() % 5) as usize;
        let ghost p0 = u.pos as int;
        let mut out: Vec<(K, V)> = Vec::new();
        let mut j: usize = 0;
        while j < n
            invariant
                j <= n,
                out@.len() == j,
                u.data@ == data,
                forall|i: int| 0 <= i < j ==> (#[trigger] out@[i]).0.wf() && out@[i].1.wf(),
                pair_models_of(out@) + gen_pair_models_spec::<K, V>(
                    data,
                    u.pos as int,
                    (n - j) as nat,
                ).0 == gen_pair_models_spec::<K, V>(data, p0, n as nat).0,
                gen_pair_models_spec::<K, V>(data, u.pos as int, (n - j) as nat).1
                    == gen_pair_models_spec::<K, V>(data, p0, n as nat).1,
            decreases n - j,
        {
            let ghost prev = u.pos as int;
            let kp = K::generate(u);
            let vp = V::generate(u);
            proof {
                assert(pair_models_of(out@.push((kp, vp))) =~= pair_models_of(out@).push(
                    (kp.model(), vp.model()),
                ));
                assert(pair_models_of(out@).push((kp.model(), vp.model()))
                    + gen_pair_models_spec::<K, V>(data, u.pos as int, (n - (j + 1)) as nat).0
                    =~= pair_models_of(out@) + gen_pair_models_spec::<K, V>(
                    data,
                    prev,
                    (n - j) as nat,
                ).0);
            }
            out.push((kp, vp));
            j += 1;
        }
        proof {
            assert(pair_models_of(out@) + gen_pair_models_spec::<K, V>(data, u.pos as int, 0) .0
                =~= pair_models_of(out@));
        }
        ArbitraryMap { map: out }
    }

    #[verifier::loop_isolation(false)]
    #[verifier::rlimit(100)]
    fn realize(&self, env: &mut Env) -> (r: Result<RawVal, ConversionError>) {
        let ghost env0 = *old(env);
        let ghost sa = pair_models_of(self.map@);
        let n = self.map.len();
        let mut acc: Vec<(RawVal, RawVal)> = Vec::new();
        let mut k: usize = 0;
        while k < n
            invariant
                k <= n,
                env_wf(*env),
                env_extends(env0, *env),
                pairs_model(*env, acc@, env.objs@.len() as int) == Option::Some(
                    map_build(sa.subrange(0, k as int)),
                ),
                pairs_sorted(map_build(sa.subrange(0, k as int))),
            decreases n - k,
        {
            let ghost env_pre = *env;
            let rk = match self.map[k].0.realize(env) {
                Result::Ok(rv) => rv,
                Result::Err(e) => {
                    proof {
                        assert(false);
                    }
                    return Result::Err(e);
                },
            };
            let ghost env_mid = *env;
            let rv = match self.map[k].1.realize(env) {
                Result::Ok(rv) => rv,
                Result::Err(e) => {
                    proof {
                        assert(false);
                    }
                    return Result::Err(e);
                },
            };
            proof {
                lemma_rv_model_extends_full(env_mid, *env, rk);
                lemma_extends_trans(env_pre, env_mid, *env);
                lemma_pairs_model_index(env_pre, acc@, env_pre.objs@.len() as int);
                let msp = pairs_model(env_pre, acc@, env_pre.objs@.len() as int).unwrap();
                assert forall|j: int| 0 <= j < acc@.len() implies rv_model(
                    *env,
                    (#[trigger] acc@[j]).0,
                ) == Option::Some(msp[j].0) && rv_model(*env, acc@[j].1) == Option::Some(
                    msp[j].1,
                ) by {
                    lemma_rv_model_extends_full(env_pre, *env, acc@[j].0);
                    lemma_rv_model_extends_full(env_pre, *env, acc@[j].1);
                }
                lemma_pairs_model_index(*env, acc@, env.objs@.len() as int);
                let msn = pairs_model(*env, acc@, env.objs@.len() as int).unwrap();
                assert(msn =~= msp);
                lemma_extends_trans(env0, env_pre, *env);
                assert(sa[k as int] == (
                    self.map@[k as int].0.model(),
                    self.map@[k as int].1.model(),
                ));
                crate::model::lemma_map_build_step(sa, k as int);
            }
            map_push_entry(env, &mut acc, rk, rv);
            k += 1;
        }
        proof {
            assert(sa.subrange(0, n as int) =~= sa);
        }
        let ghost env1 = *env;
        let ghost gacc = acc@;
        proof {
            lemma_pairs_model_index(env1, gacc, env1.objs@.len() as int);
        }
        match env.allocate(HostObject::MapVal(acc)) {
            Result::Ok(h) => {
                proof {
                    lemma_extends_trans(env0, env1, *env);
                }
                Result::Ok(RawVal::MapVal(h))
            },
            Result::Err(..) => {
                proof {
                    assert(false);
                }
                Result::Err(ConversionError::InvalidShape)
            },
        }
    }
}

/// Prototype of a tagged value of any kind.
pub enum ArbitraryRawVal {
    Void,
    Bool(bool),
    Error(crate::val::Error),
    U32(u32),
    I32(i32),
    U64(u64),
    I64(i64),
    Timepoint(ArbitraryTimepoint),
    Duration(ArbitraryDuration),
    U128(u128),
    I128(i128),
    U256(ArbitraryU256),
    I256(ArbitraryI256),
    Bytes(ArbitraryBytes),
    String(ArbitraryString),
    Symbol(ArbitrarySymbol),
    Vec(ArbitraryRawValVec),
    MapVal(ArbitraryRawValMap),
    Address(ArbitraryAddress),
}

/// Prototype of a vector value, one homogeneous element kind per
/// variant, including vectors of arbitrary tagged values.
pub enum ArbitraryRawValVec {
    Void(ArbitraryVec<()>),
    Bool(ArbitraryVec<bool>),
    Error(ArbitraryVec<crate::val::Error>),
    U32(ArbitraryVec<u32>),
    I32(ArbitraryVec<i32>),
    U64(ArbitraryVec<u64>),
    I64(ArbitraryVec<i64>),
    Timepoint(ArbitraryVec<ArbitraryTimepoint>),
    Duration(ArbitraryVec<ArbitraryDuration>),
    U128(ArbitraryVec<u128>),
    I128(ArbitraryVec<i128>),
    U256(ArbitraryVec<ArbitraryU256>),
    I256(ArbitraryVec<ArbitraryI256>),
    Bytes(ArbitraryVec<ArbitraryBytes>),
    String(ArbitraryVec<ArbitraryString>),
    Symbol(ArbitraryVec<ArbitrarySymbol>),
    Vec(ArbitraryVec<ArbitraryVec<u32>>),
    MapVal(ArbitraryMap<u32, u32>),
    Address(ArbitraryVec<ArbitraryAddress>),
    RawVal(ArbitraryVec<ArbitraryRawVal>),
}

/// Prototype of a map value, one homogeneous entry kind per variant,
/// including maps from arbitrary tagged values to arbitrary tagged
/// values.
pub enum ArbitraryRawValMap {
    VoidToVoid(ArbitraryMap<(), ()>),
    BoolToBool(ArbitraryMap<bool, bool>),
    ErrorToError(ArbitraryMap<crate::val::Error, crate::val::Error>),
    U32ToU32(ArbitraryMap<u32, u32>),
    I32ToI32(ArbitraryMap<i32, i32>),
    U64ToU64(ArbitraryMap<u64, u64>),
    I64ToI64(ArbitraryMap<i64, i64>),
    TimepointToTimepoint(ArbitraryMap<ArbitraryTimepoint, ArbitraryTimepoint>),
    DurationToDuration(ArbitraryMap<ArbitraryDuration, ArbitraryDuration>),
    U128ToU128(ArbitraryMap<u128, u128>),
    I128ToI128(ArbitraryMap<i128, i128>),
    U256ToU256(ArbitraryMap<ArbitraryU256, ArbitraryU256>),
    I256ToI256(ArbitraryMap<ArbitraryI256, ArbitraryI256>),
    BytesToBytes(ArbitraryMap<ArbitraryBytes, ArbitraryBytes>),
    StringToString(ArbitraryMap<ArbitraryString, ArbitraryString>),
    SymbolToSymbol(ArbitraryMap<ArbitrarySymbol, ArbitrarySymbol>),
    VecToVec(ArbitraryMap<ArbitraryVec<u32>, ArbitraryVec<u32>>),
    MapToMap(ArbitraryMap<ArbitraryMap<u32, u32>, ArbitraryMap<u32, u32>>),
    AddressToAddress(ArbitraryMap<ArbitraryAddress, ArbitraryAddress>),
    RawValToRawVal(ArbitraryMap<ArbitraryRawVal, ArbitraryRawVal>),
}

/// Well-formedness of a tagged-value prototype.
pub open spec fn arv_wf(p: ArbitraryRawVal) -> bool
    decreases p, 0int,
{
    match p {
        ArbitraryRawVal::Void => true,
        ArbitraryRawVal::Bool(..) => true,
        ArbitraryRawVal::Error(..) => true,
        ArbitraryRawVal::U32(..) => true,
        ArbitraryRawVal::I32(..) => true,
        ArbitraryRawVal::U64(..) => true,
        ArbitraryRawVal::I64(..) => true,
        ArbitraryRawVal::Timepoint(x) => x.wf(),
        ArbitraryRawVal::Duration(x) => x.wf(),
        ArbitraryRawVal::U128(..) => true,
        ArbitraryRawVal::I128(..) => true,
        ArbitraryRawVal::U256(x) => x.wf(),
        ArbitraryRawVal::I256(x) => x.wf(),
        ArbitraryRawVal::Bytes(x) => x.wf(),
        ArbitraryRawVal::String(x) => x.wf(),
        ArbitraryRawVal::Symbol(x) => x.wf(),
        ArbitraryRawVal::Vec(q) => arvv_wf(q),
        ArbitraryRawVal::MapVal(m) => arvm_wf(m),
        ArbitraryRawVal::Address(x) => x.wf(),
    }
}

/// Well-formedness of a vector prototype.
pub open spec fn arvv_wf(q: ArbitraryRawValVec) -> bool
    decreases q, 0int,
{
    match q {
        ArbitraryRawValVec::Void(x) => x.wf(),
        ArbitraryRawValVec::Bool(x) => x.wf(),
        ArbitraryRawValVec::Error(x) => x.wf(),
        ArbitraryRawValVec::U32(x) => x.wf(),
        ArbitraryRawValVec::I32(x) => x.wf(),
        ArbitraryRawValVec::U64(x) => x.wf(),
        ArbitraryRawValVec::I64(x) => x.wf(),
        ArbitraryRawValVec::Timepoint(x) => x.wf(),
        ArbitraryRawValVec::Duration(x) => x.wf(),
        ArbitraryRawValVec::U128(x) => x.wf(),
        ArbitraryRawValVec::I128(x) => x.wf(),
        ArbitraryRawValVec::U256(x) => x.wf(),
        ArbitraryRawValVec::I256(x) => x.wf(),
        ArbitraryRawValVec::Bytes(x) => x.wf(),
        ArbitraryRawValVec::String(x) => x.wf(),
        ArbitraryRawValVec::Symbol(x) => x.wf(),
        ArbitraryRawValVec::Vec(x) => x.wf(),
        ArbitraryRawValVec::MapVal(x) => x.wf(),
        ArbitraryRawValVec::Address(x) => x.wf(),
        ArbitraryRawValVec::RawVal(x) => arv_seq_wf(x.vec@),
    }
}

/// Well-formedness of a map prototype.
pub open spec fn arvm_wf(m: ArbitraryRawValMap) -> bool
    decreases m, 0int,
{
    match m {
        ArbitraryRawValMap::VoidToVoid(x) => x.wf(),
        ArbitraryRawValMap::BoolToBool(x) => x.wf(),
        ArbitraryRawValMap::ErrorToError(x) => x.wf(),
        ArbitraryRawValMap::U32ToU32(x) => x.wf(),
        ArbitraryRawValMap::I32ToI32(x) => x.wf(),
        ArbitraryRawValMap::U64ToU64(x) => x.wf(),
        ArbitraryRawValMap::I64ToI64(x) => x.wf(),
        ArbitraryRawValMap::TimepointToTimepoint(x) => x.wf(),
        ArbitraryRawValMap::DurationToDuration(x) => x.wf(),
        ArbitraryRawValMap::U128ToU128(x) => x.wf(),
        ArbitraryRawValMap::I128ToI128(x) => x.wf(),
        ArbitraryRawValMap::U256ToU256(x) => x.wf(),
        ArbitraryRawValMap::I256ToI256(x) => x.wf(),
        ArbitraryRawValMap::BytesToBytes(x) => x.wf(),
        ArbitraryRawValMap::StringToString(x) => x.wf(),
        ArbitraryRawValMap::SymbolToSymbol(x) => x.wf(),
        ArbitraryRawValMap::VecToVec(x) => x.wf(),
        ArbitraryRawValMap::MapToMap(x) => x.wf(),
        ArbitraryRawValMap::AddressToAddress(x) => x.wf(),
        ArbitraryRawValMap::RawValToRawVal(x) => arv_pairs_wf(x.map@),
    }
}

/// Well-formedness of a sequence of tagged-value prototypes.
pub open spec fn arv_seq_wf(s: Seq<ArbitraryRawVal>) -> bool
    decreases s, 1int,
{
    if s.len() == 0 {
        true
    } else {
        arv_wf(s[0]) && arv_seq_wf(s.subrange(1, s.len() as int))
    }
}

/// Well-formedness of a sequence of prototype entry pairs.
pub open spec fn arv_pairs_wf(s: Seq<(ArbitraryRawVal, ArbitraryRawVal)>) -> bool
    decreases s, 1int,
{
    if s.len() == 0 {
        true
    } else {
        arv_wf(s[0].0) && arv_wf(s[0].1) && arv_pairs_wf(s.subrange(1, s.len() as int))
    }
}

/// The abstract value a tagged-value prototype denotes.
pub open spec fn arv_model(p: ArbitraryRawVal) -> SpecVal
    decreases p, 0int,
{
    match p {
        ArbitraryRawVal::Void => SpecVal::Void,
        ArbitraryRawVal::Bool(x) => SpecVal::Bool(x),
        ArbitraryRawVal::Error(x) => SpecVal::Error(x.code),
        ArbitraryRawVal::U32(x) => SpecVal::U32(x),
        ArbitraryRawVal::I32(x) => SpecVal::I32(x),
        ArbitraryRawVal::U64(x) => SpecVal::U64(x),
        ArbitraryRawVal::I64(x) => SpecVal::I64(x),
        ArbitraryRawVal::Timepoint(x) => x.model(),
        ArbitraryRawVal::Duration(x) => x.model(),
        ArbitraryRawVal::U128(x) => SpecVal::U128(x),
        ArbitraryRawVal::I128(x) => SpecVal::I128(x),
        ArbitraryRawVal::U256(x) => x.model(),
        ArbitraryRawVal::I256(x) => x.model(),
        ArbitraryRawVal::Bytes(x) => x.model(),
        ArbitraryRawVal::String(x) => x.model(),
        ArbitraryRawVal::Symbol(x) => x.model(),
        ArbitraryRawVal::Vec(q) => arvv_model(q),
        ArbitraryRawVal::MapVal(m) => arvm_model(m),
        ArbitraryRawVal::Address(x) => x.model(),
    }
}

/// The abstract value a vector prototype denotes.
pub open spec fn arvv_model(q: ArbitraryRawValVec) -> SpecVal
    decreases q, 0int,
{
    match q {
        ArbitraryRawValVec::Void(x) => x.model(),
        ArbitraryRawValVec::Bool(x) => x.model(),
        ArbitraryRawValVec::Error(x) => x.model(),
        ArbitraryRawValVec::U32(x) => x.model(),
        ArbitraryRawValVec::I32(x) => x.model(),
        ArbitraryRawValVec::U64(x) => x.model(),
        ArbitraryRawValVec::I64(x) => x.model(),
        ArbitraryRawValVec::Timepoint(x) => x.model(),
        ArbitraryRawValVec::Duration(x) => x.model(),
        ArbitraryRawValVec::U128(x) => x.model(),
        ArbitraryRawValVec::I128(x) => x.model(),
        ArbitraryRawValVec::U256(x) => x.model(),
        ArbitraryRawValVec::I256(x) => x.model(),
        ArbitraryRawValVec::Bytes(x) => x.model(),
        ArbitraryRawValVec::String(x) => x.model(),
        ArbitraryRawValVec::Symbol(x) => x.model(),
        ArbitraryRawValVec::Vec(x) => x.model(),
        ArbitraryRawValVec::MapVal(x) => x.model(),
        ArbitraryRawValVec::Address(x) => x.model(),
        ArbitraryRawValVec::RawVal(x) => SpecVal::Vec(Option::Some(arv_models(x.vec@))),
    }
}

/// The abstract value a map prototype denotes.
pub open spec fn arvm_model(m: ArbitraryRawValMap) -> SpecVal
    decreases m, 0int,
{
    match m {
        ArbitraryRawValMap::VoidToVoid(x) => x.model(),
        ArbitraryRawValMap::BoolToBool(x) => x.model(),
        ArbitraryRawValMap::ErrorToError(x) => x.model(),
        ArbitraryRawValMap::U32ToU32(x) => x.model(),
        ArbitraryRawValMap::I32ToI32(x) => x.model(),
        ArbitraryRawValMap::U64ToU64(x) => x.model(),
        ArbitraryRawValMap::I64ToI64(x) => x.model(),
        ArbitraryRawValMap::TimepointToTimepoint(x) => x.model(),
        ArbitraryRawValMap::DurationToDuration(x) => x.model(),
        ArbitraryRawValMap::U128ToU128(x) => x.model(),
        ArbitraryRawValMap::I128ToI128(x) => x.model(),
        ArbitraryRawValMap::U256ToU256(x) => x.model(),
        ArbitraryRawValMap::I256ToI256(x) => x.model(),
        ArbitraryRawValMap::BytesToBytes(x) => x.model(),
        ArbitraryRawValMap::StringToString(x) => x.model(),
        ArbitraryRawValMap::SymbolToSymbol(x) => x.model(),
        ArbitraryRawValMap::VecToVec(x) => x.model(),
        ArbitraryRawValMap::MapToMap(x) => x.model(),
        ArbitraryRawValMap::AddressToAddress(x) => x.model(),
        ArbitraryRawValMap::RawValToRawVal(x) => SpecVal::MapVal(
            Option::Some(map_build(arv_pair_models(x.map@))),
        ),
    }
}

/// The abstract values a sequence of tagged-value prototypes denotes.
pub open spec fn arv_models(s: Seq<ArbitraryRawVal>) -> Seq<SpecVal>
    decreases s, 1int,
{
    if s.len() == 0 {
        Seq::empty()
    } else {
        seq![arv_model(s[0])] + arv_models(s.subrange(1, s.len() as int))
    }
}

/// The abstract entries a sequence of prototype pairs denotes.
pub open spec fn arv_pair_models(s: Seq<(ArbitraryRawVal, ArbitraryRawVal)>) -> Seq<
    (SpecVal, SpecVal),
>
    decreases s, 1int,
{
    if s.len() == 0 {
        Seq::empty()
    } else {
        seq![(arv_model(s[0].0), arv_model(s[0].1))] + arv_pair_models(
            s.subrange(1, s.len() as int),
        )
    }
}

/// The model of a prototype sequence is the elementwise model, and its
/// well-formedness is elementwise well-formedness.
pub proof fn lemma_arv_models_index(s: Seq<ArbitraryRawVal>)
    ensures
        arv_models(s).len() == s.len(),
        forall|j: int| 0 <= j < s.len() ==> arv_models(s)[j] == arv_model(#[trigger] s[j]),
        arv_seq_wf(s) <==> (forall|j: int| 0 <= j < s.len() ==> arv_wf(#[trigger] s[j])),
    decreases s.len(),
{
    if s.len() > 0 {
        let t = s.subrange(1, s.len() as int);
        lemma_arv_models_index(t);
        assert forall|j: int| 1 <= j < s.len() implies s[j] == t[j - 1] by {}
        assert forall|j: int| 0 <= j < s.len() implies arv_models(s)[j] == arv_model(
            #[trigger] s[j],
        ) by {
            if j > 0 {
                assert(arv_models(s)[j] == arv_models(t)[j - 1]);
            }
        }
        if arv_seq_wf(s) {
            assert forall|j: int| 0 <= j < s.len() implies arv_wf(#[trigger] s[j]) by {
                if j > 0 {
                    assert(arv_wf(t[j - 1]));
                }
            }
        } else {
            if arv_wf(s[0]) {
                assert(!arv_seq_wf(t));
            }
        }
    }
}

/// The model of a prototype pair sequence is the componentwise model,
/// and its well-formedness is componentwise well-formedness.
pub proof fn lemma_arv_pair_models_index(s: Seq<(ArbitraryRawVal, ArbitraryRawVal)>)
    ensures
        arv_pair_models(s).len() == s.len(),
        forall|j: int|
            0 <= j < s.len() ==> arv_pair_models(s)[j] == (
                arv_model((#[trigger] s[j]).0),
                arv_model(s[j].1),
            ),
        arv_pairs_wf(s) <==> (forall|j: int|
            0 <= j < s.len() ==> arv_wf((#[trigger] s[j]).0) && arv_wf(s[j].1)),
    decreases s.len(),
{
    if s.len() > 0 {
        let t = s.subrange(1, s.len() as int);
        lemma_arv_pair_models_index(t);
        assert forall|j: int| 1 <= j < s.len() implies s[j] == t[j - 1] by {}
        assert forall|j: int| 0 <= j < s.len() implies arv_pair_models(s)[j] == (
            arv_model((#[trigger] s[j]).0),
            arv_model(s[j].1),
        ) by {
            if j > 0 {
                assert(arv_pair_models(s)[j] == arv_pair_models(t)[j - 1]);
            }
        }
        if arv_pairs_wf(s) {
            assert forall|j: int| 0 <= j < s.len() implies arv_wf((#[trigger] s[j]).0) && arv_wf(
                s[j].1,
            ) by {
                if j > 0 {
                    assert(arv_wf(t[j - 1].0) && arv_wf(t[j - 1].1));
                }
            }
        } else {
            if arv_wf(s[0].0) && arv_wf(s[0].1) {
                assert(!arv_pairs_wf(t));
            }
        }
    }
}

/// How deep generated values may nest; generation always terminates
/// because every container level spends one unit of depth.
pub const GEN_DEPTH: u8 = 3;

/// The mathematical mirror of drawing a tagged-value prototype: the
/// abstract value drawn from the oracle contents at a position, and the
/// position after.
#[verifier::opaque]
pub open spec fn arv_gen_spec(data: Seq<u8>, pos: int, depth: nat) -> (SpecVal, int)
    decreases depth, 1int, 0int,
{
    let (pb, p0) = take_byte(data, pos);
    let pick = if depth > 0 {
        pb % 19
    } else {
        pb % 17
    };
    if pick == 0 {
        (SpecVal::Void, p0)
    } else if pick == 1 {
        <bool as SorobanArbitrary>::gen_spec(data, p0)
    } else if pick == 2 {
        <crate::val::Error as SorobanArbitrary>::gen_spec(data, p0)
    } else if pick == 3 {
        <u32 as SorobanArbitrary>::gen_spec(data, p0)
    } else if pick == 4 {
        <i32 as SorobanArbitrary>::gen_spec(data, p0)
    } else if pick == 5 {
        <u64 as SorobanArbitrary>::gen_spec(data, p0)
    } else if pick == 6 {
        <i64 as SorobanArbitrary>::gen_spec(data, p0)
    } else if pick == 7 {
        <ArbitraryTimepoint as SorobanArbitrary>::gen_spec(data, p0)
    } else if pick == 8 {
        <ArbitraryDuration as SorobanArbitrary>::gen_spec(data, p0)
    } else if pick == 9 {
        <u128 as SorobanArbitrary>::gen_spec(data, p0)
    } else if pick == 10 {
        <i128 as SorobanArbitrary>::gen_spec(data, p0)
    } else if pick == 11 {
        <ArbitraryU256 as SorobanArbitrary>::gen_spec(data, p0)
    } else if pick == 12 {
        <ArbitraryI256 as SorobanArbitrary>::gen_spec(data, p0)
    } else if pick == 13 {
        <ArbitraryBytes as SorobanArbitrary>::gen_spec(data, p0)
    } else if pick == 14 {
        <ArbitraryString as SorobanArbitrary>::gen_spec(data, p0)
    } else if pick == 15 {
        <ArbitrarySymbol as SorobanArbitrary>::gen_spec(data, p0)
    } else if pick == 16 {
        <ArbitraryAddress as SorobanArbitrary>::gen_spec(data, p0)
    } else if pick == 17 {
        arvv_gen_spec(data, p0, (depth - 1) as nat)
    } else {
        arvm_gen_spec(data, p0, (depth - 1) as nat)
    }
}

/// The mathematical mirror of drawing a vector prototype.
#[verifier::opaque]
pub open spec fn arvv_gen_spec(data: Seq<u8>, pos: int, depth: nat) -> (SpecVal, int)
    decreases depth, 3int, 0int,
{
    let (pb, p0) = take_byte(data, pos);
    let pick = if depth > 0 {
        pb % 20
    } else {
        pb % 19
    };
    if pick == 0 {
        <ArbitraryVec<()> as SorobanArbitrary>::gen_spec(data, p0)
    } else if pick == 1 {
        <ArbitraryVec<bool> as SorobanArbitrary>::gen_spec(data, p0)
    } else if pick == 2 {
        <ArbitraryVec<crate::val::Error> as SorobanArbitrary>::gen_spec(data, p0)
    } else if pick == 3 {
        <ArbitraryVec<u32> as SorobanArbitrary>::gen_spec(data, p0)
    } else if pick == 4 {
        <ArbitraryVec<i32> as SorobanArbitrary>::gen_spec(data, p0)
    } else if pick == 5 {
        <ArbitraryVec<u64> as SorobanArbitrary>::gen_spec(data, p0)
    } else if pick == 6 {
        <ArbitraryVec<i64> as SorobanArbitrary>::gen_spec(data, p0)
    } else if pick == 7 {
        <ArbitraryVec<ArbitraryTimepoint> as SorobanArbitrary>::gen_spec(data, p0)
    } else if pick == 8 {
        <ArbitraryVec<ArbitraryDuration> as SorobanArbitrary>::gen_spec(data, p0)
    } else if pick == 9 {
        <ArbitraryVec<u128> as SorobanArbitrary>::gen_spec(data, p0)
    } else if pick == 10 {
        <ArbitraryVec<i128> as SorobanArbitrary>::gen_spec(data, p0)
    } else if pick == 11 {
        <ArbitraryVec<ArbitraryU256> as SorobanArbitrary>::gen_spec(data, p0)
    } else if pick == 12 {
        <ArbitraryVec<ArbitraryI256> as SorobanArbitrary>::gen_spec(data, p0)
    } else if pick == 13 {
        <ArbitraryVec<ArbitraryBytes> as SorobanArbitrary>::gen_spec(data, p0)
    } else if pick == 14 {
        <ArbitraryVec<ArbitraryString> as SorobanArbitrary>::gen_spec(data, p0)
    } else if pick == 15 {
        <ArbitraryVec<ArbitrarySymbol> as SorobanArbitrary>::gen_spec(data, p0)
    } else if pick == 16 {
        <ArbitraryVec<ArbitraryVec<u32>> as SorobanArbitrary>::gen_spec(data, p0)
    } else if pick == 17 {
        <ArbitraryMap<u32, u32> as SorobanArbitrary>::gen_spec(data, p0)
    } else if pick == 18 {
        <ArbitraryVec<ArbitraryAddress> as SorobanArbitrary>::gen_spec(data, p0)
    } else {
        let (lb, p1) = take_byte(data, p0);
        let (ms, p2) = arv_models_gen(data, p1, (lb % 4) as nat, depth);
        (SpecVal::Vec(Option::Some(ms)), p2)
    }
}

/// The mathematical mirror of drawing a map prototype.
#[verifier::opaque]
pub open spec fn arvm_gen_spec(data: Seq<u8>, pos: int, depth: nat) -> (SpecVal, int)
    decreases depth, 3int, 0int,
{
    let (pb, p0) = take_byte(data, pos);
    let pick = if depth > 0 {
        pb % 20
    } else {
        pb % 19
    };
    if pick == 0 {
        <ArbitraryMap<(), ()> as SorobanArbitrary>::gen_spec(data, p0)
    } else if pick == 1 {
        <ArbitraryMap<bool, bool> as SorobanArbitrary>::gen_spec(data, p0)
    } else if pick == 2 {
        <ArbitraryMap<crate::val::Error, crate::val::Error> as SorobanArbitrary>::gen_spec(
            data,
            p0,
        )
    } else if pick == 3 {
        <ArbitraryMap<u32, u32> as SorobanArbitrary>::gen_spec(data, p0)
    } else if pick == 4 {
        <ArbitraryMap<i32, i32> as SorobanArbitrary>::gen_spec(data, p0)
    } else if pick == 5 {
        <ArbitraryMap<u64, u64> as SorobanArbitrary>::gen_spec(data, p0)
    } else if pick == 6 {
        <ArbitraryMap<i64, i64> as SorobanArbitrary>::gen_spec(data, p0)
    } else if pick == 7 {
        <ArbitraryMap<ArbitraryTimepoint, ArbitraryTimepoint> as SorobanArbitrary>::gen_spec(
            data,
            p0,
        )
    } else if pick == 8 {
        <ArbitraryMap<ArbitraryDuration, ArbitraryDuration> as SorobanArbitrary>::gen_spec(
            data,
            p0,
        )
    } else if pick == 9 {
        <ArbitraryMap<u128, u128> as SorobanArbitrary>::gen_spec(data, p0)
    } else if pick == 10 {
        <ArbitraryMap<i128, i128> as SorobanArbitrary>::gen_spec(data, p0)
    } else if pick == 11 {
        <ArbitraryMap<ArbitraryU256, ArbitraryU256> as SorobanArbitrary>::gen_spec(data, p0)
    } else if pick == 12 {
        <ArbitraryMap<ArbitraryI256, ArbitraryI256> as SorobanArbitrary>::gen_spec(data, p0)
    } else if pick == 13 {
        <ArbitraryMap<ArbitraryBytes, ArbitraryBytes> as SorobanArbitrary>::gen_spec(data, p0)
    } else if pick == 14 {
        <ArbitraryMap<ArbitraryString, ArbitraryString> as SorobanArbitrary>::gen_spec(data, p0)
    } else if pick == 15 {
        <ArbitraryMap<ArbitrarySymbol, ArbitrarySymbol> as SorobanArbitrary>::gen_spec(data, p0)
    } else if pick == 16 {
        <ArbitraryMap<ArbitraryVec<u32>, ArbitraryVec<u32>> as SorobanArbitrary>::gen_spec(
            data,
            p0,
        )
    } else if pick == 17 {
        <ArbitraryMap<ArbitraryMap<u32, u32>, ArbitraryMap<u32, u32>> as SorobanArbitrary>::gen_spec(
            data,
            p0,
        )
    } else if pick == 18 {
        <ArbitraryMap<ArbitraryAddress, ArbitraryAddress> as SorobanArbitrary>::gen_spec(
            data,
            p0,
        )
    } else {
        let (lb, p1) = take_byte(data, p0);
        let (ms, p2) = arv_pair_models_gen(data, p1, (lb % 4) as nat, depth);
        (SpecVal::MapVal(Option::Some(map_build(ms))), p2)
    }
}

/// The mathematical mirror of drawing `n` tagged-value prototypes.
pub open spec fn arv_models_gen(data: Seq<u8>, pos: int, n: nat, depth: nat) -> (
    Seq<SpecVal>,
    int,
)
    decreases depth, 2int, n,
{
    if n == 0 {
        (Seq::empty(), pos)
    } else {
        let (m, p0) = arv_gen_spec(data, pos, depth);
        let (rest, p1) = arv_models_gen(data, p0, (n - 1) as nat, depth);
        (seq![m] + rest, p1)
    }
}

/// The mathematical mirror of drawing `n` prototype entry pairs.
pub open spec fn arv_pair_models_gen(data: Seq<u8>, pos: int, n: nat, depth: nat) -> (
    Seq<(SpecVal, SpecVal)>,
    int,
)
    decreases depth, 2int, n,
{
    if n == 0 {
        (Seq::empty(), pos)
    } else {
        let (mk, p0) = arv_gen_spec(data, pos, depth);
        let (mv, p1) = arv_gen_spec(data, p0, depth);
        let (rest, p2) = arv_pair_models_gen(data, p1, (n - 1) as nat, depth);
        (seq![(mk, mv)] + rest, p2)
    }
}

/// One step of the element-drawing mirror.
pub proof fn lemma_arv_models_gen_step(data: Seq<u8>, pos: int, n: nat, depth: nat)
    requires
        n > 0,
    ensures
        arv_models_gen(data, pos, n, depth).0 == seq![arv_gen_spec(data, pos, depth).0]
            + arv_models_gen(data, arv_gen_spec(data, pos, depth).1, (n - 1) as nat, depth).0,
        arv_models_gen(data, pos, n, depth).1 == arv_models_gen(
            data,
            arv_gen_spec(data, pos, depth).1,
            (n - 1) as nat,
            depth,
        ).1,
{
    reveal(arv_gen_spec);
    let (m, p0) = arv_gen_spec(data, pos, depth);
    let (rest, p1) = arv_models_gen(data, p0, (n - 1) as nat, depth);
    assert(arv_models_gen(data, pos, n, depth) == (seq![m] + rest, p1));
}

/// One step of the entry-drawing mirror.
pub proof fn lemma_arv_pair_models_gen_step(data: Seq<u8>, pos: int, n: nat, depth: nat)
    requires
        n > 0,
    ensures
        ({
            let (mk, p0) = arv_gen_spec(data, pos, depth);
            let (mv, p1) = arv_gen_spec(data, p0, depth);
            arv_pair_models_gen(data, pos, n, depth).0 == seq![(mk, mv)] + arv_pair_models_gen(
                data,
                p1,
                (n - 1) as nat,
                depth,
            ).0 && arv_pair_models_gen(data, pos, n, depth).1 == arv_pair_models_gen(
                data,
                p1,
                (n - 1) as nat,
                depth,
            ).1
        }),
{
    reveal(arv_gen_spec);
    let (mk, p0) = arv_gen_spec(data, pos, depth);
    let (mv, p1) = arv_gen_spec(data, p0, depth);
    let (rest, p2) = arv_pair_models_gen(data, p1, (n - 1) as nat, depth);
    assert(arv_pair_models_gen(data, pos, n, depth) == (seq![(mk, mv)] + rest, p2));
}

/// Draws a tagged-value prototype; container kinds appear only while
/// there is depth left to spend.
#[verifier::spinoff_prover]
#[verifier::rlimit(100)]
fn gen_arv(u: &mut ByteOracle, depth: u8) -> (r: ArbitraryRawVal)
    ensures
        arv_wf(r),
        final(u).data@ == old(u).data@,
        arv_model(r) == arv_gen_spec(old(u).data@, old(u).pos as int, depth as nat).0,
        final(u).pos as int == arv_gen_spec(old(u).data@, old(u).pos as int, depth as nat).1,
    decreases depth, 0int,
{
    proof {
        reveal(arv_gen_spec);
    }
    let pick = if depth > 0 {
        u.next_byte() % 19
    } else {
        u.next_byte() % 17
    };
    if pick == 0 {
        ArbitraryRawVal::Void
    } else if pick == 1 {
        ArbitraryRawVal::Bool(bool::generate(u))
    } else if pick == 2 {
        ArbitraryRawVal::Error(crate::val::Error::generate(u))
    } else if pick == 3 {
        ArbitraryRawVal::U32(u32::generate(u))
    } else if pick == 4 {
        ArbitraryRawVal::I32(i32::generate(u))
    } else if pick == 5 {
        ArbitraryRawVal::U64(u64::generate(u))
    } else if pick == 6 {
        ArbitraryRawVal::I64(i64::generate(u))
    } else if pick == 7 {
        ArbitraryRawVal::Timepoint(ArbitraryTimepoint::generate(u))
    } else if pick == 8 {
        ArbitraryRawVal::Duration(ArbitraryDuration::generate(u))
    } else if pick == 9 {
        ArbitraryRawVal::U128(u128::generate(u))
    } else if pick == 10 {
        ArbitraryRawVal::I128(i128::generate(u))
    } else if pick == 11 {
        ArbitraryRawVal::U256(ArbitraryU256::generate(u))
    } else if pick == 12 {
        ArbitraryRawVal::I256(ArbitraryI256::generate(u))
    } else if pick == 13 {
        ArbitraryRawVal::Bytes(ArbitraryBytes::generate(u))
    } else if pick == 14 {
        ArbitraryRawVal::String(ArbitraryString::generate(u))
    } else if pick == 15 {
        ArbitraryRawVal::Symbol(ArbitrarySymbol::generate(u))
    } else if pick == 16 {
        ArbitraryRawVal::Address(ArbitraryAddress::generate(u))
    } else if pick == 17 {
        ArbitraryRawVal::Vec(gen_arvv(u, (depth - 1) as u8))
    } else {
        ArbitraryRawVal::MapVal(gen_arvm(u, (depth - 1) as u8))
    }
}

/// Draws a vector prototype of an oracle-chosen element kind.
#[verifier::loop_isolation(false)]
#[verifier::rlimit(100)]
fn gen_arvv(u: &mut ByteOracle, depth: u8) -> (r: ArbitraryRawValVec)
    ensures
        arvv_wf(r),
        final(u).data@ == old(u).data@,
        arvv_model(r) == arvv_gen_spec(old(u).data@, old(u).pos as int, depth as nat).0,
        final(u).pos as int == arvv_gen_spec(old(u).data@, old(u).pos as int, depth as nat).1,
    decreases depth, 2int,
{
    proof {
        reveal(arvv_gen_spec);
    }
    let pick = if depth > 0 {
        u.next_byte() % 20
    } else {
        u.next_byte() % 19
    };
    if pick == 0 {
        ArbitraryRawValVec::Void(ArbitraryVec::<()>::generate(u))
    } else if pick == 1 {
        ArbitraryRawValVec::Bool(ArbitraryVec::<bool>::generate(u))
    } else if pick == 2 {
        ArbitraryRawValVec::Error(ArbitraryVec::<crate::val::Error>::generate(u))
    } else if pick == 3 {
        ArbitraryRawValVec::U32(ArbitraryVec::<u32>::generate(u))
    } else if pick == 4 {
        ArbitraryRawValVec::I32(ArbitraryVec::<i32>::generate(u))
    } else if pick == 5 {
        ArbitraryRawValVec::U64(ArbitraryVec::<u64>::generate(u))
    } else if pick == 6 {
        ArbitraryRawValVec::I64(ArbitraryVec::<i64>::generate(u))
    } else if pick == 7 {
        ArbitraryRawValVec::Timepoint(ArbitraryVec::<ArbitraryTimepoint>::generate(u))
    } else if pick == 8 {
        ArbitraryRawValVec::Duration(ArbitraryVec::<ArbitraryDuration>::generate(u))
    } else if pick == 9 {
        ArbitraryRawValVec::U128(ArbitraryVec::<u128>::generate(u))
    } else if pick == 10 {
        ArbitraryRawValVec::I128(ArbitraryVec::<i128>::generate(u))
    } else if pick == 11 {
        ArbitraryRawValVec::U256(ArbitraryVec::<ArbitraryU256>::generate(u))
    } else if pick == 12 {
        ArbitraryRawValVec::I256(ArbitraryVec::<ArbitraryI256>::generate(u))
    } else if pick == 13 {
        ArbitraryRawValVec::Bytes(ArbitraryVec::<ArbitraryBytes>::generate(u))
    } else if pick == 14 {
        ArbitraryRawValVec::String(ArbitraryVec::<ArbitraryString>::generate(u))
    } else if pick == 15 {
        ArbitraryRawValVec::Symbol(ArbitraryVec::<ArbitrarySymbol>::generate(u))
    } else if pick == 16 {
        ArbitraryRawValVec::Vec(ArbitraryVec::<ArbitraryVec<u32>>::generate(u))
    } else if pick == 17 {
        ArbitraryRawValVec::MapVal(ArbitraryMap::<u32, u32>::generate(u))
    } else if pick == 18 {
        ArbitraryRawValVec::Address(ArbitraryVec::<ArbitraryAddress>::generate(u))
    } else {
        ArbitraryRawValVec::RawVal(gen_arv_list(u, depth))
    }
}

/// Draws an oracle-chosen number of tagged-value prototypes at the given
/// depth.
#[verifier::loop_isolation(false)]
#[verifier::rlimit(100)]
fn gen_arv_list(u: &mut ByteOracle, depth: u8) -> (r: ArbitraryVec<ArbitraryRawVal>)
    ensures
        arv_seq_wf(r.vec@),
        final(u).data@ == old(u).data@,
        ({
            let (lb, q0) = take_byte(old(u).data@, old(u).pos as int);
            let (ms, q1) = arv_models_gen(old(u).data@, q0, (lb % 4) as nat, depth as nat);
            arv_models(r.vec@) == ms && final(u).pos as int == q1
        }),
    decreases depth, 1int,
{
    let ghost data = u.data@;
        let n = (u.next_byte() % 4) as usize;
        let ghost p1 = u.pos as int;
        let mut out: Vec<ArbitraryRawVal> = Vec::new();
        let mut k: usize = 0;
        while k < n
            invariant
                k <= n,
                out@.len() == k,
                u.data@ == data,
                forall|j: int| 0 <= j < k ==> arv_wf(#[trigger] out@[j]),
                arv_models(out@) + arv_models_gen(
                    data,
                    u.pos as int,
                    (n - k) as nat,
                    depth as nat,
                ).0 == arv_models_gen(data, p1, n as nat, depth as nat).0,
                arv_models_gen(data, u.pos as int, (n - k) as nat, depth as nat).1
                    == arv_models_gen(data, p1, n as nat, depth as nat).1,
            decreases n - k, 0int,
        {
            let ghost prev = u.pos as int;
            let x = gen_arv(u, depth);
            proof {
                lemma_arv_models_gen_step(data, prev, (n - k) as nat, depth as nat);
                lemma_arv_models_index(out@);
                lemma_arv_models_index(out@.push(x));
                assert forall|j: int| 0 <= j < out@.len() + 1 implies arv_models(out@.push(x))[j]
                    == arv_models(out@).push(arv_model(x))[j] by {
                    assert(arv_models(out@.push(x))[j] == arv_model(out@.push(x)[j]));
                    if j < out@.len() {
                        assert(out@.push(x)[j] == out@[j]);
                        assert(arv_models(out@)[j] == arv_model(out@[j]));
                    } else {
                        assert(out@.push(x)[j] == x);
                    }
                }
                assert(arv_models(out@.push(x)) =~= arv_models(out@).push(arv_model(x)));
                assert(arv_models(out@).push(arv_model(x)) + arv_models_gen(
                    data,
                    u.pos as int,
                    (n - (k + 1)) as nat,
                    depth as nat,
                ).0 =~= arv_models(out@) + arv_models_gen(
                    data,
                    prev,
                    (n - k) as nat,
                    depth as nat,
                ).0);
            }
            out.push(x);
            k += 1;
        }
        proof {
            lemma_arv_models_index(out@);
            assert(arv_models(out@) + arv_models_gen(data, u.pos as int, 0, depth as nat) .0
                =~= arv_models(out@));
        }
        ArbitraryVec { vec: out }
}


/// Draws a map prototype of an oracle-chosen entry kind.
#[verifier::loop_isolation(false)]
#[verifier::rlimit(100)]
fn gen_arvm(u: &mut ByteOracle, depth: u8) -> (r: ArbitraryRawValMap)
    ensures
        arvm_wf(r),
        final(u).data@ == old(u).data@,
        arvm_model(r) == arvm_gen_spec(old(u).data@, old(u).pos as int, depth as nat).0,
        final(u).pos as int == arvm_gen_spec(old(u).data@, old(u).pos as int, depth as nat).1,
    decreases depth, 2int,
{
    proof {
        reveal(arvm_gen_spec);
    }
    let pick = if depth > 0 {
        u.next_byte() % 20
    } else {
        u.next_byte() % 19
    };
    if pick == 0 {
        ArbitraryRawValMap::VoidToVoid(ArbitraryMap::<(), ()>::generate(u))
    } else if pick == 1 {
        ArbitraryRawValMap::BoolToBool(ArbitraryMap::<bool, bool>::generate(u))
    } else if pick == 2 {
        ArbitraryRawValMap::ErrorToError(
            ArbitraryMap::<crate::val::Error, crate::val::Error>::generate(u),
        )
    } else if pick == 3 {
        ArbitraryRawValMap::U32ToU32(ArbitraryMap::<u32, u32>::generate(u))
    } else if pick == 4 {
        ArbitraryRawValMap::I32ToI32(ArbitraryMap::<i32, i32>::generate(u))
    } else if pick == 5 {
        ArbitraryRawValMap::U64ToU64(ArbitraryMap::<u64, u64>::generate(u))
    } else if pick == 6 {
        ArbitraryRawValMap::I64ToI64(ArbitraryMap::<i64, i64>::generate(u))
    } else if pick == 7 {
        ArbitraryRawValMap::TimepointToTimepoint(
            ArbitraryMap::<ArbitraryTimepoint, ArbitraryTimepoint>::generate(u),
        )
    } else if pick == 8 {
        ArbitraryRawValMap::DurationToDuration(
            ArbitraryMap::<ArbitraryDuration, ArbitraryDuration>::generate(u),
        )
    } else if pick == 9 {
        ArbitraryRawValMap::U128ToU128(ArbitraryMap::<u128, u128>::generate(u))
    } else if pick == 10 {
        ArbitraryRawValMap::I128ToI128(ArbitraryMap::<i128, i128>::generate(u))
    } else if pick == 11 {
        ArbitraryRawValMap::U256ToU256(ArbitraryMap::<ArbitraryU256, ArbitraryU256>::generate(u))
    } else if pick == 12 {
        ArbitraryRawValMap::I256ToI256(ArbitraryMap::<ArbitraryI256, ArbitraryI256>::generate(u))
    } else if pick == 13 {
        ArbitraryRawValMap::BytesToBytes(ArbitraryMap::<ArbitraryBytes, ArbitraryBytes>::generate(u))
    } else if pick == 14 {
        ArbitraryRawValMap::StringToString(
            ArbitraryMap::<ArbitraryString, ArbitraryString>::generate(u),
        )
    } else if pick == 15 {
        ArbitraryRawValMap::SymbolToSymbol(
            ArbitraryMap::<ArbitrarySymbol, ArbitrarySymbol>::generate(u),
        )
    } else if pick == 16 {
        ArbitraryRawValMap::VecToVec(
            ArbitraryMap::<ArbitraryVec<u32>, ArbitraryVec<u32>>::generate(u),
        )
    } else if pick == 17 {
        ArbitraryRawValMap::MapToMap(
            ArbitraryMap::<ArbitraryMap<u32, u32>, ArbitraryMap<u32, u32>>::generate(u),
        )
    } else if pick == 18 {
        ArbitraryRawValMap::AddressToAddress(
            ArbitraryMap::<ArbitraryAddress, ArbitraryAddress>::generate(u),
        )
    } else {
        ArbitraryRawValMap::RawValToRawVal(gen_arv_pairs(u, depth))
    }
}

/// Draws an oracle-chosen number of prototype entry pairs at the given
/// depth.
#[verifier::loop_isolation(false)]
#[verifier::rlimit(100)]
fn gen_arv_pairs(u: &mut ByteOracle, depth: u8) -> (r: ArbitraryMap<ArbitraryRawVal, ArbitraryRawVal>)
    ensures
        arv_pairs_wf(r.map@),
        final(u).data@ == old(u).data@,
        ({
            let (lb, q0) = take_byte(old(u).data@, old(u).pos as int);
            let (ms, q1) = arv_pair_models_gen(old(u).data@, q0, (lb % 4) as nat, depth as nat);
            arv_pair_models(r.map@) == ms && final(u).pos as int == q1
        }),
    decreases depth, 1int,
{
    let ghost data = u.data@;
        let n = (u.next_byte() % 4) as usize;
        let ghost p1 = u.pos as int;
        let mut out: Vec<(ArbitraryRawVal, ArbitraryRawVal)> = Vec::new();
        let mut k: usize = 0;
        while k < n
            invariant
                k <= n,
                out@.len() == k,
                u.data@ == data,
                forall|j: int| 0 <= j < k ==> arv_wf((#[trigger] out@[j]).0) && arv_wf(out@[j].1),
                arv_pair_models(out@) + arv_pair_models_gen(
                    data,
                    u.pos as int,
                    (n - k) as nat,
                    depth as nat,
                ).0 == arv_pair_models_gen(data, p1, n as nat, depth as nat).0,
                arv_pair_models_gen(data, u.pos as int, (n - k) as nat, depth as nat).1
                    == arv_pair_models_gen(data, p1, n as nat, depth as nat).1,
            decreases n - k, 0int,
        {
            let ghost prev = u.pos as int;
            let a = gen_arv(u, depth);
            let b = gen_arv(u, depth);
            proof {
                lemma_arv_pair_models_gen_step(data, prev, (n - k) as nat, depth as nat);
                lemma_arv_pair_models_index(out@);
                lemma_arv_pair_models_index(out@.push((a, b)));
                assert forall|j: int|
                    0 <= j < out@.len() + 1 implies arv_pair_models(out@.push((a, b)))[j]
                    == arv_pair_models(out@).push((arv_model(a), arv_model(b)))[j] by {
                    assert(arv_pair_models(out@.push((a, b)))[j] == (
                        arv_model(out@.push((a, b))[j].0),
                        arv_model(out@.push((a, b))[j].1),
                    ));
                    if j < out@.len() {
                        assert(out@.push((a, b))[j] == out@[j]);
                        assert(arv_pair_models(out@)[j] == (
                            arv_model(out@[j].0),
                            arv_model(out@[j].1),
                        ));
                    } else {
                        assert(out@.push((a, b))[j] == (a, b));
                    }
                }
                assert(arv_pair_models(out@.push((a, b))) =~= arv_pair_models(out@).push(
                    (arv_model(a), arv_model(b)),
                ));
                assert(arv_pair_models(out@).push((arv_model(a), arv_model(b)))
                    + arv_pair_models_gen(
                    data,
                    u.pos as int,
                    (n - (k + 1)) as nat,
                    depth as nat,
                ).0 =~= arv_pair_models(out@) + arv_pair_models_gen(
                    data,
                    prev,
                    (n - k) as nat,
                    depth as nat,
                ).0);
            }
            out.push((a, b));
            k += 1;
        }
        proof {
            lemma_arv_pair_models_index(out@);
            assert(arv_pair_models(out@) + arv_pair_models_gen(
                data,
                u.pos as int,
                0,
                depth as nat,
            ) .0 =~= arv_pair_models(out@));
        }
        ArbitraryMap { map: out }
}


/// Realizes a tagged-value prototype in an environment.
fn realize_arv(p: &ArbitraryRawVal, env: &mut Env) -> (r: Result<RawVal, ConversionError>)
    requires
        arv_wf(*p),
        env_wf(*old(env)),
    ensures
        env_wf(*final(env)),
        env_extends(*old(env), *final(env)),
        r matches Result::Ok(v) && rv_model(*final(env), v) == Option::Some(arv_model(*p)),
    decreases *p, 0int,
{
    match p {
        ArbitraryRawVal::Void => Result::Ok(RawVal::Void),
        ArbitraryRawVal::Bool(x) => Result::Ok(RawVal::Bool(*x)),
        ArbitraryRawVal::Error(x) => Result::Ok(RawVal::Error(x.code)),
        ArbitraryRawVal::U32(x) => Result::Ok(RawVal::U32(*x)),
        ArbitraryRawVal::I32(x) => Result::Ok(RawVal::I32(*x)),
        ArbitraryRawVal::U64(x) => Result::Ok(RawVal::U64(*x)),
        ArbitraryRawVal::I64(x) => Result::Ok(RawVal::I64(*x)),
        ArbitraryRawVal::Timepoint(x) => x.realize(env),
        ArbitraryRawVal::Duration(x) => x.realize(env),
        ArbitraryRawVal::U128(x) => x.realize(env),
        ArbitraryRawVal::I128(x) => x.realize(env),
        ArbitraryRawVal::U256(x) => x.realize(env),
        ArbitraryRawVal::I256(x) => x.realize(env),
        ArbitraryRawVal::Bytes(x) => x.realize(env),
        ArbitraryRawVal::String(x) => x.realize(env),
        ArbitraryRawVal::Symbol(x) => x.realize(env),
        ArbitraryRawVal::Vec(q) => realize_arvv(q, env),
        ArbitraryRawVal::MapVal(m) => realize_arvm(m, env),
        ArbitraryRawVal::Address(x) => x.realize(env),
    }
}

/// Realizes a vector prototype in an environment.
#[verifier::loop_isolation(false)]
#[verifier::rlimit(100)]
fn realize_arvv(q: &ArbitraryRawValVec, env: &mut Env) -> (r: Result<RawVal, ConversionError>)
    requires
        arvv_wf(*q),
        env_wf(*old(env)),
    ensures
        env_wf(*final(env)),
        env_extends(*old(env), *final(env)),
        r matches Result::Ok(v) && rv_model(*final(env), v) == Option::Some(arvv_model(*q)),
    decreases *q, 1int,
{
    match q {
        ArbitraryRawValVec::Void(x) => x.realize(env),
        ArbitraryRawValVec::Bool(x) => x.realize(env),
        ArbitraryRawValVec::Error(x) => x.realize(env),
        ArbitraryRawValVec::U32(x) => x.realize(env),
        ArbitraryRawValVec::I32(x) => x.realize(env),
        ArbitraryRawValVec::U64(x) => x.realize(env),
        ArbitraryRawValVec::I64(x) => x.realize(env),
        ArbitraryRawValVec::Timepoint(x) => x.realize(env),
        ArbitraryRawValVec::Duration(x) => x.realize(env),
        ArbitraryRawValVec::U128(x) => x.realize(env),
        ArbitraryRawValVec::I128(x) => x.realize(env),
        ArbitraryRawValVec::U256(x) => x.realize(env),
        ArbitraryRawValVec::I256(x) => x.realize(env),
        ArbitraryRawValVec::Bytes(x) => x.realize(env),
        ArbitraryRawValVec::String(x) => x.realize(env),
        ArbitraryRawValVec::Symbol(x) => x.realize(env),
        ArbitraryRawValVec::Vec(x) => x.realize(env),
        ArbitraryRawValVec::MapVal(x) => x.realize(env),
        ArbitraryRawValVec::Address(x) => x.realize(env),
        ArbitraryRawValVec::RawVal(x) => {
            let ghost env0 = *old(env);
            let ghost sa = arv_models(x.vec@);
            proof {
                lemma_arv_models_index(x.vec@);
            }
            let n = x.vec.len();
            let mut out: Vec<RawVal> = Vec::new();
            let mut k: usize = 0;
            while k < n
                invariant
                    k <= n,
                    out@.len() == k,
                    env_wf(*env),
                    env_extends(env0, *env),
                    forall|j: int|
                        0 <= j < k ==> rv_model(*env, #[trigger] out@[j]) == Option::Some(sa[j]),
                decreases n - k,
            {
                let ghost env_pre = *env;
                let rv = match realize_arv(&x.vec[k], env) {
                    Result::Ok(rv) => rv,
                    Result::Err(e) => {
                        proof {
                            assert(false);
                        }
                        return Result::Err(e);
                    },
                };
                proof {
                    assert forall|j: int| 0 <= j < k implies rv_model(*env, #[trigger] out@[j])
                        == Option::Some(sa[j]) by {
                        lemma_rv_model_extends_full(env_pre, *env, out@[j]);
                    }
                    lemma_extends_trans(env0, env_pre, *env);
                }
                out.push(rv);
                k += 1;
            }
            let ghost env1 = *env;
            let ghost gout = out@;
            proof {
                lemma_vals_model_index(env1, gout, env1.objs@.len() as int);
            }
            match env.allocate(HostObject::Vec(out)) {
                Result::Ok(h) => {
                    proof {
                        let ms = vals_model(env1, gout, env1.objs@.len() as int).unwrap();
                        assert forall|j: int| 0 <= j < sa.len() implies ms[j] == #[trigger] sa[j]
                        by {
                            assert(rv_model(env1, gout[j]) == Option::Some(sa[j]));
                        }
                        assert(ms =~= sa);
                        lemma_extends_trans(env0, env1, *env);
                    }
                    Result::Ok(RawVal::Vec(h))
                },
                Result::Err(..) => {
                    proof {
                        assert forall|j: int| 0 <= j < gout.len() implies rv_model_b(
                            env1,
                            #[trigger] gout[j],
                            env1.objs@.len() as int,
                        ) is Some by {
                            assert(rv_model(env1, gout[j]) == Option::Some(sa[j]));
                        }
                        assert(false);
                    }
                    Result::Err(ConversionError::InvalidShape)
                },
            }
        },
    }
}

/// Realizes a map prototype in an environment.
#[verifier::loop_isolation(false)]
#[verifier::rlimit(100)]
fn realize_arvm(m: &ArbitraryRawValMap, env: &mut Env) -> (r: Result<RawVal, ConversionError>)
    requires
        arvm_wf(*m),
        env_wf(*old(env)),
    ensures
        env_wf(*final(env)),
        env_extends(*old(env), *final(env)),
        r matches Result::Ok(v) && rv_model(*final(env), v) == Option::Some(arvm_model(*m)),
    decreases *m, 1int,
{
    match m {
        ArbitraryRawValMap::VoidToVoid(x) => x.realize(env),
        ArbitraryRawValMap::BoolToBool(x) => x.realize(env),
        ArbitraryRawValMap::ErrorToError(x) => x.realize(env),
        ArbitraryRawValMap::U32ToU32(x) => x.realize(env),
        ArbitraryRawValMap::I32ToI32(x) => x.realize(env),
        ArbitraryRawValMap::U64ToU64(x) => x.realize(env),
        ArbitraryRawValMap::I64ToI64(x) => x.realize(env),
        ArbitraryRawValMap::TimepointToTimepoint(x) => x.realize(env),
        ArbitraryRawValMap::DurationToDuration(x) => x.realize(env),
        ArbitraryRawValMap::U128ToU128(x) => x.realize(env),
        ArbitraryRawValMap::I128ToI128(x) => x.realize(env),
        ArbitraryRawValMap::U256ToU256(x) => x.realize(env),
        ArbitraryRawValMap::I256ToI256(x) => x.realize(env),
        ArbitraryRawValMap::BytesToBytes(x) => x.realize(env),
        ArbitraryRawValMap::StringToString(x) => x.realize(env),
        ArbitraryRawValMap::SymbolToSymbol(x) => x.realize(env),
        ArbitraryRawValMap::VecToVec(x) => x.realize(env),
        ArbitraryRawValMap::MapToMap(x) => x.realize(env),
        ArbitraryRawValMap::AddressToAddress(x) => x.realize(env),
        ArbitraryRawValMap::RawValToRawVal(x) => {
            let ghost env0 = *old(env);
            let ghost sa = arv_pair_models(x.map@);
            proof {
                lemma_arv_pair_models_index(x.map@);
            }
            let n = x.map.len();
            let mut acc: Vec<(RawVal, RawVal)> = Vec::new();
            let mut k: usize = 0;
            while k < n
                invariant
                    k <= n,
                    env_wf(*env),
                    env_extends(env0, *env),
                    pairs_model(*env, acc@, env.objs@.len() as int) == Option::Some(
                        map_build(sa.subrange(0, k as int)),
                    ),
                    pairs_sorted(map_build(sa.subrange(0, k as int))),
                decreases n - k,
            {
                let ghost env_pre = *env;
                let rk = match realize_arv(&x.map[k].0, env) {
                    Result::Ok(rv) => rv,
                    Result::Err(e) => {
                        proof {
                            assert(false);
                        }
                        return Result::Err(e);
                    },
                };
                let ghost env_mid = *env;
                let rv = match realize_arv(&x.map[k].1, env) {
                    Result::Ok(rv) => rv,
                    Result::Err(e) => {
                        proof {
                            assert(false);
                        }
                        return Result::Err(e);
                    },
                };
                proof {
                    lemma_rv_model_extends_full(env_mid, *env, rk);
                    lemma_extends_trans(env_pre, env_mid, *env);
                    lemma_pairs_model_index(env_pre, acc@, env_pre.objs@.len() as int);
                    let msp = pairs_model(env_pre, acc@, env_pre.objs@.len() as int).unwrap();
                    assert forall|j: int| 0 <= j < acc@.len() implies rv_model(
                        *env,
                        (#[trigger] acc@[j]).0,
                    ) == Option::Some(msp[j].0) && rv_model(*env, acc@[j].1) == Option::Some(
                        msp[j].1,
                    ) by {
                        lemma_rv_model_extends_full(env_pre, *env, acc@[j].0);
                        lemma_rv_model_extends_full(env_pre, *env, acc@[j].1);
                    }
                    lemma_pairs_model_index(*env, acc@, env.objs@.len() as int);
                    let msn = pairs_model(*env, acc@, env.objs@.len() as int).unwrap();
                    assert(msn =~= msp);
                    lemma_extends_trans(env0, env_pre, *env);
                    crate::model::lemma_map_build_step(sa, k as int);
                }
                map_push_entry(env, &mut acc, rk, rv);
                k += 1;
            }
            proof {
                assert(sa.subrange(0, n as int) =~= sa);
            }
            let ghost env1 = *env;
            let ghost gacc = acc@;
            proof {
                lemma_pairs_model_index(env1, gacc, env1.objs@.len() as int);
            }
            match env.allocate(HostObject::MapVal(acc)) {
                Result::Ok(h) => {
                    proof {
                        lemma_extends_trans(env0, env1, *env);
                    }
                    Result::Ok(RawVal::MapVal(h))
                },
                Result::Err(..) => {
                    proof {
                        assert(false);
                    }
                    Result::Err(ConversionError::InvalidShape)
                },
            }
        },
    }
}

/// Realizes one more field of a record under construction and appends
/// it to the field list, keeping every earlier field's model intact as
/// the store grows.
#[verifier::loop_isolation(false)]
pub fn push_realized<T: SorobanArbitrary>(
    env: &mut Env,
    fields: &mut Vec<RawVal>,
    Ghost(models): Ghost<Seq<SpecVal>>,
    proto: &T,
) -> (r: Result<(), ConversionError>)
    requires
        proto.wf(),
        env_wf(*old(env)),
        old(fields)@.len() == models.len(),
        forall|j: int|
            0 <= j < models.len() ==> rv_model(*old(env), #[trigger] old(fields)@[j])
                == Option::Some(models[j]),
    ensures
        env_wf(*final(env)),
        env_extends(*old(env), *final(env)),
        r is Ok,
        final(fields)@.len() == models.len() + 1,
        forall|j: int|
            0 <= j < models.len() + 1 ==> rv_model(*final(env), #[trigger] final(fields)@[j])
                == Option::Some(models.push(proto.model())[j]),
{
    let rv = match proto.realize(env) {
        Result::Ok(rv) => rv,
        Result::Err(e) => {
            proof {
                assert(false);
            }
            return Result::Err(e);
        },
    };
    proof {
        assert forall|j: int| 0 <= j < models.len() implies rv_model(
            *env,
            #[trigger] fields@[j],
        ) == Option::Some(models[j]) by {
            lemma_rv_model_extends_full(*old(env), *env, fields@[j]);
        }
    }
    fields.push(rv);
    Result::Ok(())
}

/// Stores a finished record's field list as one vector object whose
/// model is the field models in declaration order.
#[verifier::loop_isolation(false)]
pub fn seal_record(env: &mut Env, fields: Vec<RawVal>, Ghost(models): Ghost<Seq<SpecVal>>) -> (r:
    Result<RawVal, ConversionError>)
    requires
        env_wf(*old(env)),
        fields@.len() == models.len(),
        forall|j: int|
            0 <= j < models.len() ==> rv_model(*old(env), #[trigger] fields@[j]) == Option::Some(
                models[j],
            ),
    ensures
        env_wf(*final(env)),
        env_extends(*old(env), *final(env)),
        r matches Result::Ok(v) && rv_model(*final(env), v) == Option::Some(
            SpecVal::Vec(Option::Some(models)),
        ),
{
    let ghost env1 = *old(env);
    let ghost gout = fields@;
    proof {
        lemma_vals_model_index(env1, gout, env1.objs@.len() as int);
    }
    match env.allocate(HostObject::Vec(fields)) {
        Result::Ok(h) => {
            proof {
                let ms = vals_model(env1, gout, env1.objs@.len() as int).unwrap();
                assert forall|j: int| 0 <= j < models.len() implies ms[j] == #[trigger] models[j]
                by {
                    assert(rv_model(env1, gout[j]) == Option::Some(models[j]));
                }
                assert(ms =~= models);
            }
            Result::Ok(RawVal::Vec(h))
        },
        Result::Err(..) => {
            proof {
                assert forall|j: int| 0 <= j < gout.len() implies rv_model_b(
                    env1,
                    #[trigger] gout[j],
                    env1.objs@.len() as int,
                ) is Some by {
                    assert(rv_model(env1, gout[j]) == Option::Some(models[j]));
                }
                assert(false);
            }
            Result::Err(ConversionError::InvalidShape)
        },
    }
}

impl SorobanArbitrary for ArbitraryRawVal {
    open spec fn wf(&self) -> bool {
        arv_wf(*self)
    }

    open spec fn model(&self) -> SpecVal {
        arv_model(*self)
    }

    open spec fn gen_spec(data: Seq<u8>, pos: int) -> (SpecVal, int) {
        arv_gen_spec(data, pos, GEN_DEPTH as nat)
    }

    fn generate(u: &mut ByteOracle) -> (r: Self)
    {
        gen_arv(u, GEN_DEPTH)
    }

    fn realize(&self, env: &mut Env) -> (r: Result<RawVal, ConversionError>) {
        realize_arv(self, env)
    }
}

} // verus!
