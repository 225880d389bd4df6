//! Record and variant types of the kind a contract author defines,
//! showing the pattern every user-defined type follows: a prototype is
//! composed structurally from the prototypes of its fields, a record is
//! realized as a vector of its fields in declaration order, a variant as
//! a vector led by its case index, and a plain enumeration as the number
//! its case stands for.

use vstd::prelude::*;

use crate::arbitrary::{
    push_realized, seal_record, take_byte, ArbitraryBytes, ArbitraryBytesN, ArbitraryMap,
    ArbitraryVec, ByteOracle, SorobanArbitrary,
};
use crate::env::{lemma_extends_trans, Env};
use crate::model::SpecVal;
use crate::val::{ConversionError, RawVal};

verus! {

/// A record with named fields of several kinds.
pub struct PrivStruct {
    pub count_u: u32,
    pub count_i: i32,
    pub bytes_n: ArbitraryBytesN<32>,
    pub vec: ArbitraryVec<ArbitraryBytes>,
    pub map: ArbitraryMap<ArbitraryBytes, ArbitraryVec<i32>>,
}

impl SorobanArbitrary for PrivStruct {
    open spec fn wf(&self) -> bool {
        self.count_u.wf() && self.count_i.wf() && self.bytes_n.wf() && self.vec.wf() && self.map.wf()
    }

    open spec fn model(&self) -> SpecVal {
        SpecVal::Vec(Option::Some(seq![self.count_u.model(), self.count_i.model(), self.bytes_n.model(), self.vec.model(), self.map.model()]))
    }

    open spec fn gen_spec(data: Seq<u8>, pos: int) -> (SpecVal, int) {
        let (m0, p0) = <u32 as SorobanArbitrary>::gen_spec(data, pos);
        let (m1, p1) = <i32 as SorobanArbitrary>::gen_spec(data, p0);
        let (m2, p2) = <ArbitraryBytesN<32> as SorobanArbitrary>::gen_spec(data, p1);
        let (m3, p3) = <ArbitraryVec<ArbitraryBytes> as SorobanArbitrary>::gen_spec(data, p2);
        let (m4, p4) = <ArbitraryMap<ArbitraryBytes, ArbitraryVec<i32>> as SorobanArbitrary>::gen_spec(data, p3);
        (SpecVal::Vec(Option::Some(seq![m0, m1, m2, m3, m4])), p4)
    }

    fn generate(u: &mut ByteOracle) -> (r: Self)
    {
        let f0 = u32::generate(u);
        let f1 = i32::generate(u);
        let f2 = <ArbitraryBytesN<32>>::generate(u);
        let f3 = <ArbitraryVec<ArbitraryBytes>>::generate(u);
        let f4 = <ArbitraryMap<ArbitraryBytes, ArbitraryVec<i32>>>::generate(u);
        PrivStruct { count_u: f0, count_i: f1, bytes_n: f2, vec: f3, map: f4 }
    }

    fn realize(&self, env: &mut Env) -> (r: Result<RawVal, ConversionError>) {
        let ghost e0 = *env;
        let ghost m0: Seq<SpecVal> = Seq::empty();
        let mut fields: Vec<RawVal> = Vec::new();
        push_realized(env, &mut fields, Ghost(m0), &self.count_u);
        let ghost m1 = m0.push(self.count_u.model());
        let ghost e1 = *env;
        push_realized(env, &mut fields, Ghost(m1), &self.count_i);
        let ghost m2 = m1.push(self.count_i.model());
        proof {
            lemma_extends_trans(e0, e1, *env);
        }
        let ghost e2 = *env;
        push_realized(env, &mut fields, Ghost(m2), &self.bytes_n);
        let ghost m3 = m2.push(self.bytes_n.model());
        proof {
            lemma_extends_trans(e0, e2, *env);
        }
        let ghost e3 = *env;
        push_realized(env, &mut fields, Ghost(m3), &self.vec);
        let ghost m4 = m3.push(self.vec.model());
        proof {
            lemma_extends_trans(e0, e3, *env);
        }
        let ghost e4 = *env;
        push_realized(env, &mut fields, Ghost(m4), &self.map);
        let ghost m5 = m4.push(self.map.model());
        proof {
            lemma_extends_trans(e0, e4, *env);
        }
        let ghost e5 = *env;
        proof {
            assert(m5 =~= seq![self.count_u.model(), self.count_i.model(), self.bytes_n.model(), self.vec.model(), self.map.model()]);
        }
        seal_record(env, fields, Ghost(m5))
    }
}

/// A record with named fields of several kinds.
pub struct PrivStructPubFields {
    pub count_u: u32,
    pub count_i: i32,
    pub bytes_n: ArbitraryBytesN<32>,
    pub vec: ArbitraryVec<ArbitraryBytes>,
    pub map: ArbitraryMap<ArbitraryBytes, ArbitraryVec<i32>>,
}

impl SorobanArbitrary for PrivStructPubFields {
    open spec fn wf(&self) -> bool {
        self.count_u.wf() && self.count_i.wf() && self.bytes_n.wf() && self.vec.wf() && self.map.wf()
    }

    open spec fn model(&self) -> SpecVal {
        SpecVal::Vec(Option::Some(seq![self.count_u.model(), self.count_i.model(), self.bytes_n.model(), self.vec.model(), self.map.model()]))
    }

    open spec fn gen_spec(data: Seq<u8>, pos: int) -> (SpecVal, int) {
        let (m0, p0) = <u32 as SorobanArbitrary>::gen_spec(data, pos);
        let (m1, p1) = <i32 as SorobanArbitrary>::gen_spec(data, p0);
        let (m2, p2) = <ArbitraryBytesN<32> as SorobanArbitrary>::gen_spec(data, p1);
        let (m3, p3) = <ArbitraryVec<ArbitraryBytes> as SorobanArbitrary>::gen_spec(data, p2);
        let (m4, p4) = <ArbitraryMap<ArbitraryBytes, ArbitraryVec<i32>> as SorobanArbitrary>::gen_spec(data, p3);
        (SpecVal::Vec(Option::Some(seq![m0, m1, m2, m3, m4])), p4)
    }

    fn generate(u: &mut ByteOracle) -> (r: Self)
    {
        let f0 = u32::generate(u);
        let f1 = i32::generate(u);
        let f2 = <ArbitraryBytesN<32>>::generate(u);
        let f3 = <ArbitraryVec<ArbitraryBytes>>::generate(u);
        let f4 = <ArbitraryMap<ArbitraryBytes, ArbitraryVec<i32>>>::generate(u);
        PrivStructPubFields { count_u: f0, count_i: f1, bytes_n: f2, vec: f3, map: f4 }
    }

    fn realize(&self, env: &mut Env) -> (r: Result<RawVal, ConversionError>) {
        let ghost e0 = *env;
        let ghost m0: Seq<SpecVal> = Seq::empty();
        let mut fields: Vec<RawVal> = Vec::new();
        push_realized(env, &mut fields, Ghost(m0), &self.count_u);
        let ghost m1 = m0.push(self.count_u.model());
        let ghost e1 = *env;
        push_realized(env, &mut fields, Ghost(m1), &self.count_i);
        let ghost m2 = m1.push(self.count_i.model());
        proof {
            lemma_extends_trans(e0, e1, *env);
        }
        let ghost e2 = *env;
        push_realized(env, &mut fields, Ghost(m2), &self.bytes_n);
        let ghost m3 = m2.push(self.bytes_n.model());
        proof {
            lemma_extends_trans(e0, e2, *env);
        }
        let ghost e3 = *env;
        push_realized(env, &mut fields, Ghost(m3), &self.vec);
        let ghost m4 = m3.push(self.vec.model());
        proof {
            lemma_extends_trans(e0, e3, *env);
        }
        let ghost e4 = *env;
        push_realized(env, &mut fields, Ghost(m4), &self.map);
        let ghost m5 = m4.push(self.map.model());
        proof {
            lemma_extends_trans(e0, e4, *env);
        }
        let ghost e5 = *env;
        proof {
            assert(m5 =~= seq![self.count_u.model(), self.count_i.model(), self.bytes_n.model(), self.vec.model(), self.map.model()]);
        }
        seal_record(env, fields, Ghost(m5))
    }
}

/// A record with named fields of several kinds.
pub struct PubStruct {
    pub count_u: u32,
    pub count_i: i32,
    pub bytes_n: ArbitraryBytesN<32>,
    pub vec: ArbitraryVec<ArbitraryBytes>,
    pub map: ArbitraryMap<ArbitraryBytes, ArbitraryVec<i32>>,
}

impl SorobanArbitrary for PubStruct {
    open spec fn wf(&self) -> bool {
        self.count_u.wf() && self.count_i.wf() && self.bytes_n.wf() && self.vec.wf() && self.map.wf()
    }

    open spec fn model(&self) -> SpecVal {
        SpecVal::Vec(Option::Some(seq![self.count_u.model(), self.count_i.model(), self.bytes_n.model(), self.vec.model(), self.map.model()]))
    }

    open spec fn gen_spec(data: Seq<u8>, pos: int) -> (SpecVal, int) {
        let (m0, p0) = <u32 as SorobanArbitrary>::gen_spec(data, pos);
        let (m1, p1) = <i32 as SorobanArbitrary>::gen_spec(data, p0);
        let (m2, p2) = <ArbitraryBytesN<32> as SorobanArbitrary>::gen_spec(data, p1);
        let (m3, p3) = <ArbitraryVec<ArbitraryBytes> as SorobanArbitrary>::gen_spec(data, p2);
        let (m4, p4) = <ArbitraryMap<ArbitraryBytes, ArbitraryVec<i32>> as SorobanArbitrary>::gen_spec(data, p3);
        (SpecVal::Vec(Option::Some(seq![m0, m1, m2, m3, m4])), p4)
    }

    fn generate(u: &mut ByteOracle) -> (r: Self)
    {
        let f0 = u32::generate(u);
        let f1 = i32::generate(u);
        let f2 = <ArbitraryBytesN<32>>::generate(u);
        let f3 = <ArbitraryVec<ArbitraryBytes>>::generate(u);
        let f4 = <ArbitraryMap<ArbitraryBytes, ArbitraryVec<i32>>>::generate(u);
        PubStruct { count_u: f0, count_i: f1, bytes_n: f2, vec: f3, map: f4 }
    }

    fn realize(&self, env: &mut Env) -> (r: Result<RawVal, ConversionError>) {
        let ghost e0 = *env;
        let ghost m0: Seq<SpecVal> = Seq::empty();
        let mut fields: Vec<RawVal> = Vec::new();
        push_realized(env, &mut fields, Ghost(m0), &self.count_u);
        let ghost m1 = m0.push(self.count_u.model());
        let ghost e1 = *env;
        push_realized(env, &mut fields, Ghost(m1), &self.count_i);
        let ghost m2 = m1.push(self.count_i.model());
        proof {
            lemma_extends_trans(e0, e1, *env);
        }
        let ghost e2 = *env;
        push_realized(env, &mut fields, Ghost(m2), &self.bytes_n);
        let ghost m3 = m2.push(self.bytes_n.model());
        proof {
            lemma_extends_trans(e0, e2, *env);
        }
        let ghost e3 = *env;
        push_realized(env, &mut fields, Ghost(m3), &self.vec);
        let ghost m4 = m3.push(self.vec.model());
        proof {
            lemma_extends_trans(e0, e3, *env);
        }
        let ghost e4 = *env;
        push_realized(env, &mut fields, Ghost(m4), &self.map);
        let ghost m5 = m4.push(self.map.model());
        proof {
            lemma_extends_trans(e0, e4, *env);
        }
        let ghost e5 = *env;
        proof {
            assert(m5 =~= seq![self.count_u.model(), self.count_i.model(), self.bytes_n.model(), self.vec.model(), self.map.model()]);
        }
        seal_record(env, fields, Ghost(m5))
    }
}

/// A record with named fields of several kinds.
pub struct PubStructPubFields {
    pub count_u: u32,
    pub count_i: i32,
    pub bytes_n: ArbitraryBytesN<32>,
    pub vec: ArbitraryVec<ArbitraryBytes>,
    pub map: ArbitraryMap<ArbitraryBytes, ArbitraryVec<i32>>,
}

impl SorobanArbitrary for PubStructPubFields {
    open spec fn wf(&self) -> bool {
        self.count_u.wf() && self.count_i.wf() && self.bytes_n.wf() && self.vec.wf() && self.map.wf()
    }

    open spec fn model(&self) -> SpecVal {
        SpecVal::Vec(Option::Some(seq![self.count_u.model(), self.count_i.model(), self.bytes_n.model(), self.vec.model(), self.map.model()]))
    }

    open spec fn gen_spec(data: Seq<u8>, pos: int) -> (SpecVal, int) {
        let (m0, p0) = <u32 as SorobanArbitrary>::gen_spec(data, pos);
        let (m1, p1) = <i32 as SorobanArbitrary>::gen_spec(data, p0);
        let (m2, p2) = <ArbitraryBytesN<32> as SorobanArbitrary>::gen_spec(data, p1);
        let (m3, p3) = <ArbitraryVec<ArbitraryBytes> as SorobanArbitrary>::gen_spec(data, p2);
        let (m4, p4) = <ArbitraryMap<ArbitraryBytes, ArbitraryVec<i32>> as SorobanArbitrary>::gen_spec(data, p3);
        (SpecVal::Vec(Option::Some(seq![m0, m1, m2, m3, m4])), p4)
    }

    fn generate(u: &mut ByteOracle) -> (r: Self)
    {
        let f0 = u32::generate(u);
        let f1 = i32::generate(u);
        let f2 = <ArbitraryBytesN<32>>::generate(u);
        let f3 = <ArbitraryVec<ArbitraryBytes>>::generate(u);
        let f4 = <ArbitraryMap<ArbitraryBytes, ArbitraryVec<i32>>>::generate(u);
        PubStructPubFields { count_u: f0, count_i: f1, bytes_n: f2, vec: f3, map: f4 }
    }

    fn realize(&self, env: &mut Env) -> (r: Result<RawVal, ConversionError>) {
        let ghost e0 = *env;
        let ghost m0: Seq<SpecVal> = Seq::empty();
        let mut fields: Vec<RawVal> = Vec::new();
        push_realized(env, &mut fields, Ghost(m0), &self.count_u);
        let ghost m1 = m0.push(self.count_u.model());
        let ghost e1 = *env;
        push_realized(env, &mut fields, Ghost(m1), &self.count_i);
        let ghost m2 = m1.push(self.count_i.model());
        proof {
            lemma_extends_trans(e0, e1, *env);
        }
        let ghost e2 = *env;
        push_realized(env, &mut fields, Ghost(m2), &self.bytes_n);
        let ghost m3 = m2.push(self.bytes_n.model());
        proof {
            lemma_extends_trans(e0, e2, *env);
        }
        let ghost e3 = *env;
        push_realized(env, &mut fields, Ghost(m3), &self.vec);
        let ghost m4 = m3.push(self.vec.model());
        proof {
            lemma_extends_trans(e0, e3, *env);
        }
        let ghost e4 = *env;
        push_realized(env, &mut fields, Ghost(m4), &self.map);
        let ghost m5 = m4.push(self.map.model());
        proof {
            lemma_extends_trans(e0, e4, *env);
        }
        let ghost e5 = *env;
        proof {
            assert(m5 =~= seq![self.count_u.model(), self.count_i.model(), self.bytes_n.model(), self.vec.model(), self.map.model()]);
        }
        seal_record(env, fields, Ghost(m5))
    }
}

/// A record with positional fields of several kinds.
pub struct PrivTupleStruct(pub u32, pub i32, pub ArbitraryBytesN<32>, pub ArbitraryVec<ArbitraryBytes>, pub ArbitraryMap<ArbitraryBytes, ArbitraryVec<i32>>);

impl SorobanArbitrary for PrivTupleStruct {
    open spec fn wf(&self) -> bool {
        self.0.wf() && self.1.wf() && self.2.wf() && self.3.wf() && self.4.wf()
    }

    open spec fn model(&self) -> SpecVal {
        SpecVal::Vec(Option::Some(seq![self.0.model(), self.1.model(), self.2.model(), self.3.model(), self.4.model()]))
    }

    open spec fn gen_spec(data: Seq<u8>, pos: int) -> (SpecVal, int) {
        let (m0, p0) = <u32 as SorobanArbitrary>::gen_spec(data, pos);
        let (m1, p1) = <i32 as SorobanArbitrary>::gen_spec(data, p0);
        let (m2, p2) = <ArbitraryBytesN<32> as SorobanArbitrary>::gen_spec(data, p1);
        let (m3, p3) = <ArbitraryVec<ArbitraryBytes> as SorobanArbitrary>::gen_spec(data, p2);
        let (m4, p4) = <ArbitraryMap<ArbitraryBytes, ArbitraryVec<i32>> as SorobanArbitrary>::gen_spec(data, p3);
        (SpecVal::Vec(Option::Some(seq![m0, m1, m2, m3, m4])), p4)
    }

    fn generate(u: &mut ByteOracle) -> (r: Self)
    {
        let f0 = u32::generate(u);
        let f1 = i32::generate(u);
        let f2 = <ArbitraryBytesN<32>>::generate(u);
        let f3 = <ArbitraryVec<ArbitraryBytes>>::generate(u);
        let f4 = <ArbitraryMap<ArbitraryBytes, ArbitraryVec<i32>>>::generate(u);
        PrivTupleStruct(f0, f1, f2, f3, f4)
    }

    fn realize(&self, env: &mut Env) -> (r: Result<RawVal, ConversionError>) {
        let ghost e0 = *env;
        let ghost m0: Seq<SpecVal> = Seq::empty();
        let mut fields: Vec<RawVal> = Vec::new();
        push_realized(env, &mut fields, Ghost(m0), &self.0);
        let ghost m1 = m0.push(self.0.model());
        let ghost e1 = *env;
        push_realized(env, &mut fields, Ghost(m1), &self.1);
        let ghost m2 = m1.push(self.1.model());
        proof {
            lemma_extends_trans(e0, e1, *env);
        }
        let ghost e2 = *env;
        push_realized(env, &mut fields, Ghost(m2), &self.2);
        let ghost m3 = m2.push(self.2.model());
        proof {
            lemma_extends_trans(e0, e2, *env);
        }
        let ghost e3 = *env;
        push_realized(env, &mut fields, Ghost(m3), &self.3);
        let ghost m4 = m3.push(self.3.model());
        proof {
            lemma_extends_trans(e0, e3, *env);
        }
        let ghost e4 = *env;
        push_realized(env, &mut fields, Ghost(m4), &self.4);
        let ghost m5 = m4.push(self.4.model());
        proof {
            lemma_extends_trans(e0, e4, *env);
        }
        let ghost e5 = *env;
        proof {
            assert(m5 =~= seq![self.0.model(), self.1.model(), self.2.model(), self.3.model(), self.4.model()]);
        }
        seal_record(env, fields, Ghost(m5))
    }
}

/// A record with positional fields of several kinds.
pub struct PrivTupleStructPubFields(pub u32, pub i32, pub ArbitraryBytesN<32>, pub ArbitraryVec<ArbitraryBytes>, pub ArbitraryMap<ArbitraryBytes, ArbitraryVec<i32>>);

impl SorobanArbitrary for PrivTupleStructPubFields {
    open spec fn wf(&self) -> bool {
        self.0.wf() && self.1.wf() && self.2.wf() && self.3.wf() && self.4.wf()
    }

    open spec fn model(&self) -> SpecVal {
        SpecVal::Vec(Option::Some(seq![self.0.model(), self.1.model(), self.2.model(), self.3.model(), self.4.model()]))
    }

    open spec fn gen_spec(data: Seq<u8>, pos: int) -> (SpecVal, int) {
        let (m0, p0) = <u32 as SorobanArbitrary>::gen_spec(data, pos);
        let (m1, p1) = <i32 as SorobanArbitrary>::gen_spec(data, p0);
        let (m2, p2) = <ArbitraryBytesN<32> as SorobanArbitrary>::gen_spec(data, p1);
        let (m3, p3) = <ArbitraryVec<ArbitraryBytes> as SorobanArbitrary>::gen_spec(data, p2);
        let (m4, p4) = <ArbitraryMap<ArbitraryBytes, ArbitraryVec<i32>> as SorobanArbitrary>::gen_spec(data, p3);
        (SpecVal::Vec(Option::Some(seq![m0, m1, m2, m3, m4])), p4)
    }

    fn generate(u: &mut ByteOracle) -> (r: Self)
    {
        let f0 = u32::generate(u);
        let f1 = i32::generate(u);
        let f2 = <ArbitraryBytesN<32>>::generate(u);
        let f3 = <ArbitraryVec<ArbitraryBytes>>::generate(u);
        let f4 = <ArbitraryMap<ArbitraryBytes, ArbitraryVec<i32>>>::generate(u);
        PrivTupleStructPubFields(f0, f1, f2, f3, f4)
    }

    fn realize(&self, env: &mut Env) -> (r: Result<RawVal, ConversionError>) {
        let ghost e0 = *env;
        let ghost m0: Seq<SpecVal> = Seq::empty();
        let mut fields: Vec<RawVal> = Vec::new();
        push_realized(env, &mut fields, Ghost(m0), &self.0);
        let ghost m1 = m0.push(self.0.model());
        let ghost e1 = *env;
        push_realized(env, &mut fields, Ghost(m1), &self.1);
        let ghost m2 = m1.push(self.1.model());
        proof {
            lemma_extends_trans(e0, e1, *env);
        }
        let ghost e2 = *env;
        push_realized(env, &mut fields, Ghost(m2), &self.2);
        let ghost m3 = m2.push(self.2.model());
        proof {
            lemma_extends_trans(e0, e2, *env);
        }
        let ghost e3 = *env;
        push_realized(env, &mut fields, Ghost(m3), &self.3);
        let ghost m4 = m3.push(self.3.model());
        proof {
            lemma_extends_trans(e0, e3, *env);
        }
        let ghost e4 = *env;
        push_realized(env, &mut fields, Ghost(m4), &self.4);
        let ghost m5 = m4.push(self.4.model());
        proof {
            lemma_extends_trans(e0, e4, *env);
        }
        let ghost e5 = *env;
        proof {
            assert(m5 =~= seq![self.0.model(), self.1.model(), self.2.model(), self.3.model(), self.4.model()]);
        }
        seal_record(env, fields, Ghost(m5))
    }
}

/// A record with positional fields of several kinds.
pub struct PubTupleStruct(pub u32, pub i32, pub ArbitraryBytesN<32>, pub ArbitraryVec<ArbitraryBytes>, pub ArbitraryMap<ArbitraryBytes, ArbitraryVec<i32>>);

impl SorobanArbitrary for PubTupleStruct {
    open spec fn wf(&self) -> bool {
        self.0.wf() && self.1.wf() && self.2.wf() && self.3.wf() && self.4.wf()
    }

    open spec fn model(&self) -> SpecVal {
        SpecVal::Vec(Option::Some(seq![self.0.model(), self.1.model(), self.2.model(), self.3.model(), self.4.model()]))
    }

    open spec fn gen_spec(data: Seq<u8>, pos: int) -> (SpecVal, int) {
        let (m0, p0) = <u32 as SorobanArbitrary>::gen_spec(data, pos);
        let (m1, p1) = <i32 as SorobanArbitrary>::gen_spec(data, p0);
        let (m2, p2) = <ArbitraryBytesN<32> as SorobanArbitrary>::gen_spec(data, p1);
        let (m3, p3) = <ArbitraryVec<ArbitraryBytes> as SorobanArbitrary>::gen_spec(data, p2);
        let (m4, p4) = <ArbitraryMap<ArbitraryBytes, ArbitraryVec<i32>> as SorobanArbitrary>::gen_spec(data, p3);
        (SpecVal::Vec(Option::Some(seq![m0, m1, m2, m3, m4])), p4)
    }

    fn generate(u: &mut ByteOracle) -> (r: Self)
    {
        let f0 = u32::generate(u);
        let f1 = i32::generate(u);
        let f2 = <ArbitraryBytesN<32>>::generate(u);
        let f3 = <ArbitraryVec<ArbitraryBytes>>::generate(u);
        let f4 = <ArbitraryMap<ArbitraryBytes, ArbitraryVec<i32>>>::generate(u);
        PubTupleStruct(f0, f1, f2, f3, f4)
    }

    fn realize(&self, env: &mut Env) -> (r: Result<RawVal, ConversionError>) {
        let ghost e0 = *env;
        let ghost m0: Seq<SpecVal> = Seq::empty();
        let mut fields: Vec<RawVal> = Vec::new();
        push_realized(env, &mut fields, Ghost(m0), &self.0);
        let ghost m1 = m0.push(self.0.model());
        let ghost e1 = *env;
        push_realized(env, &mut fields, Ghost(m1), &self.1);
        let ghost m2 = m1.push(self.1.model());
        proof {
            lemma_extends_trans(e0, e1, *env);
        }
        let ghost e2 = *env;
        push_realized(env, &mut fields, Ghost(m2), &self.2);
        let ghost m3 = m2.push(self.2.model());
        proof {
            lemma_extends_trans(e0, e2, *env);
        }
        let ghost e3 = *env;
        push_realized(env, &mut fields, Ghost(m3), &self.3);
        let ghost m4 = m3.push(self.3.model());
        proof {
            lemma_extends_trans(e0, e3, *env);
        }
        let ghost e4 = *env;
        push_realized(env, &mut fields, Ghost(m4), &self.4);
        let ghost m5 = m4.push(self.4.model());
        proof {
            lemma_extends_trans(e0, e4, *env);
        }
        let ghost e5 = *env;
        proof {
            assert(m5 =~= seq![self.0.model(), self.1.model(), self.2.model(), self.3.model(), self.4.model()]);
        }
        seal_record(env, fields, Ghost(m5))
    }
}

/// A record with positional fields of several kinds.
pub struct PubTupleStructPubFields(pub u32, pub i32, pub ArbitraryBytesN<32>, pub ArbitraryVec<ArbitraryBytes>, pub ArbitraryMap<ArbitraryBytes, ArbitraryVec<i32>>);

impl SorobanArbitrary for PubTupleStructPubFields {
    open spec fn wf(&self) -> bool {
        self.0.wf() && self.1.wf() && self.2.wf() && self.3.wf() && self.4.wf()
    }

    open spec fn model(&self) -> SpecVal {
        SpecVal::Vec(Option::Some(seq![self.0.model(), self.1.model(), self.2.model(), self.3.model(), self.4.model()]))
    }

    open spec fn gen_spec(data: Seq<u8>, pos: int) -> (SpecVal, int) {
        let (m0, p0) = <u32 as SorobanArbitrary>::gen_spec(data, pos);
        let (m1, p1) = <i32 as SorobanArbitrary>::gen_spec(data, p0);
        let (m2, p2) = <ArbitraryBytesN<32> as SorobanArbitrary>::gen_spec(data, p1);
        let (m3, p3) = <ArbitraryVec<ArbitraryBytes> as SorobanArbitrary>::gen_spec(data, p2);
        let (m4, p4) = <ArbitraryMap<ArbitraryBytes, ArbitraryVec<i32>> as SorobanArbitrary>::gen_spec(data, p3);
        (SpecVal::Vec(Option::Some(seq![m0, m1, m2, m3, m4])), p4)
    }

    fn generate(u: &mut ByteOracle) -> (r: Self)
    {
        let f0 = u32::generate(u);
        let f1 = i32::generate(u);
        let f2 = <ArbitraryBytesN<32>>::generate(u);
        let f3 = <ArbitraryVec<ArbitraryBytes>>::generate(u);
        let f4 = <ArbitraryMap<ArbitraryBytes, ArbitraryVec<i32>>>::generate(u);
        PubTupleStructPubFields(f0, f1, f2, f3, f4)
    }

    fn realize(&self, env: &mut Env) -> (r: Result<RawVal, ConversionError>) {
        let ghost e0 = *env;
        let ghost m0: Seq<SpecVal> = Seq::empty();
        let mut fields: Vec<RawVal> = Vec::new();
        push_realized(env, &mut fields, Ghost(m0), &self.0);
        let ghost m1 = m0.push(self.0.model());
        let ghost e1 = *env;
        push_realized(env, &mut fields, Ghost(m1), &self.1);
        let ghost m2 = m1.push(self.1.model());
        proof {
            lemma_extends_trans(e0, e1, *env);
        }
        let ghost e2 = *env;
        push_realized(env, &mut fields, Ghost(m2), &self.2);
        let ghost m3 = m2.push(self.2.model());
        proof {
            lemma_extends_trans(e0, e2, *env);
        }
        let ghost e3 = *env;
        push_realized(env, &mut fields, Ghost(m3), &self.3);
        let ghost m4 = m3.push(self.3.model());
        proof {
            lemma_extends_trans(e0, e3, *env);
        }
        let ghost e4 = *env;
        push_realized(env, &mut fields, Ghost(m4), &self.4);
        let ghost m5 = m4.push(self.4.model());
        proof {
            lemma_extends_trans(e0, e4, *env);
        }
        let ghost e5 = *env;
        proof {
            assert(m5 =~= seq![self.0.model(), self.1.model(), self.2.model(), self.3.model(), self.4.model()]);
        }
        seal_record(env, fields, Ghost(m5))
    }
}

/// A record of a single counter.
pub struct PubCrateStruct(pub u32);

impl SorobanArbitrary for PubCrateStruct {
    open spec fn wf(&self) -> bool {
        self.0.wf()
    }

    open spec fn model(&self) -> SpecVal {
        SpecVal::Vec(Option::Some(seq![self.0.model()]))
    }

    open spec fn gen_spec(data: Seq<u8>, pos: int) -> (SpecVal, int) {
        let (m0, p0) = <u32 as SorobanArbitrary>::gen_spec(data, pos);
        (SpecVal::Vec(Option::Some(seq![m0])), p0)
    }

    fn generate(u: &mut ByteOracle) -> (r: Self)
    {
        let f0 = u32::generate(u);
        PubCrateStruct(f0)
    }

    fn realize(&self, env: &mut Env) -> (r: Result<RawVal, ConversionError>) {
        let ghost e0 = *env;
        let ghost m0: Seq<SpecVal> = Seq::empty();
        let mut fields: Vec<RawVal> = Vec::new();
        push_realized(env, &mut fields, Ghost(m0), &self.0);
        let ghost m1 = m0.push(self.0.model());
        let ghost e1 = *env;
        proof {
            assert(m1 =~= seq![self.0.model()]);
        }
        seal_record(env, fields, Ghost(m1))
    }
}

/// A record of a single named counter.
pub struct Foo {
    pub a: u32,
}

impl SorobanArbitrary for Foo {
    open spec fn wf(&self) -> bool {
        self.a.wf()
    }

    open spec fn model(&self) -> SpecVal {
        SpecVal::Vec(Option::Some(seq![self.a.model()]))
    }

    open spec fn gen_spec(data: Seq<u8>, pos: int) -> (SpecVal, int) {
        let (m0, p0) = <u32 as SorobanArbitrary>::gen_spec(data, pos);
        (SpecVal::Vec(Option::Some(seq![m0])), p0)
    }

    fn generate(u: &mut ByteOracle) -> (r: Self)
    {
        let f0 = u32::generate(u);
        Foo { a: f0 }
    }

    fn realize(&self, env: &mut Env) -> (r: Result<RawVal, ConversionError>) {
        let ghost e0 = *env;
        let ghost m0: Seq<SpecVal> = Seq::empty();
        let mut fields: Vec<RawVal> = Vec::new();
        push_realized(env, &mut fields, Ghost(m0), &self.a);
        let ghost m1 = m0.push(self.a.model());
        let ghost e1 = *env;
        proof {
            assert(m1 =~= seq![self.a.model()]);
        }
        seal_record(env, fields, Ghost(m1))
    }
}

/// A variant type with one-field, two-field and bare cases.
pub enum PrivEnum {
    A(u32),
    Aa(u32, u32),
    C,
    D,
}

impl SorobanArbitrary for PrivEnum {
    open spec fn wf(&self) -> bool {
        match *self {
            PrivEnum::A(x0) => x0.wf(),
            PrivEnum::Aa(x0, x1) => x0.wf() && x1.wf(),
            PrivEnum::C => true,
            PrivEnum::D => true,
        }
    }

    open spec fn model(&self) -> SpecVal {
        match *self {
            PrivEnum::A(x0) => SpecVal::Vec(
                Option::Some(seq![SpecVal::U32(0), x0.model()]),
            ),
            PrivEnum::Aa(x0, x1) => SpecVal::Vec(
                Option::Some(seq![SpecVal::U32(1), x0.model(), x1.model()]),
            ),
            PrivEnum::C => SpecVal::Vec(Option::Some(seq![SpecVal::U32(2)])),
            PrivEnum::D => SpecVal::Vec(Option::Some(seq![SpecVal::U32(3)])),
        }
    }

    open spec fn gen_spec(data: Seq<u8>, pos: int) -> (SpecVal, int) {
        let (pb, p0) = take_byte(data, pos);
        let pick = pb % 4;
        if pick == 0 {
            let (m0, q0) = <u32 as SorobanArbitrary>::gen_spec(data, p0);
            (SpecVal::Vec(Option::Some(seq![SpecVal::U32(0), m0])), q0)
        } else if pick == 1 {
            let (m0, q0) = <u32 as SorobanArbitrary>::gen_spec(data, p0);
            let (m1, q1) = <u32 as SorobanArbitrary>::gen_spec(data, q0);
            (SpecVal::Vec(Option::Some(seq![SpecVal::U32(1), m0, m1])), q1)
        } else if pick == 2 {
            (SpecVal::Vec(Option::Some(seq![SpecVal::U32(2)])), p0)
        } else {
            (SpecVal::Vec(Option::Some(seq![SpecVal::U32(3)])), p0)
        }
    }

    fn generate(u: &mut ByteOracle) -> (r: Self)
    {
        let pick = u.next_byte() % 4;
        if pick == 0 {
            let x0 = u32::generate(u);
            PrivEnum::A(x0)
        } else if pick == 1 {
            let x0 = u32::generate(u);
            let x1 = u32::generate(u);
            PrivEnum::Aa(x0, x1)
        } else if pick == 2 {
            PrivEnum::C
        } else {
            PrivEnum::D
        }
    }

    fn realize(&self, env: &mut Env) -> (r: Result<RawVal, ConversionError>) {
        match self {
            PrivEnum::A(x0) => {
                let ghost e0 = *env;
                let ghost m0: Seq<SpecVal> = Seq::empty();
                let mut fields: Vec<RawVal> = Vec::new();
                fields.push(RawVal::U32(0));
                let ghost m1 = m0.push(SpecVal::U32(0));
                push_realized(env, &mut fields, Ghost(m1), x0);
                let ghost m2 = m1.push(x0.model());
                let ghost e2 = *env;
                proof {
                    assert(m2 =~= seq![SpecVal::U32(0), x0.model()]);
                }
                seal_record(env, fields, Ghost(m2))
            },
            PrivEnum::Aa(x0, x1) => {
                let ghost e0 = *env;
                let ghost m0: Seq<SpecVal> = Seq::empty();
                let mut fields: Vec<RawVal> = Vec::new();
                fields.push(RawVal::U32(1));
                let ghost m1 = m0.push(SpecVal::U32(1));
                push_realized(env, &mut fields, Ghost(m1), x0);
                let ghost m2 = m1.push(x0.model());
                let ghost e2 = *env;
                push_realized(env, &mut fields, Ghost(m2), x1);
                let ghost m3 = m2.push(x1.model());
                proof {
                    lemma_extends_trans(e0, e2, *env);
                }
                let ghost e3 = *env;
                proof {
                    assert(m3 =~= seq![SpecVal::U32(1), x0.model(), x1.model()]);
                }
                seal_record(env, fields, Ghost(m3))
            },
            PrivEnum::C => {
                let ghost e0 = *env;
                let ghost m0: Seq<SpecVal> = Seq::empty();
                let mut fields: Vec<RawVal> = Vec::new();
                fields.push(RawVal::U32(2));
                let ghost m1 = m0.push(SpecVal::U32(2));
                proof {
                    assert(m1 =~= seq![SpecVal::U32(2)]);
                }
                seal_record(env, fields, Ghost(m1))
            },
            PrivEnum::D => {
                let ghost e0 = *env;
                let ghost m0: Seq<SpecVal> = Seq::empty();
                let mut fields: Vec<RawVal> = Vec::new();
                fields.push(RawVal::U32(3));
                let ghost m1 = m0.push(SpecVal::U32(3));
                proof {
                    assert(m1 =~= seq![SpecVal::U32(3)]);
                }
                seal_record(env, fields, Ghost(m1))
            },
        }
    }
}

/// A variant type with a one-field case and bare cases.
pub enum PubEnum {
    A(u32),
    C,
    D,
}

impl SorobanArbitrary for PubEnum {
    open spec fn wf(&self) -> bool {
        match *self {
            PubEnum::A(x0) => x0.wf(),
            PubEnum::C => true,
            PubEnum::D => true,
        }
    }

    open spec fn model(&self) -> SpecVal {
        match *self {
            PubEnum::A(x0) => SpecVal::Vec(
                Option::Some(seq![SpecVal::U32(0), x0.model()]),
            ),
            PubEnum::C => SpecVal::Vec(Option::Some(seq![SpecVal::U32(1)])),
            PubEnum::D => SpecVal::Vec(Option::Some(seq![SpecVal::U32(2)])),
        }
    }

    open spec fn gen_spec(data: Seq<u8>, pos: int) -> (SpecVal, int) {
        let (pb, p0) = take_byte(data, pos);
        let pick = pb % 3;
        if pick == 0 {
            let (m0, q0) = <u32 as SorobanArbitrary>::gen_spec(data, p0);
            (SpecVal::Vec(Option::Some(seq![SpecVal::U32(0), m0])), q0)
        } else if pick == 1 {
            (SpecVal::Vec(Option::Some(seq![SpecVal::U32(1)])), p0)
        } else {
            (SpecVal::Vec(Option::Some(seq![SpecVal::U32(2)])), p0)
        }
    }

    fn generate(u: &mut ByteOracle) -> (r: Self)
    {
        let pick = u.next_byte() % 3;
        if pick == 0 {
            let x0 = u32::generate(u);
            PubEnum::A(x0)
        } else if pick == 1 {
            PubEnum::C
        } else {
            PubEnum::D
        }
    }

    fn realize(&self, env: &mut Env) -> (r: Result<RawVal, ConversionError>) {
        match self {
            PubEnum::A(x0) => {
                let ghost e0 = *env;
                let ghost m0: Seq<SpecVal> = Seq::empty();
                let mut fields: Vec<RawVal> = Vec::new();
                fields.push(RawVal::U32(0));
                let ghost m1 = m0.push(SpecVal::U32(0));
                push_realized(env, &mut fields, Ghost(m1), x0);
                let ghost m2 = m1.push(x0.model());
                let ghost e2 = *env;
                proof {
                    assert(m2 =~= seq![SpecVal::U32(0), x0.model()]);
                }
                seal_record(env, fields, Ghost(m2))
            },
            PubEnum::C => {
                let ghost e0 = *env;
                let ghost m0: Seq<SpecVal> = Seq::empty();
                let mut fields: Vec<RawVal> = Vec::new();
                fields.push(RawVal::U32(1));
                let ghost m1 = m0.push(SpecVal::U32(1));
                proof {
                    assert(m1 =~= seq![SpecVal::U32(1)]);
                }
                seal_record(env, fields, Ghost(m1))
            },
            PubEnum::D => {
                let ghost e0 = *env;
                let ghost m0: Seq<SpecVal> = Seq::empty();
                let mut fields: Vec<RawVal> = Vec::new();
                fields.push(RawVal::U32(2));
                let ghost m1 = m0.push(SpecVal::U32(2));
                proof {
                    assert(m1 =~= seq![SpecVal::U32(2)]);
                }
                seal_record(env, fields, Ghost(m1))
            },
        }
    }
}

/// A variant type with a one-field case and bare cases.
pub enum PubCrateEnum {
    A(u32),
    C,
    D,
}

impl SorobanArbitrary for PubCrateEnum {
    open spec fn wf(&self) -> bool {
        match *self {
            PubCrateEnum::A(x0) => x0.wf(),
            PubCrateEnum::C => true,
            PubCrateEnum::D => true,
        }
    }

    open spec fn model(&self) -> SpecVal {
        match *self {
            PubCrateEnum::A(x0) => SpecVal::Vec(
                Option::Some(seq![SpecVal::U32(0), x0.model()]),
            ),
            PubCrateEnum::C => SpecVal::Vec(Option::Some(seq![SpecVal::U32(1)])),
            PubCrateEnum::D => SpecVal::Vec(Option::Some(seq![SpecVal::U32(2)])),
        }
    }

    open spec fn gen_spec(data: Seq<u8>, pos: int) -> (SpecVal, int) {
        let (pb, p0) = take_byte(data, pos);
        let pick = pb % 3;
        if pick == 0 {
            let (m0, q0) = <u32 as SorobanArbitrary>::gen_spec(data, p0);
            (SpecVal::Vec(Option::Some(seq![SpecVal::U32(0), m0])), q0)
        } else if pick == 1 {
            (SpecVal::Vec(Option::Some(seq![SpecVal::U32(1)])), p0)
        } else {
            (SpecVal::Vec(Option::Some(seq![SpecVal::U32(2)])), p0)
        }
    }

    fn generate(u: &mut ByteOracle) -> (r: Self)
    {
        let pick = u.next_byte() % 3;
        if pick == 0 {
            let x0 = u32::generate(u);
            PubCrateEnum::A(x0)
        } else if pick == 1 {
            PubCrateEnum::C
        } else {
            PubCrateEnum::D
        }
    }

    fn realize(&self, env: &mut Env) -> (r: Result<RawVal, ConversionError>) {
        match self {
            PubCrateEnum::A(x0) => {
                let ghost e0 = *env;
                let ghost m0: Seq<SpecVal> = Seq::empty();
                let mut fields: Vec<RawVal> = Vec::new();
                fields.push(RawVal::U32(0));
                let ghost m1 = m0.push(SpecVal::U32(0));
                push_realized(env, &mut fields, Ghost(m1), x0);
                let ghost m2 = m1.push(x0.model());
                let ghost e2 = *env;
                proof {
                    assert(m2 =~= seq![SpecVal::U32(0), x0.model()]);
                }
                seal_record(env, fields, Ghost(m2))
            },
            PubCrateEnum::C => {
                let ghost e0 = *env;
                let ghost m0: Seq<SpecVal> = Seq::empty();
                let mut fields: Vec<RawVal> = Vec::new();
                fields.push(RawVal::U32(1));
                let ghost m1 = m0.push(SpecVal::U32(1));
                proof {
                    assert(m1 =~= seq![SpecVal::U32(1)]);
                }
                seal_record(env, fields, Ghost(m1))
            },
            PubCrateEnum::D => {
                let ghost e0 = *env;
                let ghost m0: Seq<SpecVal> = Seq::empty();
                let mut fields: Vec<RawVal> = Vec::new();
                fields.push(RawVal::U32(2));
                let ghost m1 = m0.push(SpecVal::U32(2));
                proof {
                    assert(m1 =~= seq![SpecVal::U32(2)]);
                }
                seal_record(env, fields, Ghost(m1))
            },
        }
    }
}

/// A variant type of bare cases only.
pub enum Bar {
    Baz,
    Qux,
}

impl SorobanArbitrary for Bar {
    open spec fn wf(&self) -> bool {
        match *self {
            Bar::Baz => true,
            Bar::Qux => true,
        }
    }

    open spec fn model(&self) -> SpecVal {
        match *self {
            Bar::Baz => SpecVal::Vec(Option::Some(seq![SpecVal::U32(0)])),
            Bar::Qux => SpecVal::Vec(Option::Some(seq![SpecVal::U32(1)])),
        }
    }

    open spec fn gen_spec(data: Seq<u8>, pos: int) -> (SpecVal, int) {
        let (pb, p0) = take_byte(data, pos);
        let pick = pb % 2;
        if pick == 0 {
            (SpecVal::Vec(Option::Some(seq![SpecVal::U32(0)])), p0)
        } else {
            (SpecVal::Vec(Option::Some(seq![SpecVal::U32(1)])), p0)
        }
    }

    fn generate(u: &mut ByteOracle) -> (r: Self)
    {
        let pick = u.next_byte() % 2;
        if pick == 0 {
            Bar::Baz
        } else {
            Bar::Qux
        }
    }

    fn realize(&self, env: &mut Env) -> (r: Result<RawVal, ConversionError>) {
        match self {
            Bar::Baz => {
                let ghost e0 = *env;
                let ghost m0: Seq<SpecVal> = Seq::empty();
                let mut fields: Vec<RawVal> = Vec::new();
                fields.push(RawVal::U32(0));
                let ghost m1 = m0.push(SpecVal::U32(0));
                proof {
                    assert(m1 =~= seq![SpecVal::U32(0)]);
                }
                seal_record(env, fields, Ghost(m1))
            },
            Bar::Qux => {
                let ghost e0 = *env;
                let ghost m0: Seq<SpecVal> = Seq::empty();
                let mut fields: Vec<RawVal> = Vec::new();
                fields.push(RawVal::U32(1));
                let ghost m1 = m0.push(SpecVal::U32(1));
                proof {
                    assert(m1 =~= seq![SpecVal::U32(1)]);
                }
                seal_record(env, fields, Ghost(m1))
            },
        }
    }
}

/// An enumeration standing for fixed numbers.
pub enum PrivEnumInt {
    A,
    C,
    D,
}

impl SorobanArbitrary for PrivEnumInt {
    open spec fn wf(&self) -> bool {
        true
    }

    open spec fn model(&self) -> SpecVal {
        match *self {
            PrivEnumInt::A => SpecVal::U32(1),
            PrivEnumInt::C => SpecVal::U32(2),
            PrivEnumInt::D => SpecVal::U32(3),
        }
    }

    open spec fn gen_spec(data: Seq<u8>, pos: int) -> (SpecVal, int) {
        let (pb, p0) = take_byte(data, pos);
        let pick = pb % 3;
        if pick == 0 {
            (SpecVal::U32(1), p0)
        } else if pick == 1 {
            (SpecVal::U32(2), p0)
        } else {
            (SpecVal::U32(3), p0)
        }
    }

    fn generate(u: &mut ByteOracle) -> (r: Self)
    {
        let pick = u.next_byte() % 3;
        if pick == 0 {
            PrivEnumInt::A
        } else if pick == 1 {
            PrivEnumInt::C
        } else {
            PrivEnumInt::D
        }
    }

    fn realize(&self, env: &mut Env) -> (r: Result<RawVal, ConversionError>) {
        match self {
            PrivEnumInt::A => Result::Ok(RawVal::U32(1)),
            PrivEnumInt::C => Result::Ok(RawVal::U32(2)),
            PrivEnumInt::D => Result::Ok(RawVal::U32(3)),
        }
    }
}

/// An enumeration standing for fixed numbers.
pub enum PubEnumInt {
    A,
    C,
    D,
}

impl SorobanArbitrary for PubEnumInt {
    open spec fn wf(&self) -> bool {
        true
    }

    open spec fn model(&self) -> SpecVal {
        match *self {
            PubEnumInt::A => SpecVal::U32(1),
            PubEnumInt::C => SpecVal::U32(2),
            PubEnumInt::D => SpecVal::U32(3),
        }
    }

    open spec fn gen_spec(data: Seq<u8>, pos: int) -> (SpecVal, int) {
        let (pb, p0) = take_byte(data, pos);
        let pick = pb % 3;
        if pick == 0 {
            (SpecVal::U32(1), p0)
        } else if pick == 1 {
            (SpecVal::U32(2), p0)
        } else {
            (SpecVal::U32(3), p0)
        }
    }

    fn generate(u: &mut ByteOracle) -> (r: Self)
    {
        let pick = u.next_byte() % 3;
        if pick == 0 {
            PubEnumInt::A
        } else if pick == 1 {
            PubEnumInt::C
        } else {
            PubEnumInt::D
        }
    }

    fn realize(&self, env: &mut Env) -> (r: Result<RawVal, ConversionError>) {
        match self {
            PubEnumInt::A => Result::Ok(RawVal::U32(1)),
            PubEnumInt::C => Result::Ok(RawVal::U32(2)),
            PubEnumInt::D => Result::Ok(RawVal::U32(3)),
        }
    }
}

} // verus!
