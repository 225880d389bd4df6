//! Generation tests: every kind's prototype, and user-defined record and
//! variant types, can be drawn from random bytes and realized in a fresh
//! environment.

use rand::RngCore;
use soroban_vals::{
    ArbitraryAddress, ArbitraryBytes, ArbitraryBytesN, ArbitraryDuration, ArbitraryMap,
    ArbitraryRawVal, ArbitraryString, ArbitrarySymbol, ArbitraryTimepoint, ArbitraryU256,
    ArbitraryI256, ArbitraryVec, Bar, ByteOracle, Env, Foo, PrivEnum, PrivEnumInt, PrivStruct,
    PrivStructPubFields, PrivTupleStruct, PrivTupleStructPubFields, PubCrateEnum, PubCrateStruct,
    PubEnum, PubEnumInt, PubStruct, PubStructPubFields, PubTupleStruct, PubTupleStructPubFields,
    SorobanArbitrary,
};

fn run_test<T: SorobanArbitrary>() {
    let mut rng = rand::thread_rng();
    let mut rng_data = [0u8; 64];

    for i in 0..100u64 {
        rng.fill_bytes(&mut rng_data);
        let mut unstructured = ByteOracle::new(rng_data.to_vec());
        let input = T::generate(&mut unstructured);
        let mut env = Env::new(i);
        let val = input.realize(&mut env).expect("realize");
        assert!(env.check_val(&val));
    }
}

#[test]
fn test_u32() {
    run_test::<u32>()
}

#[test]
fn test_i32() {
    run_test::<i32>()
}

#[test]
fn test_u64() {
    run_test::<u64>()
}

#[test]
fn test_i64() {
    run_test::<i64>()
}

#[test]
fn test_u128() {
    run_test::<u128>()
}

#[test]
fn test_i128() {
    run_test::<i128>()
}

#[test]
fn test_timepoint() {
    run_test::<ArbitraryTimepoint>()
}

#[test]
fn test_duration() {
    run_test::<ArbitraryDuration>()
}

#[test]
fn test_u256() {
    run_test::<ArbitraryU256>()
}

#[test]
fn test_i256() {
    run_test::<ArbitraryI256>()
}

#[test]
fn test_bytes() {
    run_test::<ArbitraryBytes>()
}

#[test]
fn test_string() {
    run_test::<ArbitraryString>()
}

#[test]
fn test_symbol() {
    run_test::<ArbitrarySymbol>()
}

#[test]
fn test_bytes_n() {
    run_test::<ArbitraryBytesN<64>>()
}

#[test]
fn test_vec_u32() {
    run_test::<ArbitraryVec<u32>>()
}

#[test]
fn test_vec_i32() {
    run_test::<ArbitraryVec<i32>>()
}

#[test]
fn test_vec_bytes() {
    run_test::<ArbitraryVec<ArbitraryBytes>>()
}

#[test]
fn test_vec_bytes_n() {
    run_test::<ArbitraryVec<ArbitraryBytesN<32>>>()
}

#[test]
fn test_vec_vec_bytes() {
    run_test::<ArbitraryVec<ArbitraryVec<ArbitraryBytes>>>()
}

#[test]
fn test_map_u32() {
    run_test::<ArbitraryMap<u32, ArbitraryVec<u32>>>()
}

#[test]
fn test_map_i32() {
    run_test::<ArbitraryMap<i32, ArbitraryVec<i32>>>()
}

#[test]
fn test_map_bytes() {
    run_test::<ArbitraryMap<ArbitraryBytes, ArbitraryBytes>>()
}

#[test]
fn test_map_bytes_n() {
    run_test::<ArbitraryMap<ArbitraryBytesN<32>, ArbitraryBytes>>()
}

#[test]
fn test_map_vec() {
    run_test::<ArbitraryMap<ArbitraryVec<ArbitraryBytes>, ArbitraryVec<ArbitraryBytes>>>()
}

#[test]
fn test_raw_val() {
    run_test::<ArbitraryRawVal>()
}

#[test]
fn test_address() {
    run_test::<ArbitraryAddress>()
}

#[test]
fn test_user_defined_priv_struct() {
    run_test::<PrivStruct>();
}

#[test]
fn test_user_defined_priv_struct_pub_fields() {
    run_test::<PrivStructPubFields>();
}

#[test]
fn test_user_defined_pub_struct() {
    run_test::<PubStruct>();
}

#[test]
fn test_user_defined_pubstruct_pub_fields() {
    run_test::<PubStructPubFields>();
}

#[test]
fn test_user_defined_priv_tuple_struct() {
    run_test::<PrivTupleStruct>();
}

#[test]
fn test_user_defined_priv_tuple_struct_pub_fields() {
    run_test::<PrivTupleStructPubFields>();
}

#[test]
fn test_user_defined_pub_tuple_struct() {
    run_test::<PubTupleStruct>();
}

#[test]
fn test_user_defined_pub_tuple_struct_pub_fields() {
    run_test::<PubTupleStructPubFields>();
}

#[test]
fn test_user_defined_pub_crate_struct() {
    run_test::<PubCrateStruct>();
}

#[test]
fn test_user_defined_priv_enum() {
    run_test::<PrivEnum>();
}

#[test]
fn test_user_defined_pub_enum() {
    run_test::<PubEnum>();
}

#[test]
fn test_user_defined_pub_crate_enum() {
    run_test::<PubCrateEnum>();
}

#[test]
fn test_user_defined_priv_enum_int() {
    run_test::<PrivEnumInt>();
}

#[test]
fn test_user_defined_pub_enum_int() {
    run_test::<PubEnumInt>();
}

#[test]
fn test_declared_inside_a_fn() {
    run_test::<Foo>();
    run_test::<Bar>();
}

#[test]
fn generation_is_seed_driven_and_restartable() {
    let mut rng = rand::thread_rng();
    let mut data = [0u8; 128];
    for i in 0..50u64 {
        rng.fill_bytes(&mut data);
        // Two oracles over identical bytes draw identical symbols and
        // leave their positions in step.
        let mut u1 = ByteOracle::new(data.to_vec());
        let mut u2 = ByteOracle::new(data.to_vec());
        let s1 = ArbitrarySymbol::generate(&mut u1);
        let s2 = ArbitrarySymbol::generate(&mut u2);
        assert_eq!(s1.s, s2.s);
        assert_eq!(u1.pos, u2.pos);
        // The same holds for whole composite values: realized in fresh
        // environments, the two runs denote the same external value.
        let mut u1 = ByteOracle::new(data.to_vec());
        let mut u2 = ByteOracle::new(data.to_vec());
        let p1 = ArbitraryRawVal::generate(&mut u1);
        let p2 = ArbitraryRawVal::generate(&mut u2);
        assert_eq!(u1.pos, u2.pos);
        let mut env1 = Env::new(2 * i);
        let mut env2 = Env::new(2 * i + 1);
        let v1 = p1.realize(&mut env1).expect("realize");
        let v2 = p2.realize(&mut env2).expect("realize");
        match (soroban_vals::to_scval(&env1, &v1), soroban_vals::to_scval(&env2, &v2)) {
            (Ok(e1), Ok(e2)) => assert_eq!(e1, e2),
            (Err(e1), Err(e2)) => assert_eq!(e1, e2),
            _ => panic!("the two runs diverged"),
        }
    }
}
