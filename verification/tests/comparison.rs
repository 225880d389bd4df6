//! Comparison tests: the tagged comparator, the external comparator and
//! the metered comparator agree, on hand-built values and on generated
//! ones.

use core::cmp::Ordering;
use rand::RngCore;
use soroban_vals::{
    sc_cmp, to_scval, ArbitraryRawVal, Budget, ByteOracle, Env, HostObject, RawVal, ScVal,
    SorobanArbitrary, UInt256Parts,
};

fn vec_of_u32(env: &mut Env, items: &[u32]) -> RawVal {
    let mut elems: Vec<RawVal> = Vec::new();
    for x in items {
        elems.push(RawVal::U32(*x));
    }
    let h = env.allocate(HostObject::Vec(elems)).expect("allocate");
    RawVal::Vec(h)
}

#[test]
fn vec_unequal_lengths() {
    let env = &mut Env::new(1);
    let mut budget = Budget::new();

    let v1_rawval = vec_of_u32(env, &[0]);
    let v2_rawval = vec_of_u32(env, &[0, 1]);

    let v1_scval = to_scval(env, &v1_rawval).unwrap();
    let v2_scval = to_scval(env, &v2_rawval).unwrap();

    let cmp_env = env.compare(&v1_rawval, &v2_rawval).unwrap();
    let cmp_budget = budget.compare(&v1_scval, &v2_scval).unwrap();

    assert_eq!(cmp_env, cmp_budget);
}

#[test]
fn vec_prefix_orders_below() {
    let env = &mut Env::new(1);

    let v1 = vec_of_u32(env, &[0]);
    let v2 = vec_of_u32(env, &[0, 1]);

    assert_eq!(env.compare(&v1, &v2).unwrap(), Ordering::Less);

    let e1 = to_scval(env, &v1).unwrap();
    let e2 = to_scval(env, &v2).unwrap();
    assert_eq!(Ord::cmp(&e1, &e2), Ordering::Less);
    assert_eq!(sc_cmp(&e1, &e2), Ordering::Less);
}

#[test]
fn scalar_kinds_order_by_rank() {
    let env = &Env::new(1);
    assert_eq!(env.compare(&RawVal::Void, &RawVal::Bool(false)).unwrap(), Ordering::Less);
    assert_eq!(
        env.compare(&RawVal::Bool(true), &RawVal::Error(0)).unwrap(),
        Ordering::Less
    );
    assert_eq!(env.compare(&RawVal::U32(9), &RawVal::I32(-1)).unwrap(), Ordering::Less);
    assert_eq!(env.compare(&RawVal::U64(5), &RawVal::U64(5)).unwrap(), Ordering::Equal);
    assert_eq!(env.compare(&RawVal::I64(7), &RawVal::I64(-7)).unwrap(), Ordering::Greater);
}

#[test]
fn u256_orders_numerically() {
    let env = &mut Env::new(1);
    let small = env
        .allocate(HostObject::U256(1, 0, 0, 0))
        .map(RawVal::U256)
        .unwrap();
    let big = env
        .allocate(HostObject::U256(2, 0, 0, 0))
        .map(RawVal::U256)
        .unwrap();
    assert_eq!(env.compare(&small, &big).unwrap(), Ordering::Less);

    let a = ScVal::U256(UInt256Parts { hi_hi: 1, hi_lo: 0, lo_hi: 0, lo_lo: 0 });
    let b = ScVal::U256(UInt256Parts { hi_hi: 0, hi_lo: u64::MAX, lo_hi: u64::MAX, lo_lo: u64::MAX });
    assert_eq!(sc_cmp(&a, &b), Ordering::Greater);
    assert_eq!(Ord::cmp(&a, &b), Ordering::Greater);
}

#[test]
fn external_partial_cmp_always_decides() {
    let vals = [
        ScVal::Void,
        ScVal::Bool(true),
        ScVal::Error(3),
        ScVal::U32(7),
        ScVal::I32(-7),
        ScVal::Bytes(vec![1, 2, 3]),
        ScVal::Vec(None),
        ScVal::Vec(Some(vec![ScVal::U32(1)])),
        ScVal::MapVal(None),
        ScVal::MapVal(Some(vec![(ScVal::U32(1), ScVal::Bool(false))])),
    ];
    for a in &vals {
        for b in &vals {
            let partial = a.partial_cmp(b);
            assert_eq!(partial, Some(sc_cmp(a, b)));
            assert_eq!(partial, Some(Ord::cmp(a, b)));
        }
    }
}

#[test]
fn equality_matches_comparator() {
    let a = ScVal::Vec(Some(vec![ScVal::U32(1), ScVal::Bool(true)]));
    let b = ScVal::Vec(Some(vec![ScVal::U32(1), ScVal::Bool(true)]));
    let c = ScVal::Vec(Some(vec![ScVal::U32(1)]));
    assert_eq!(sc_cmp(&a, &b), Ordering::Equal);
    assert!(a == b);
    assert!(sc_cmp(&a, &c) != Ordering::Equal);
    assert!(a != c);
}

#[test]
fn budget_counts_and_agrees() {
    let mut budget = Budget::new();
    assert_eq!(budget.steps, 0);
    let a = ScVal::U32(1);
    let b = ScVal::U32(2);
    assert_eq!(budget.compare(&a, &b).unwrap(), Ordering::Less);
    assert!(budget.steps >= 1);
    assert_eq!(budget.compare(&b, &a).unwrap(), Ordering::Greater);
    assert_eq!(budget.compare(&a, &a).unwrap(), Ordering::Equal);
}

#[test]
fn generated_values_compare_the_same_everywhere() {
    let mut rng = rand::thread_rng();
    let mut data = [0u8; 256];
    let mut budget = Budget::new();
    for i in 0..200u64 {
        rng.fill_bytes(&mut data);
        let mut u = ByteOracle::new(data.to_vec());
        let p1 = ArbitraryRawVal::generate(&mut u);
        let p2 = ArbitraryRawVal::generate(&mut u);
        let mut env = Env::new(i);
        let v1 = p1.realize(&mut env).expect("realize");
        let v2 = p2.realize(&mut env).expect("realize");
        if !soroban_vals::screen_admits(&env, &v1) || !soroban_vals::screen_admits(&env, &v2) {
            continue;
        }
        let (tagged, external) = soroban_vals::compare_agreement(&env, &v1, &v2).expect("agree");
        assert_eq!(tagged, external);

        let e1 = to_scval(&env, &v1).unwrap();
        let e2 = to_scval(&env, &v2).unwrap();
        assert_eq!(Ord::cmp(&e1, &e2), external);
        assert_eq!(e1.partial_cmp(&e2), Some(external));
        assert_eq!((tagged == Ordering::Equal), (e1 == e2));
        let (metered, plain) = soroban_vals::budget_agreement(&mut budget, &e1, &e2);
        assert_eq!(metered, plain);
        assert_eq!(plain, external);
    }
}

#[test]
fn foreign_handles_are_refused() {
    let mut env_a = Env::new(1);
    let env_b = Env::new(2);
    let h = env_a.allocate(HostObject::Bytes(vec![1, 2])).unwrap();
    let v = RawVal::Bytes(h);
    assert!(env_a.compare(&v, &v).is_ok());
    assert!(env_b.compare(&v, &v).is_err());
    assert!(env_b.resolve(h).is_err());
    assert!(env_a.resolve(h).is_ok());
}
