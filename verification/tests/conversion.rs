//! Conversion tests: round trips in both directions, and every way the
//! inward conversion refuses a shape the tagged representation cannot
//! hold.

use core::cmp::Ordering;
use rand::RngCore;
use soroban_vals::{
    from_scval, scval_conversion_might_fail, to_scval, ArbitraryRawVal, ByteOracle,
    ConversionError, Env, Handle, HostObject, RawVal, ScVal, SorobanArbitrary, Tag,
};

#[test]
fn tagged_round_trip_is_comparator_equal() {
    let mut rng = rand::thread_rng();
    let mut data = [0u8; 256];
    for i in 0..200u64 {
        rng.fill_bytes(&mut data);
        let mut u = ByteOracle::new(data.to_vec());
        let p = ArbitraryRawVal::generate(&mut u);
        let mut env = Env::new(i);
        let v = p.realize(&mut env).expect("realize");
        match to_scval(&env, &v) {
            Ok(e) => {
                let v2 = from_scval(&mut env, &e).expect("round trip back");
                assert_eq!(env.compare(&v, &v2).unwrap(), Ordering::Equal);
                let c = soroban_vals::round_trip_tagged(&mut env, &v).expect("trip");
                assert_eq!(c, Ordering::Equal);
            },
            Err(e) => {
                assert_eq!(e, ConversionError::NotSerializable);
                assert!(scval_conversion_might_fail(&env, &v));
            },
        }
    }
}

#[test]
fn external_round_trip_reproduces_the_value() {
    let samples = vec![
        ScVal::Void,
        ScVal::Bool(false),
        ScVal::Error(77),
        ScVal::U32(4),
        ScVal::I32(-4),
        ScVal::U64(8),
        ScVal::I64(-8),
        ScVal::Timepoint(99),
        ScVal::Duration(100),
        ScVal::U128(1u128 << 100),
        ScVal::I128(-(1i128 << 100)),
        ScVal::Bytes(vec![0, 255]),
        ScVal::String(vec![104, 105]),
        ScVal::Symbol(vec![97, 95, 57]),
        ScVal::Address(vec![7u8; 32]),
        ScVal::Vec(Some(vec![ScVal::U32(1), ScVal::Vec(Some(vec![]))])),
        ScVal::MapVal(Some(vec![
            (ScVal::U32(1), ScVal::Bool(true)),
            (ScVal::U32(2), ScVal::Bool(false)),
        ])),
    ];
    for e in samples {
        let mut env = Env::new(3);
        let v = from_scval(&mut env, &e).expect("inward");
        let e2 = to_scval(&env, &v).expect("outward");
        assert_eq!(e2, e);
        let e3 = soroban_vals::round_trip_external(&mut env, &e).expect("trip");
        assert_eq!(e3, e);
    }
}

#[test]
fn absent_map_is_an_invalid_shape() {
    let mut env = Env::new(1);
    assert_eq!(
        from_scval(&mut env, &ScVal::MapVal(None)),
        Err(ConversionError::InvalidShape)
    );
}

#[test]
fn absent_vec_is_an_invalid_shape() {
    let mut env = Env::new(1);
    assert_eq!(
        from_scval(&mut env, &ScVal::Vec(None)),
        Err(ConversionError::InvalidShape)
    );
}

#[test]
fn symbol_outside_the_alphabet_is_refused() {
    let mut env = Env::new(1);
    // A dash is not a symbol byte.
    assert_eq!(
        from_scval(&mut env, &ScVal::Symbol(vec![97, 45, 98])),
        Err(ConversionError::InvalidShape)
    );
    // A symbol longer than its bound is refused too.
    assert_eq!(
        from_scval(&mut env, &ScVal::Symbol(vec![97u8; 33])),
        Err(ConversionError::InvalidShape)
    );
    // The same bytes within the alphabet and bound pass.
    assert!(from_scval(&mut env, &ScVal::Symbol(vec![97u8; 32])).is_ok());
    // Nested occurrences are found as well.
    assert_eq!(
        from_scval(
            &mut env,
            &ScVal::Vec(Some(vec![ScVal::Symbol(vec![45])]))
        ),
        Err(ConversionError::InvalidShape)
    );
}

#[test]
fn duplicate_map_keys_are_refused() {
    let mut env = Env::new(1);
    let dup = ScVal::MapVal(Some(vec![
        (ScVal::U32(1), ScVal::Bool(true)),
        (ScVal::U32(1), ScVal::Bool(false)),
    ]));
    assert_eq!(from_scval(&mut env, &dup), Err(ConversionError::InvalidShape));
}

#[test]
fn unsorted_map_keys_are_refused() {
    let mut env = Env::new(1);
    let unsorted = ScVal::MapVal(Some(vec![
        (ScVal::U32(2), ScVal::Bool(true)),
        (ScVal::U32(1), ScVal::Bool(false)),
    ]));
    assert_eq!(from_scval(&mut env, &unsorted), Err(ConversionError::InvalidShape));
}

#[test]
fn wrong_address_length_is_refused() {
    let mut env = Env::new(1);
    assert_eq!(
        from_scval(&mut env, &ScVal::Address(vec![1u8; 31])),
        Err(ConversionError::InvalidShape)
    );
    assert!(from_scval(&mut env, &ScVal::Address(vec![1u8; 32])).is_ok());
}

#[test]
fn oversized_error_codes_do_not_serialize() {
    let mut env = Env::new(1);
    // Outward: a tagged error above the reserved code space has no
    // external form.
    assert_eq!(
        to_scval(&env, &RawVal::Error(70000)),
        Err(ConversionError::NotSerializable)
    );
    assert!(to_scval(&env, &RawVal::Error(70)).is_ok());
    // Inward: an external error above the reserved code space overflows.
    assert_eq!(
        from_scval(&mut env, &ScVal::Error(70000)),
        Err(ConversionError::Overflow)
    );
    assert_eq!(from_scval(&mut env, &ScVal::Error(70)), Ok(RawVal::Error(70)));
    // The failure is found anywhere in a container's closure.
    let h = env
        .allocate(HostObject::Vec(vec![RawVal::Error(70000)]))
        .unwrap();
    assert_eq!(
        to_scval(&env, &RawVal::Vec(h)),
        Err(ConversionError::NotSerializable)
    );
}

#[test]
fn error_screen_is_conservative() {
    let mut env = Env::new(1);
    assert!(scval_conversion_might_fail(&env, &RawVal::Error(1)));
    assert!(!scval_conversion_might_fail(&env, &RawVal::U32(1)));
    let h = env
        .allocate(HostObject::Vec(vec![RawVal::U32(1), RawVal::Error(1)]))
        .unwrap();
    assert!(scval_conversion_might_fail(&env, &RawVal::Vec(h)));
    let h2 = env.allocate(HostObject::Vec(vec![RawVal::U32(1)])).unwrap();
    assert!(!scval_conversion_might_fail(&env, &RawVal::Vec(h2)));
}

#[test]
fn dangling_handles_do_not_convert() {
    let env = Env::new(1);
    let bogus = RawVal::Bytes(Handle { idx: 5, owner: 1 });
    assert_eq!(
        to_scval(&env, &bogus),
        Err(ConversionError::UnresolvableHandle)
    );
}

#[test]
fn tags_expose_payload_shapes() {
    assert_eq!(Tag::from_code(3), Tag::U32);
    assert_eq!(Tag::from_code(200), Tag::Bad);
    assert!(Tag::from_code(0).is_inline());
    assert!(Tag::from_code(16).is_object());

    assert_eq!(RawVal::from_tag_inline(Tag::U32, 7), Ok(RawVal::U32(7)));
    assert_eq!(
        RawVal::from_tag_inline(Tag::U32, u64::MAX),
        Err(ConversionError::Overflow)
    );
    assert_eq!(
        RawVal::from_tag_inline(Tag::Bytes, 0),
        Err(ConversionError::InvalidTag)
    );
    assert_eq!(
        RawVal::from_tag_inline(Tag::Bad, 0),
        Err(ConversionError::InvalidTag)
    );
    let h = Handle { idx: 0, owner: 1 };
    assert_eq!(RawVal::from_tag_obj(Tag::Bytes, h), Ok(RawVal::Bytes(h)));
    assert_eq!(
        RawVal::from_tag_obj(Tag::U32, h),
        Err(ConversionError::InvalidTag)
    );
    assert_eq!(RawVal::U32(7).tag(), Tag::U32);
    assert_eq!(RawVal::U32(7).inline_payload(), Ok(7));
    assert_eq!(RawVal::Bytes(h).obj_handle(), Ok(h));
    assert_eq!(
        RawVal::Bytes(h).inline_payload(),
        Err(ConversionError::InvalidTag)
    );
}

#[test]
fn map_entries_keep_last_value_per_key() {
    let mut env = Env::new(1);
    let proto: soroban_vals::ArbitraryMap<u32, u32> =
        soroban_vals::ArbitraryMap { map: vec![(1, 10), (1, 20), (2, 5)] };
    let v = proto.realize(&mut env).unwrap();
    let back = to_scval(&env, &v).unwrap();
    let expected = ScVal::MapVal(Some(vec![
        (ScVal::U32(1), ScVal::U32(20)),
        (ScVal::U32(2), ScVal::U32(5)),
    ]));
    assert_eq!(back, expected);
}

#[test]
fn shape_errors_take_precedence() {
    let mut env = Env::new(1);
    // A map that is both ill-shaped (duplicate keys) and unserializable
    // (an oversized error code): the shape judgment wins.
    let both = ScVal::MapVal(Some(vec![
        (ScVal::U32(1), ScVal::Error(70000)),
        (ScVal::U32(1), ScVal::Bool(false)),
    ]));
    assert_eq!(from_scval(&mut env, &both), Err(ConversionError::InvalidShape));
    // A vector whose first element overflows and whose second element is
    // ill-shaped still reports the shape failure.
    let v = ScVal::Vec(Some(vec![ScVal::Error(70000), ScVal::Symbol(vec![45])]));
    assert_eq!(from_scval(&mut env, &v), Err(ConversionError::InvalidShape));
}
