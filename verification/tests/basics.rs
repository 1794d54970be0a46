use std::convert::TryFrom;

use represent::generics::blob::{is_zero, size_and_len};
use represent::generics::collections::repeat_size_and_len;
use represent::generics::condition::fixed;
use represent::generics::length::{LenConst, MaxClamp, MaxSkip, Verify};
use represent::generics::slots::Slots;
use represent::shape::{alt_bounds, distinct_types, field_keys, AltError, IdentCounter, StructAlt};
use represent::{sizes_fit, sum_sizes, RepresentKey, TypeSize};

// ------------------------------------------------------------------ slots

#[test]
fn fresh_register_is_empty() {
    let slots = Slots::default();
    for slot in 0..16 {
        assert_eq!(slots.load(slot), None);
    }
}

#[test]
fn stored_value_is_loaded() {
    let mut slots = Slots::default();
    assert_eq!(slots.store(3, 42), Ok(()));
    assert_eq!(slots.load(3), Some(42));
    assert_eq!(slots.load(2), None);
    assert_eq!(slots.load(4), None);
    assert_eq!(slots.store(15, u32::MAX), Ok(()));
    assert_eq!(slots.load(15), Some(u32::MAX));
    assert_eq!(slots.store(0, 0), Ok(()));
    assert_eq!(slots.load(0), Some(0));
}

#[test]
fn same_value_is_stored_twice() {
    let mut slots = Slots::default();
    assert_eq!(slots.store(7, 5), Ok(()));
    assert_eq!(slots.store(7, 5), Ok(()));
    assert_eq!(slots.load(7), Some(5));
}

#[test]
fn other_value_is_a_conflict() {
    let mut slots = Slots::default();
    assert_eq!(slots.store(7, 5), Ok(()));
    assert_eq!(slots.store(7, 6), Err(5));
    assert_eq!(slots.load(7), Some(5));
    assert_eq!(slots.store(7, 0), Err(5));
    assert_eq!(slots.store(8, 6), Ok(()));
}

#[test]
fn slot_beyond_the_register_holds_nothing() {
    let mut slots = Slots::default();
    slots.store(15, 1).unwrap();
    assert_eq!(slots.load(16), None);
    assert_eq!(slots.load(usize::MAX), None);
}

// ------------------------------------------------------------------ sizes

#[test]
fn sum_of_constants_is_their_total() {
    assert_eq!(sum_sizes([]), TypeSize::Const(0));
    assert_eq!(sum_sizes([TypeSize::Const(4)]), TypeSize::Const(4));
    assert_eq!(
        sum_sizes([TypeSize::Const(1), TypeSize::Const(2), TypeSize::Const(4)]),
        TypeSize::Const(7)
    );
    assert_eq!(
        sum_sizes([TypeSize::Const(usize::MAX), TypeSize::Const(0)]),
        TypeSize::Const(usize::MAX)
    );
}

#[test]
fn sum_with_a_fixed_part_is_fixed() {
    assert_eq!(sum_sizes([TypeSize::Fixed]), TypeSize::Fixed);
    assert_eq!(
        sum_sizes([TypeSize::Const(1), TypeSize::Fixed, TypeSize::Const(4)]),
        TypeSize::Fixed
    );
    assert_eq!(
        sum_sizes([TypeSize::Fixed, TypeSize::Fixed]),
        TypeSize::Fixed
    );
}

#[test]
fn sum_with_a_dynamic_part_is_dynamic() {
    assert_eq!(sum_sizes([TypeSize::Dynamic]), TypeSize::Dynamic);
    assert_eq!(
        sum_sizes([TypeSize::Const(1), TypeSize::Dynamic]),
        TypeSize::Dynamic
    );
    assert_eq!(
        sum_sizes([TypeSize::Fixed, TypeSize::Dynamic, TypeSize::Const(3)]),
        TypeSize::Dynamic
    );
    assert_eq!(
        sum_sizes([TypeSize::Dynamic, TypeSize::Fixed]),
        TypeSize::Dynamic
    );
    assert_eq!(
        sum_sizes([
            TypeSize::Const(usize::MAX),
            TypeSize::Const(usize::MAX),
            TypeSize::Dynamic
        ]),
        TypeSize::Dynamic
    );
}

#[test]
fn constant_is_expected_of_a_constant() {
    assert_eq!(TypeSize::Const(12).expect_const(), 12);
    assert_eq!(TypeSize::Const(0).expect_const(), 0);
    assert!(TypeSize::Const(1).is_const_or_fixed());
    assert!(TypeSize::Fixed.is_const_or_fixed());
    assert!(!TypeSize::Dynamic.is_const_or_fixed());
}

#[test]
fn run_is_classified_by_its_number_of_elements() {
    assert_eq!(
        size_and_len(4, TypeSize::Const(3), TypeSize::Const(2)),
        TypeSize::Const(14)
    );
    assert_eq!(
        size_and_len(4, TypeSize::Const(0), TypeSize::Const(2)),
        TypeSize::Const(2)
    );
    assert_eq!(
        size_and_len(4, TypeSize::Fixed, TypeSize::Const(2)),
        TypeSize::Fixed
    );
    assert_eq!(
        size_and_len(4, TypeSize::Dynamic, TypeSize::Const(2)),
        TypeSize::Dynamic
    );
}

#[test]
fn collection_is_classified_by_element_and_number() {
    let header = TypeSize::Const(2);
    assert_eq!(
        repeat_size_and_len(TypeSize::Const(4), TypeSize::Const(3), header),
        TypeSize::Const(14)
    );
    assert_eq!(
        repeat_size_and_len(TypeSize::Dynamic, TypeSize::Const(3), header),
        TypeSize::Dynamic
    );
    assert_eq!(
        repeat_size_and_len(TypeSize::Const(4), TypeSize::Dynamic, header),
        TypeSize::Dynamic
    );
    assert_eq!(
        repeat_size_and_len(TypeSize::Fixed, TypeSize::Dynamic, header),
        TypeSize::Dynamic
    );
    assert_eq!(
        repeat_size_and_len(TypeSize::Fixed, TypeSize::Const(3), header),
        TypeSize::Fixed
    );
    assert_eq!(
        repeat_size_and_len(TypeSize::Const(4), TypeSize::Fixed, header),
        TypeSize::Fixed
    );
    assert_eq!(
        repeat_size_and_len(TypeSize::Fixed, TypeSize::Fixed, header),
        TypeSize::Fixed
    );
}

#[test]
fn conditional_class_follows_the_condition() {
    assert_eq!(fixed(true), TypeSize::Fixed);
    assert_eq!(fixed(false), TypeSize::Dynamic);
}

#[test]
fn zero_is_told() {
    assert!(is_zero(&0));
    assert!(!is_zero(&1));
    assert!(!is_zero(&usize::MAX));
}

// --------------------------------------------------------------- policies

#[test]
fn policies_do_what_they_say() {
    assert_eq!(<() as Verify<usize>>::verify(77), 77);
    assert_eq!(<MaxClamp<10> as Verify<usize>>::verify(9), 9);
    assert_eq!(<MaxClamp<10> as Verify<usize>>::verify(10), 10);
    assert_eq!(<MaxClamp<10> as Verify<usize>>::verify(11), 10);
    assert_eq!(<MaxClamp<10> as Verify<usize>>::verify(usize::MAX), 10);
    assert_eq!(<MaxSkip<10> as Verify<usize>>::verify(9), 9);
    assert_eq!(<MaxSkip<10> as Verify<usize>>::verify(10), 10);
    assert_eq!(<MaxSkip<10> as Verify<usize>>::verify(11), 0);
    assert_eq!(<MaxSkip<10> as Verify<usize>>::verify(usize::MAX), 0);
}

#[test]
fn policies_pass_what_they_have_passed() {
    for val in [0usize, 1, 9, 10, 11, 1000, usize::MAX] {
        let once = <MaxClamp<10> as Verify<usize>>::verify(val);
        assert_eq!(<MaxClamp<10> as Verify<usize>>::verify(once), once);
        let once = <MaxSkip<10> as Verify<usize>>::verify(val);
        assert_eq!(<MaxSkip<10> as Verify<usize>>::verify(once), once);
    }
}

#[test]
fn constant_length_of_zero_takes_the_empty_collection() {
    assert!(LenConst::<0>::try_from(0).is_ok());
    assert!(LenConst::<0>::try_from(1).is_err());
}

// ------------------------------------------------------------------- keys

#[test]
fn keys_are_made_of_positions_and_names() {
    assert!(matches!(RepresentKey::from(3usize), RepresentKey::Usize(3)));
    assert!(matches!(RepresentKey::from(-3i128), RepresentKey::Int(-3)));
    assert!(matches!(
        RepresentKey::from("name"),
        RepresentKey::Static("name")
    ));
    match RepresentKey::from(String::from("other")) {
        RepresentKey::Owned(name) => assert_eq!(name, "other"),
        _ => panic!("a string makes an owned key"),
    }
}

#[test]
fn counter_hands_out_names_and_positions() {
    let mut counter = IdentCounter::default();
    assert!(matches!(counter.next_key(&None), RepresentKey::Usize(0)));
    match counter.next_key(&Some(String::from("named"))) {
        RepresentKey::Owned(name) => assert_eq!(name, "named"),
        _ => panic!("a named field is known by its name"),
    }
    assert!(matches!(counter.next_key(&None), RepresentKey::Usize(1)));
    assert!(matches!(counter.next_key(&None), RepresentKey::Usize(2)));
}

#[test]
fn fields_get_their_keys_in_order() {
    let keys = field_keys(&vec![
        None,
        Some(String::from("a")),
        None,
        Some(String::from("b")),
        None,
    ]);
    assert_eq!(keys.len(), 5);
    assert!(matches!(keys[0], RepresentKey::Usize(0)));
    assert!(matches!(&keys[1], RepresentKey::Owned(name) if name == "a"));
    assert!(matches!(keys[2], RepresentKey::Usize(1)));
    assert!(matches!(&keys[3], RepresentKey::Owned(name) if name == "b"));
    assert!(matches!(keys[4], RepresentKey::Usize(2)));
    assert!(field_keys(&vec![]).is_empty());
}

#[test]
fn distinct_types_keep_their_first_place() {
    let types: Vec<String> = ["u8", "u16", "u8", "String", "u16", "u8"]
        .iter()
        .map(|name| name.to_string())
        .collect();
    assert_eq!(distinct_types(&types), vec!["u8", "u16", "String"]);
    assert!(distinct_types(&vec![]).is_empty());
    let once = vec![String::from("u8")];
    assert_eq!(distinct_types(&once), vec!["u8"]);
}

fn options(pairs: &[(&str, &str)]) -> Vec<(String, String)> {
    pairs
        .iter()
        .map(|(name, value)| (name.to_string(), value.to_string()))
        .collect()
}

#[test]
fn options_of_a_tagged_union_are_read() {
    let alt = StructAlt::new(options(&[
        ("ty", "u8"),
        ("err", "()"),
        ("default", "Err(().into())"),
    ]))
    .unwrap();
    assert_eq!(alt.ty, "u8");
    assert_eq!(alt.err.as_deref(), Some("()"));
    assert_eq!(alt.default.as_deref(), Some("Err(().into())"));
    assert!(!alt.no_bounds);
    let alt = StructAlt::new(options(&[("ty", "u16")])).unwrap();
    assert_eq!(alt.ty, "u16");
    assert_eq!(alt.err, None);
    assert_eq!(alt.default, None);
    assert!(!alt.no_bounds);
}

#[test]
fn last_option_of_a_name_counts() {
    let alt = StructAlt::new(options(&[
        ("ty", "u8"),
        ("bounds", "false"),
        ("ty", "u32"),
    ]))
    .unwrap();
    assert_eq!(alt.ty, "u32");
    assert!(alt.no_bounds);
    let alt = StructAlt::new(options(&[
        ("bounds", "false"),
        ("ty", "u8"),
        ("bounds", "true"),
    ]))
    .unwrap();
    assert!(!alt.no_bounds);
}

#[test]
fn unknown_option_is_refused() {
    let made = StructAlt::new(options(&[("ty", "u8"), ("what", "x"), ("other", "y")]));
    match made {
        Err(AltError::Unsupported { name }) => assert_eq!(name, "what"),
        _ => panic!("an option of an unknown name is refused"),
    }
}

#[test]
fn options_without_the_type_of_the_tag_are_refused() {
    let made = StructAlt::new(options(&[("err", "()")]));
    assert!(matches!(made, Err(AltError::MissingType)));
    let made = StructAlt::new(vec![]);
    assert!(matches!(made, Err(AltError::MissingType)));
}

#[test]
fn sizes_fit_where_the_constants_have_a_total() {
    assert!(sizes_fit::<0>(&[]));
    assert!(sizes_fit(&[TypeSize::Const(1), TypeSize::Const(2)]));
    assert!(sizes_fit(&[TypeSize::Const(usize::MAX), TypeSize::Const(0)]));
    assert!(sizes_fit(&[TypeSize::Const(usize::MAX - 3), TypeSize::Const(3)]));
}

#[test]
fn sizes_do_not_fit_where_the_constants_go_beyond_the_machine() {
    assert!(!sizes_fit(&[TypeSize::Const(usize::MAX), TypeSize::Const(1)]));
    assert!(!sizes_fit(&[
        TypeSize::Const(usize::MAX - 3),
        TypeSize::Const(2),
        TypeSize::Const(2),
    ]));
}

#[test]
fn sizes_fit_where_a_part_is_no_constant() {
    assert!(sizes_fit(&[
        TypeSize::Const(usize::MAX),
        TypeSize::Const(1),
        TypeSize::Fixed,
    ]));
    assert!(sizes_fit(&[
        TypeSize::Dynamic,
        TypeSize::Const(usize::MAX),
        TypeSize::Const(usize::MAX),
    ]));
}

#[test]
fn alt_bounds_take_the_fields_of_variants_with_a_pattern() {
    let variants = vec![
        (true, vec!["u8".to_string(), "u16".to_string()]),
        (false, vec!["String".to_string()]),
        (true, vec!["u16".to_string(), "u32".to_string(), "u8".to_string()]),
    ];
    assert_eq!(alt_bounds(&variants, false), vec!["u8", "u16", "u32"]);
}

#[test]
fn alt_bounds_are_none_where_the_options_leave_them_out() {
    let variants = vec![
        (true, vec!["u8".to_string(), "u16".to_string()]),
        (true, vec!["u32".to_string()]),
    ];
    assert!(alt_bounds(&variants, true).is_empty());
}

#[test]
fn alt_bounds_of_no_variant_are_none() {
    assert!(alt_bounds(&vec![], false).is_empty());
    let untaken = vec![(false, vec!["u8".to_string()])];
    assert!(alt_bounds(&untaken, false).is_empty());
}
