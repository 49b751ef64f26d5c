use deranged::{
    IntErrorKind, Ranged, RangedI128, RangedI16, RangedI32, RangedI64, RangedI8, RangedIsize,
    RangedU128, RangedU16, RangedU32, RangedU64, RangedU8, RangedUsize, TryFromIntError,
};

#[test]
fn new_accepts_exactly_the_range() {
    for v in 0u8..=255 {
        let r = RangedU8::new(10, 20, v);
        if (10..=20).contains(&v) {
            assert_eq!(r.unwrap().get(), v);
        } else {
            assert!(r.is_none());
        }
    }
    assert_eq!(RangedI8::new(-5, 5, -5).unwrap().get(), -5);
    assert_eq!(RangedI8::new(-5, 5, 5).unwrap().get(), 5);
    assert!(RangedI8::new(-5, 5, -6).is_none());
    assert!(RangedI8::new(-5, 5, 6).is_none());
    assert_eq!(RangedI128::new(i128::MIN, i128::MAX, i128::MIN).unwrap().get(), i128::MIN);
    assert_eq!(RangedU128::new(0, u128::MAX, u128::MAX).unwrap().get(), u128::MAX);
    assert_eq!(RangedUsize::new(1, 1, 1).unwrap().get(), 1);
    assert!(RangedIsize::new(1, 1, 0).is_none());
}

#[test]
fn round_trip_through_get() {
    let b = RangedI16::new(-300, 300, -299).unwrap();
    let again = RangedI16::new(b.min_bound(), b.max_bound(), b.get()).unwrap();
    assert!(again == b);
    assert_eq!(again.get(), -299);
    assert_eq!(again.min_bound(), -300);
    assert_eq!(again.max_bound(), 300);
}

#[test]
fn bounds_as_values() {
    let b = RangedU32::new(7, 70, 30).unwrap();
    assert_eq!(b.min_value().get(), 7);
    assert_eq!(b.max_value().get(), 70);
    assert_eq!(RangedU32::new_unchecked(7, 70, 8).get(), 8);
    assert_eq!(*b.get_ref(), 30);
}

#[test]
fn checked_add_sub_mul() {
    let b = RangedU8::new(10, 20, 15).unwrap();
    assert_eq!(b.checked_add(5).unwrap().get(), 20);
    assert!(b.checked_add(6).is_none());
    assert!(b.checked_add(250).is_none());
    assert_eq!(b.checked_sub(5).unwrap().get(), 10);
    assert!(b.checked_sub(6).is_none());
    assert!(b.checked_sub(16).is_none());
    let c = RangedI8::new(-100, 100, -10).unwrap();
    assert_eq!(c.checked_mul(-10).unwrap().get(), 100);
    assert!(c.checked_mul(11).is_none());
    assert!(c.checked_mul(100).is_none());
}

#[test]
fn checked_division_and_remainder() {
    let b = RangedI32::new(-100, 100, -7).unwrap();
    assert_eq!(b.checked_div(2).unwrap().get(), -3);
    assert_eq!(b.checked_div_euclid(2).unwrap().get(), -4);
    assert_eq!(b.checked_rem(2).unwrap().get(), -1);
    assert_eq!(b.checked_rem_euclid(2).unwrap().get(), 1);
    assert_eq!(b.checked_div(-2).unwrap().get(), 3);
    assert_eq!(b.checked_div_euclid(-2).unwrap().get(), 4);
    assert_eq!(b.checked_rem_euclid(-2).unwrap().get(), 1);
    assert!(b.checked_div(0).is_none());
    assert!(b.checked_rem(0).is_none());
    assert!(b.checked_div_euclid(0).is_none());
    assert!(b.checked_rem_euclid(0).is_none());
    let narrow = RangedI32::new(-3, -1, -2).unwrap();
    assert!(narrow.checked_div(1).is_some());
    assert_eq!(narrow.checked_div(2).unwrap().get(), -1);
    assert!(narrow.checked_div(3).is_none());
    let full = RangedI8::new(i8::MIN, i8::MAX, i8::MIN).unwrap();
    assert!(full.checked_div(-1).is_none());
    assert!(full.checked_rem(-1).is_none());
    assert!(full.checked_rem_euclid(-1).is_none());
}

#[test]
fn checked_neg_abs() {
    let b = RangedI8::new(-10, 5, -5).unwrap();
    assert_eq!(b.checked_neg().unwrap().get(), 5);
    assert_eq!(b.checked_abs().unwrap().get(), 5);
    let c = RangedI8::new(-10, 5, -6).unwrap();
    assert!(c.checked_neg().is_none());
    assert!(c.checked_abs().is_none());
    let d = RangedI8::new(i8::MIN, i8::MAX, i8::MIN).unwrap();
    assert!(d.checked_neg().is_none());
    assert!(d.checked_abs().is_none());
    let zero = RangedU8::new(0, 9, 0).unwrap();
    assert_eq!(zero.checked_neg().unwrap().get(), 0);
    assert!(RangedU8::new(0, 9, 1).unwrap().checked_neg().is_none());
}

#[test]
fn checked_shifts() {
    let b = RangedU8::new(0, 255, 200).unwrap();
    assert_eq!(b.checked_shl(1).unwrap().get(), 144);
    assert_eq!(b.checked_shr(3).unwrap().get(), 25);
    assert!(b.checked_shl(8).is_none());
    assert!(b.checked_shr(8).is_none());
    let c = RangedU8::new(0, 100, 60).unwrap();
    assert!(c.checked_shl(1).is_none());
    let d = RangedI16::new(-100, 100, -7).unwrap();
    assert_eq!(d.checked_shr(1).unwrap().get(), -4);
    assert_eq!(d.checked_shl(2).unwrap().get(), -28);
}

#[test]
fn checked_pow_values() {
    let b = RangedI32::new(-1000, 1000, -3).unwrap();
    assert_eq!(b.checked_pow(0).unwrap().get(), 1);
    assert_eq!(b.checked_pow(3).unwrap().get(), -27);
    assert_eq!(b.checked_pow(6).unwrap().get(), 729);
    assert!(b.checked_pow(7).is_none());
    let one = RangedI64::new(-1, 1, -1).unwrap();
    assert_eq!(one.checked_pow(u32::MAX).unwrap().get(), -1);
    assert_eq!(one.checked_pow(u32::MAX - 1).unwrap().get(), 1);
    let two = RangedU64::new(0, u64::MAX, 2).unwrap();
    assert_eq!(two.checked_pow(63).unwrap().get(), 1 << 63);
    assert!(two.checked_pow(64).is_none());
    assert!(two.checked_pow(u32::MAX).is_none());
    let zero = RangedU16::new(0, 5, 0).unwrap();
    assert_eq!(zero.checked_pow(0).unwrap().get(), 1);
    assert_eq!(zero.checked_pow(9).unwrap().get(), 0);
}

#[test]
fn unchecked_operations() {
    let b = RangedI32::new(-50, 50, 7).unwrap();
    assert_eq!(b.unchecked_add(3).get(), 10);
    assert_eq!(b.unchecked_sub(57).get(), -50);
    assert_eq!(b.unchecked_mul(-7).get(), -49);
    assert_eq!(b.unchecked_div(2).get(), 3);
    assert_eq!(b.unchecked_div_euclid(-2).get(), -3);
    assert_eq!(b.unchecked_rem(4).get(), 3);
    assert_eq!(b.unchecked_rem_euclid(-4).get(), 3);
    assert_eq!(b.unchecked_neg().get(), -7);
    assert_eq!(b.unchecked_neg().unchecked_abs().get(), 7);
    assert_eq!(b.unchecked_shl(2).get(), 28);
    assert_eq!(b.unchecked_shr(1).get(), 3);
    assert_eq!(b.unchecked_pow(2).get(), 49);
}

#[test]
fn saturating_clamps_to_the_range() {
    let b = RangedU8::new(10, 20, 15).unwrap();
    assert_eq!(b.saturating_add(3).get(), 18);
    assert_eq!(b.saturating_add(6).get(), 20);
    assert_eq!(b.saturating_add(255).get(), 20);
    assert_eq!(b.saturating_sub(3).get(), 12);
    assert_eq!(b.saturating_sub(6).get(), 10);
    assert_eq!(b.saturating_sub(255).get(), 10);
    assert_eq!(b.saturating_mul(0).get(), 10);
    assert_eq!(b.saturating_mul(100).get(), 20);
    assert_eq!(b.saturating_pow(0).get(), 10);
    assert_eq!(b.saturating_pow(5).get(), 20);
    let c = RangedI8::new(-20, 30, -5).unwrap();
    assert_eq!(c.saturating_mul(3).get(), -15);
    assert_eq!(c.saturating_mul(5).get(), -20);
    assert_eq!(c.saturating_mul(-100).get(), 30);
    assert_eq!(c.saturating_mul(100).get(), -20);
    assert_eq!(c.saturating_pow(2).get(), 25);
    assert_eq!(c.saturating_pow(3).get(), -20);
    assert_eq!(c.saturating_pow(4).get(), 30);
    assert_eq!(c.saturating_pow(5).get(), -20);
    assert_eq!(c.saturating_neg().get(), 5);
    assert_eq!(c.saturating_abs().get(), 5);
    assert_eq!(c.saturating_add(-100).get(), -20);
    assert_eq!(c.saturating_sub(-100).get(), 30);
    let d = RangedI8::new(i8::MIN, 100, i8::MIN).unwrap();
    assert_eq!(d.saturating_neg().get(), 100);
    assert_eq!(d.saturating_abs().get(), 100);
    let e = RangedI8::new(-10, 3, -8).unwrap();
    assert_eq!(e.saturating_neg().get(), 3);
    assert_eq!(RangedI8::new(-3, 10, 3).unwrap().saturating_neg().get(), -3);
}

#[test]
fn parse_within_range() {
    let b = RangedU8::from_str(100, 200, "100").unwrap();
    assert_eq!(b.get(), 100);
    assert_eq!(RangedU8::from_str(100, 200, "+200").unwrap().get(), 200);
    let c = RangedI32::from_str(-5, 5, "-5").unwrap();
    assert_eq!(c.get(), -5);
}

#[test]
fn parse_below_and_above_range() {
    let low = RangedU8::from_str(100, 200, "50").unwrap_err();
    assert_eq!(*low.kind(), IntErrorKind::NegOverflow);
    let high = RangedU8::from_str(100, 200, "250").unwrap_err();
    assert_eq!(*high.kind(), IntErrorKind::PosOverflow);
    let domain_high = RangedU8::from_str(100, 200, "256").unwrap_err();
    assert_eq!(*domain_high.kind(), IntErrorKind::PosOverflow);
    let domain_low = RangedI8::from_str(-5, 5, "-129").unwrap_err();
    assert_eq!(*domain_low.kind(), IntErrorKind::NegOverflow);
    let wide = RangedI64::from_str(-5, 5, "6").unwrap_err();
    assert_eq!(*wide.kind(), IntErrorKind::PosOverflow);
}

#[test]
fn parse_malformed_text() {
    let e = RangedU8::from_str(100, 200, "abc").unwrap_err();
    assert_eq!(*e.kind(), IntErrorKind::InvalidDigit);
    let empty = RangedU16::from_str(0, 10, "").unwrap_err();
    assert_eq!(*empty.kind(), IntErrorKind::Empty);
    let minus = RangedU32::from_str(0, 10, "-1").unwrap_err();
    assert_eq!(*minus.kind(), IntErrorKind::InvalidDigit);
    let sign = RangedIsize::from_str(-10, 10, "-").unwrap_err();
    assert_eq!(*sign.kind(), IntErrorKind::InvalidDigit);
    let space = RangedU128::from_str(0, 10, " 1").unwrap_err();
    assert_eq!(*space.kind(), IntErrorKind::InvalidDigit);
    let plus = RangedI16::from_str(0, 10, "+").unwrap_err();
    assert_eq!(*plus.kind(), IntErrorKind::InvalidDigit);
    let after_digits = RangedU8::from_str(0, 10, "1x").unwrap_err();
    assert_eq!(*after_digits.kind(), "1x".parse::<u8>().unwrap_err().kind().clone().into_kind());
}

trait IntoKind {
    fn into_kind(self) -> IntErrorKind;
}

impl IntoKind for std::num::IntErrorKind {
    fn into_kind(self) -> IntErrorKind {
        match self {
            std::num::IntErrorKind::Empty => IntErrorKind::Empty,
            std::num::IntErrorKind::PosOverflow => IntErrorKind::PosOverflow,
            std::num::IntErrorKind::NegOverflow => IntErrorKind::NegOverflow,
            std::num::IntErrorKind::Zero => IntErrorKind::Zero,
            _ => IntErrorKind::InvalidDigit,
        }
    }
}

#[test]
fn parse_passes_on_the_primitive_error() {
    for text in ["", "-", "+", "x", "1x", "999", "-1", "2_0", "12345678901234567890x"] {
        let ours = RangedU8::from_str(0, 255, text).unwrap_err();
        let std_kind = text.parse::<u8>().unwrap_err().kind().clone().into_kind();
        assert_eq!(*ours.kind(), std_kind, "{}", text);
    }
    let e = RangedI8::from_str(-5, 5, "-200").unwrap_err();
    assert_eq!(*e.kind(), IntErrorKind::NegOverflow);
}

#[test]
fn parse_with_empty_range() {
    assert_eq!(*RangedU8::from_str(10, 5, "7").unwrap_err().kind(), IntErrorKind::NegOverflow);
    assert_eq!(*RangedU8::from_str(10, 5, "12").unwrap_err().kind(), IntErrorKind::PosOverflow);
}

#[test]
fn parse_each_kind() {
    assert_eq!(RangedU16::from_str(0, 1000, "999").unwrap().get(), 999);
    assert_eq!(RangedU32::from_str(0, 100_000, "65536").unwrap().get(), 65536);
    assert_eq!(RangedU64::from_str(1, 2, "2").unwrap().get(), 2);
    assert_eq!(RangedU128::from_str(0, u128::MAX, "340282366920938463463374607431768211455").unwrap().get(), u128::MAX);
    assert_eq!(RangedUsize::from_str(3, 9, "04").unwrap().get(), 4);
    assert_eq!(RangedI8::from_str(-128, 127, "-128").unwrap().get(), -128);
    assert_eq!(RangedI16::from_str(-1000, 1000, "-999").unwrap().get(), -999);
    assert_eq!(RangedI64::from_str(-10, 10, "+7").unwrap().get(), 7);
    assert_eq!(RangedI128::from_str(i128::MIN, 0, "-170141183460469231731687303715884105728").unwrap().get(), i128::MIN);
    assert_eq!(RangedIsize::from_str(-10, 10, "-10").unwrap().get(), -10);
}

#[test]
fn try_from_wider_then_narrower() {
    let wide = RangedU64::try_from_value(1000, 2000, 1500u64).unwrap();
    assert_eq!(wide.get(), 1500);
    let narrow: Result<RangedU8, TryFromIntError> = wide.try_convert(0u8, 255u8);
    assert_eq!(narrow.unwrap_err(), TryFromIntError);
    let signed = RangedI16::try_from_value(1000, 2000, 1500i128).unwrap();
    assert_eq!(signed.get(), 1500);
}

#[test]
fn try_from_primitive_of_same_kind() {
    assert_eq!(RangedI32::try_from(-4, 4, 4).unwrap().get(), 4);
    assert_eq!(RangedI32::try_from(-4, 4, 5).unwrap_err(), TryFromIntError);
    assert!(RangedU8::try_from_value(0, 10, -1i8).is_err());
    assert!(RangedI8::try_from_value(-10, 10, u128::MAX).is_err());
}

#[test]
fn expand_keeps_the_value() {
    let b = RangedU8::new(0, 200, 199).unwrap();
    let wide: RangedI16 = b.expand(-1, 300);
    assert_eq!(wide.get(), 199);
    assert_eq!(wide.min_bound(), -1);
    assert_eq!(wide.max_bound(), 300);
    let n = RangedI8::new(-128, 127, -128).unwrap();
    let w: RangedI128 = n.expand(i128::MIN, 0);
    assert_eq!(w.get(), -128);
    let u: RangedU128 = RangedU64::new(0, u64::MAX, u64::MAX).unwrap().expand(0, u128::MAX);
    assert_eq!(u.get(), u64::MAX as u128);
}

#[test]
fn fallible_conversion_follows_destination_bounds() {
    let b = RangedI32::new(-1000, 1000, -200).unwrap();
    assert_eq!(b.try_convert(-200i16, 0i16).unwrap().get(), -200);
    assert!(b.try_convert(-199i16, 0i16).is_err());
    assert!(b.try_convert(0u8, 255u8).is_err());
    assert_eq!(b.try_convert(i64::MIN, i64::MAX).unwrap().get(), -200);
}

#[test]
fn comparisons_ignore_bounds() {
    let a = RangedU8::new(0, 10, 5).unwrap();
    let b = RangedU8::new(5, 50, 5).unwrap();
    let c = RangedU8::new(5, 50, 6).unwrap();
    assert!(a == b);
    assert!(a != c);
    let d = RangedI64::new(-10, 10, -1).unwrap();
    let e = RangedU128::new(0, u128::MAX, u128::MAX).unwrap();
    assert_eq!(d.cmp_value(&a), std::cmp::Ordering::Less);
    assert_eq!(e.cmp_value(&d), std::cmp::Ordering::Greater);
    assert_eq!(a.cmp_value(&b), std::cmp::Ordering::Equal);
    assert!(a.eq_value(&RangedI32::new(-5, 5, 5).unwrap()));
    assert!(!d.eq_value(&e));
    let wide = d.to_wide();
    assert!(wide.negative);
    assert_eq!(wide.magnitude, 1);
}

fn first<T: deranged::Primitive>(r: Ranged<T>) -> T {
    r.min_value().get()
}

#[test]
fn generic_values_across_kinds() {
    assert_eq!(first(RangedI8::new(-3, 3, 0).unwrap()), -3);
    assert_eq!(first(RangedU16::new(3, 30, 4).unwrap()), 3);
}

#[test]
fn ordering_within_a_kind() {
    let a = RangedI32::new(-10, 10, -3).unwrap();
    let b = RangedI32::new(-100, 100, 7).unwrap();
    assert!(a < b);
    assert!(b > a);
    assert_eq!(a.partial_cmp(&a), Some(std::cmp::Ordering::Equal));
}

#[test]
fn error_texts() {
    assert_eq!(TryFromIntError.message(), "out of range integral type conversion attempted");
    let e = RangedU8::from_str(1, 2, "").unwrap_err();
    assert_eq!(e.message(), "cannot parse integer from empty string");
    let f = RangedU8::from_str(1, 2, "9").unwrap_err();
    assert_eq!(f.message(), "number too large to fit in target type");
    let g = RangedU8::from_str(1, 2, "0").unwrap_err();
    assert_eq!(g.message(), "number too small to fit in target type");
    let h = RangedU8::from_str(1, 2, "x").unwrap_err();
    assert_eq!(h.message(), "invalid digit found in string");
}

#[test]
fn unsafe_wrapper_holds_its_value() {
    let u = deranged::Unsafe::new(41u16);
    assert_eq!(*u.get(), 41);
}

#[test]
fn another_value_of_the_same_range() {
    let b = RangedI64::new(-8, 8, 0).unwrap();
    assert_eq!(b.with_value(-8).unwrap().get(), -8);
    assert_eq!(b.with_value(8).unwrap().max_bound(), 8);
    assert!(b.with_value(9).is_none());
    assert!(b.with_value(-9).is_none());
}
