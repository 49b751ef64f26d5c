use deranged::{Integer, Kind, MinMax, ResolveError};

fn lit(negative: bool, text: &str) -> Integer {
    Integer::from_literal(negative, text).unwrap()
}

#[test]
fn zero_to_255_is_u8() {
    let r = MinMax::from_min_max(&lit(false, "0"), &lit(false, "255")).unwrap();
    assert_eq!(r, MinMax::U8(0, 255));
    assert_eq!(r.get_kind(), Kind::U8);
    assert_eq!(r.get_kind().ranged_name(false), "RangedU8");
    assert_eq!(r.get_kind().ranged_name(true), "OptionRangedU8");
}

#[test]
fn minus_five_to_five_is_i8() {
    let r = MinMax::from_min_max(&lit(true, "5"), &lit(false, "5")).unwrap();
    assert_eq!(r, MinMax::I8(-5, 5));
}

#[test]
fn zero_to_300_is_u16() {
    let r = MinMax::from_min_max(&lit(false, "0"), &lit(false, "300")).unwrap();
    assert_eq!(r, MinMax::U16(0, 300));
}

#[test]
fn two_to_the_128_is_refused() {
    assert!(Integer::from_literal(false, "340282366920938463463374607431768211456").is_err());
    assert!(deranged::parse_lit_int(false, "340282366920938463463374607431768211456", "maximum value").is_err());
}

#[test]
fn suffixes_steer_the_choice() {
    let r = MinMax::from_min_max(&lit(false, "0i"), &lit(false, "255")).unwrap();
    assert_eq!(r, MinMax::I16(0, 255));
    let s = MinMax::from_min_max(&lit(false, "0"), &lit(false, "70000u")).unwrap();
    assert_eq!(s, MinMax::U32(0, 70000));
    let t = MinMax::from_min_max(&lit(false, "0"), &lit(false, "5000000000")).unwrap();
    assert_eq!(t, MinMax::U64(0, 5_000_000_000));
    let big = MinMax::from_min_max(&lit(false, "0"), &lit(false, "18446744073709551616")).unwrap();
    assert_eq!(big, MinMax::U128(0, 18446744073709551616));
    let top = MinMax::from_min_max(&lit(false, "0"), &lit(false, "170141183460469231731687303715884105728")).unwrap();
    assert_eq!(top, MinMax::U128(0, 1 << 127));
    let max = MinMax::from_min_max(&lit(false, "0"), &lit(false, "0xffff_ffff_ffff_ffff_ffff_ffff_ffff_ffff")).unwrap();
    assert_eq!(max, MinMax::U128(0, u128::MAX));
    let neg = MinMax::from_min_max(&lit(true, "40000"), &lit(false, "0")).unwrap();
    assert_eq!(neg, MinMax::I32(-40000, 0));
    let neg64 = MinMax::from_min_max(&lit(true, "3000000000"), &lit(false, "0")).unwrap();
    assert_eq!(neg64, MinMax::I64(-3_000_000_000, 0));
    let min128 = MinMax::from_min_max(&lit(true, "170141183460469231731687303715884105728"), &lit(false, "0")).unwrap();
    assert_eq!(min128, MinMax::I128(i128::MIN, 0));
}

#[test]
fn no_kind_holds_the_pair() {
    let r = MinMax::from_min_max(&lit(true, "1"), &lit(false, "5u"));
    assert_eq!(r, Err(ResolveError));
    let s = MinMax::from_min_max(&lit(true, "170141183460469231731687303715884105729"), &lit(false, "0"));
    assert_eq!(s, Err(ResolveError));
    assert_eq!(ResolveError.message(), "minimum and maximum values cannot be represented by any one primitive integer");
}
