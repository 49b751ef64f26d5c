use deranged::{parse_lit_int, Integer, LiteralError, Suffix};

#[test]
fn decimal_and_prefixed_literals() {
    assert_eq!(parse_lit_int(false, "255", "maximum value"), Ok((255, Suffix::Either)));
    assert_eq!(parse_lit_int(false, "0xff", "maximum value"), Ok((255, Suffix::Either)));
    assert_eq!(parse_lit_int(false, "0xFF_u", "maximum value"), Ok((255, Suffix::Unsigned)));
    assert_eq!(parse_lit_int(false, "0o17", "maximum value"), Ok((15, Suffix::Either)));
    assert_eq!(parse_lit_int(false, "0b1010i", "maximum value"), Ok((10, Suffix::Signed)));
    assert_eq!(parse_lit_int(true, "1_000", "minimum value"), Ok((1000, Suffix::Either)));
    assert_eq!(parse_lit_int(false, "0", "minimum value"), Ok((0, Suffix::Either)));
}

#[test]
fn limits_of_the_magnitude() {
    assert_eq!(
        parse_lit_int(false, "170141183460469231731687303715884105727", "maximum value"),
        Ok((i128::MAX as u128, Suffix::Either))
    );
    assert_eq!(
        parse_lit_int(true, "340282366920938463463374607431768211455", "minimum value"),
        Ok((u128::MAX, Suffix::Either))
    );
    assert_eq!(
        parse_lit_int(false, "170141183460469231731687303715884105728", "maximum value"),
        Ok((1u128 << 127, Suffix::Either))
    );
    assert_eq!(
        parse_lit_int(false, "340282366920938463463374607431768211455", "maximum value"),
        Ok((u128::MAX, Suffix::Either))
    );
    assert_eq!(
        parse_lit_int(false, "340282366920938463463374607431768211456", "maximum value"),
        Err("value too large to be represented by a primitive integer".to_string())
    );
    assert_eq!(
        parse_lit_int(true, "340282366920938463463374607431768211456", "minimum value"),
        Err("value too small to be represented by a primitive integer".to_string())
    );
}

#[test]
fn refused_literals() {
    assert_eq!(
        parse_lit_int(false, "1.5", "minimum value"),
        Err("minimum value must be an integer literal".to_string())
    );
    assert_eq!(
        parse_lit_int(false, "1e3", "maximum value"),
        Err("maximum value must be an integer literal".to_string())
    );
    assert_eq!(
        parse_lit_int(false, "abc", "maximum value"),
        Err("maximum value must be an integer literal".to_string())
    );
    assert_eq!(
        parse_lit_int(false, "0x", "maximum value"),
        Err("maximum value must be an integer literal".to_string())
    );
    assert_eq!(
        parse_lit_int(false, "0b102", "maximum value"),
        Err("invalid digit for base".to_string())
    );
    assert_eq!(
        parse_lit_int(true, "5u", "minimum value"),
        Err("unsigned integer cannot be negative".to_string())
    );
    assert_eq!(
        parse_lit_int(false, "5u8", "minimum value"),
        Err("integer suffix must be `u`, `i`, or omitted".to_string())
    );
}

#[test]
fn literal_records() {
    let i = Integer::from_literal(true, "42i").unwrap();
    assert_eq!(i, Integer { is_negative: true, raw_value: 42, suffix: Suffix::Signed });
    assert!(!i.can_be_unsigned());
    assert!(i.can_be_signed());
    assert_eq!(i.to_signed::<i8>(), Some(-42));
    assert_eq!(i.to_unsigned::<u8>(), None);
    assert_eq!(Integer::from_literal(false, "0x1_0"), Ok(Integer { is_negative: false, raw_value: 16, suffix: Suffix::Either }));
    assert_eq!(Integer::from_literal(false, "9f"), Err(LiteralError::BadSuffix));
    let u = Integer::from_literal(false, "300u").unwrap();
    assert_eq!(u.to_unsigned::<u8>(), None);
    assert_eq!(u.to_unsigned::<u16>(), Some(300));
    assert_eq!(u.to_signed::<i16>(), None);
    let m = Integer::from_literal(true, "128").unwrap();
    assert_eq!(m.to_signed::<i8>(), Some(-128));
    let p = Integer::from_literal(false, "128").unwrap();
    assert_eq!(p.to_signed::<i8>(), None);
}

#[test]
fn error_messages() {
    assert_eq!(LiteralError::NotLiteral.message("minimum value"), "minimum value must be an integer literal");
    assert_eq!(LiteralError::InvalidDigit.message("x"), "invalid digit for base");
}
