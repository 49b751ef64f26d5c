use deranged::input::{
    parse_bounds, parse_comma, parse_integer, parse_integer_at, parse_punct, parse_range_bounds,
    parse_sign, resolve_bounds, resolve_range, Resolved, Span, Token,
};
use deranged::{Integer, MinMax, Suffix};

fn lit(text: &str) -> Token {
    Token::Literal(text.as_bytes().to_vec())
}

#[test]
fn pair_of_bounds() {
    let tokens = vec![Token::Punct('-'), lit("5"), Token::Punct(','), lit("5")];
    let (min, min_at, max, max_at) = parse_bounds(&tokens).unwrap();
    assert_eq!(min, Integer { is_negative: true, raw_value: 5, suffix: Suffix::Either });
    assert_eq!(max, Integer { is_negative: false, raw_value: 5, suffix: Suffix::Either });
    assert_eq!((min_at, max_at), (1, 3));
    assert_eq!(
        resolve_bounds(&tokens).unwrap(),
        Resolved { min_max: MinMax::I8(-5, 5), min_at: 1, max_at: 3 }
    );
    let wide = vec![lit("0"), Token::Punct(','), lit("300")];
    assert_eq!(
        resolve_bounds(&wide).unwrap(),
        Resolved { min_max: MinMax::U16(0, 300), min_at: 0, max_at: 2 }
    );
    let top = vec![lit("0"), Token::Punct(','), lit("170141183460469231731687303715884105728")];
    assert_eq!(resolve_bounds(&top).unwrap().min_max, MinMax::U128(0, 1 << 127));
}

#[test]
fn missing_or_wrong_separator() {
    let missing_max = vec![lit("0")];
    let d = parse_bounds(&missing_max).unwrap_err();
    assert_eq!(d.message, "expected maximum value");
    assert_eq!(d.span, Span::CallSite);
    let wrong = vec![lit("0"), Token::Punct(';'), Token::Punct(':'), lit("9")];
    let e = parse_comma(&wrong, 1).unwrap_err();
    assert_eq!(e.message, "minimum and maximum value must be separated by a comma");
    assert_eq!(e.span, Span::Tokens(1, 2));
    let not_punct = vec![lit("0"), Token::Other, lit("9")];
    let f = parse_bounds(&not_punct).unwrap_err();
    assert_eq!(f.message, "minimum and maximum value must be separated by a comma");
    assert_eq!(f.span, Span::Tokens(1, 1));
    assert_eq!(parse_comma(&wrong, 0).unwrap_err().span, Span::Tokens(0, 0));
}

#[test]
fn bounds_that_are_not_literals() {
    let empty: Vec<Token> = Vec::new();
    let d = parse_bounds(&empty).unwrap_err();
    assert_eq!(d.message, "expected minimum value");
    assert_eq!(d.span, Span::CallSite);
    let ident = vec![Token::Other];
    assert_eq!(parse_integer_at(&ident, 0, "minimum value").unwrap_err().span, Span::Tokens(0, 0));
    let dangling = vec![Token::Punct('-')];
    assert_eq!(parse_integer_at(&dangling, 0, "minimum value").unwrap_err().span, Span::Tokens(0, 0));
    let minus_ident = vec![Token::Punct('-'), Token::Other];
    let e = parse_integer_at(&minus_ident, 0, "maximum value").unwrap_err();
    assert_eq!(e.message, "expected maximum value");
    assert_eq!(e.span, Span::Tokens(0, 1));
    let float = vec![Token::Punct('-'), lit("1.5")];
    let f = parse_integer_at(&float, 0, "minimum value").unwrap_err();
    assert_eq!(f.message, "minimum value must be an integer literal");
    assert_eq!(f.span, Span::Tokens(0, 1));
    let g = parse_integer_at(&float, 1, "minimum value").unwrap_err();
    assert_eq!(g.span, Span::Tokens(1, 1));
}

#[test]
fn pair_that_no_kind_holds() {
    let tokens = vec![Token::Punct('-'), lit("1"), Token::Punct(','), lit("5u")];
    let d = resolve_bounds(&tokens).unwrap_err();
    assert_eq!(d.message, "minimum and maximum values cannot be represented by any one primitive integer");
    assert_eq!(d.span, Span::CallSite);
}

#[test]
fn range_form() {
    let tokens = vec![
        Token::Punct('-'),
        lit("1_000"),
        Token::Punct('.'),
        Token::Punct('.'),
        Token::Punct('='),
        Token::Punct('+'),
        lit("1_000"),
    ];
    let (min, max) = parse_range_bounds(&tokens).unwrap();
    assert_eq!(min.raw_value, 1000);
    assert!(min.is_negative);
    assert!(!max.is_negative);
    assert_eq!(resolve_range(&tokens).unwrap(), MinMax::I16(-1000, 1000));
    let unsigned = vec![lit("0"), Token::Punct('.'), Token::Punct('.'), Token::Punct('='), lit("255")];
    assert_eq!(resolve_range(&unsigned).unwrap(), MinMax::U8(0, 255));
}

#[test]
fn range_form_errors() {
    let sign = vec![Token::Punct('*'), lit("1")];
    assert_eq!(parse_sign(&sign, 0).unwrap_err().message, "unexpected symbol");
    assert_eq!(parse_sign(&sign, 1).unwrap(), (false, 1));
    let grouped = vec![lit("_1"), lit("1_"), lit("1a"), lit("340282366920938463463374607431768211456"), lit("1__2"), Token::Other];
    assert_eq!(parse_integer(&grouped, 0).unwrap_err().message, "expected integer");
    assert_eq!(parse_integer(&grouped, 1).unwrap_err().message, "expected integer");
    assert_eq!(parse_integer(&grouped, 2).unwrap_err().message, "expected integer");
    assert_eq!(parse_integer(&grouped, 3).unwrap_err().message, "value cannot be represented by any primitive integer");
    assert_eq!(parse_integer(&grouped, 4).unwrap(), (12, 5));
    assert_eq!(parse_integer(&grouped, 5).unwrap_err().message, "expected integer");
    let puncts = vec![Token::Punct('.'), Token::Punct('=')];
    assert_eq!(parse_punct(&puncts, 0, '.').unwrap(), 1);
    assert_eq!(parse_punct(&puncts, 0, '=').unwrap_err().message, "expected `=`");
    let no_eq = vec![lit("0"), Token::Punct('.'), Token::Punct('.'), lit("5")];
    assert_eq!(resolve_range(&no_eq).unwrap_err().message, "expected `=`");
    let too_low = vec![
        Token::Punct('-'),
        lit("170141183460469231731687303715884105729"),
        Token::Punct('.'),
        Token::Punct('.'),
        Token::Punct('='),
        lit("0"),
    ];
    let d = resolve_range(&too_low).unwrap_err();
    assert_eq!(d.message, "minimum-maximum pair cannot be represented by a single primitive integer");
    assert_eq!(d.span, Span::CallSite);
}
