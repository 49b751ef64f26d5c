//! The input of the macros that name a bounded type, read token by token into
//! a pair of bounds or into a diagnostic that points at the offending tokens.
use vstd::prelude::*;
use vstd::string::StringExecFns;

use crate::literal::{is_dec_byte, literal_of, parse_literal, Integer, Suffix};
use crate::resolve::{resolve, MinMax, ResolveError};

verus! {

/// One token of a macro's input, as far as the bounds' grammar reads it.
#[derive(Debug, Clone, PartialEq, Eq)]
pub enum Token {
    /// A literal, by the bytes of its text.
    Literal(Vec<u8>),
    /// A punctuation character.
    Punct(char),
    /// Anything else: an identifier or a group.
    Other,
}

/// Where a diagnostic points: the macro's call site, or the tokens from
/// `first` to `last` (by their indices in the input).
#[derive(Debug, Clone, Copy, PartialEq, Eq, Structural)]
pub enum Span {
    CallSite,
    Tokens(usize, usize),
}

/// A message for the build to fail with, and where it points.
#[derive(Debug, Clone, PartialEq, Eq)]
pub struct Diagnostic {
    pub message: String,
    pub span: Span,
}

pub open spec fn expected_msg(what: Seq<char>) -> Seq<char> {
    "expected "@ + what
}

pub open spec fn separator_msg() -> Seq<char> {
    "minimum and maximum value must be separated by a comma"@
}

/// What reading the literal with bytes `b` gives, with the tokens it came
/// from (`first..=last`) and the index after it.
pub open spec fn literal_result(
    b: Seq<u8>,
    negative: bool,
    what: Seq<char>,
    first: int,
    last: int,
    next: int,
) -> Result<(Integer, int), (Seq<char>, Span)> {
    match literal_of(b, negative) {
        Ok((v, suffix)) => Ok(
            (Integer { is_negative: negative, raw_value: v as u128, suffix }, next),
        ),
        Err(e) => Err((e.spec_message(what), Span::Tokens(first as usize, last as usize))),
    }
}

/// Reading a bound at index `i`: a literal, or a `-` and a literal.
pub open spec fn integer_at(toks: Seq<Token>, i: int, what: Seq<char>) -> Result<
    (Integer, int),
    (Seq<char>, Span),
> {
    if i < 0 || i >= toks.len() {
        Err((expected_msg(what), Span::CallSite))
    } else {
        match toks[i] {
            Token::Literal(b) => literal_result(b@, false, what, i, i, i + 1),
            Token::Punct(c) => {
                if c != '-' {
                    Err((expected_msg(what), Span::Tokens(i as usize, i as usize)))
                } else if i + 1 >= toks.len() {
                    Err((expected_msg(what), Span::Tokens(i as usize, i as usize)))
                } else {
                    match toks[i + 1] {
                        Token::Literal(b) => literal_result(b@, true, what, i, i + 1, i + 2),
                        _ => Err((expected_msg(what), Span::Tokens(i as usize, (i + 1) as usize))),
                    }
                }
            },
            Token::Other => Err((expected_msg(what), Span::Tokens(i as usize, i as usize))),
        }
    }
}

/// The index just after the run of punctuation that starts at `j`.
pub open spec fn punct_run_end(toks: Seq<Token>, j: int) -> int
    decreases toks.len() - j,
{
    if 0 <= j < toks.len() && toks[j] is Punct {
        punct_run_end(toks, j + 1)
    } else {
        j
    }
}

/// Reading the comma between the bounds at index `i`: a wrong separator is
/// pointed at together with the punctuation that follows it.
pub open spec fn comma_at(toks: Seq<Token>, i: int) -> Result<int, (Seq<char>, Span)> {
    if i < 0 || i >= toks.len() {
        Err(("expected maximum value"@, Span::CallSite))
    } else {
        match toks[i] {
            Token::Punct(c) => {
                if c == ',' {
                    Ok(i + 1)
                } else {
                    Err(
                        (
                            separator_msg(),
                            Span::Tokens(i as usize, (punct_run_end(toks, i + 1) - 1) as usize),
                        ),
                    )
                }
            },
            _ => Err((separator_msg(), Span::Tokens(i as usize, i as usize))),
        }
    }
}

/// Reading `min, max` from the start of the input: each bound with the index
/// of its literal token.
pub open spec fn bounds_of(toks: Seq<Token>) -> Result<(Integer, int, Integer, int), (Seq<char>, Span)> {
    match integer_at(toks, 0, "minimum value"@) {
        Err(e) => Err(e),
        Ok((min, j)) => match comma_at(toks, j) {
            Err(e) => Err(e),
            Ok(k) => match integer_at(toks, k, "maximum value"@) {
                Err(e) => Err(e),
                Ok((max, m)) => Ok((min, j - 1, max, m - 1)),
            },
        },
    }
}

fn diagnostic(message: String, span: Span) -> (r: Diagnostic)
    ensures
        r.message == message,
        r.span == span,
{
    Diagnostic { message, span }
}

fn expected(what: &str) -> (r: String)
    ensures
        r@ == expected_msg(what@),
{
    String::from_str("expected ").concat(what)
}

/// Reads the bound that starts at index `i`, named `what` in diagnostics,
/// and gives it with the index after it.
pub fn parse_integer_at(tokens: &Vec<Token>, i: usize, what: &str) -> (r: Result<
    (Integer, usize),
    Diagnostic,
>)
    ensures
        r matches Ok((v, j)) ==> integer_at(tokens@, i as int, what@) == Ok::<
            (Integer, int),
            (Seq<char>, Span),
        >((v, j as int)),
        r matches Err(d) ==> integer_at(tokens@, i as int, what@) == Err::<
            (Integer, int),
            (Seq<char>, Span),
        >((d.message@, d.span)),
{
    let len = tokens.len();
    if i >= len {
        return Err(diagnostic(expected(what), Span::CallSite));
    }
    match &tokens[i] {
        Token::Literal(b) => match parse_literal(false, b.as_slice()) {
            Ok((raw_value, suffix)) => Ok(
                (Integer { is_negative: false, raw_value, suffix }, i + 1),
            ),
            Err(e) => Err(diagnostic(e.message(what), Span::Tokens(i, i))),
        },
        Token::Punct(c) => {
            if *c != '-' || i + 1 >= len {
                return Err(diagnostic(expected(what), Span::Tokens(i, i)));
            }
            match &tokens[i + 1] {
                Token::Literal(b) => match parse_literal(true, b.as_slice()) {
                    Ok((raw_value, suffix)) => Ok(
                        (Integer { is_negative: true, raw_value, suffix }, i + 2),
                    ),
                    Err(e) => Err(diagnostic(e.message(what), Span::Tokens(i, i + 1))),
                },
                _ => Err(diagnostic(expected(what), Span::Tokens(i, i + 1))),
            }
        },
        Token::Other => Err(diagnostic(expected(what), Span::Tokens(i, i))),
    }
}

/// Reads the comma at index `i` and gives the index after it.
pub fn parse_comma(tokens: &Vec<Token>, i: usize) -> (r: Result<usize, Diagnostic>)
    ensures
        r matches Ok(j) ==> comma_at(tokens@, i as int) == Ok::<int, (Seq<char>, Span)>(j as int),
        r matches Err(d) ==> comma_at(tokens@, i as int) == Err::<int, (Seq<char>, Span)>(
            (d.message@, d.span),
        ),
{
    let len = tokens.len();
    if i >= len {
        return Err(diagnostic(String::from_str("expected maximum value"), Span::CallSite));
    }
    match &tokens[i] {
        Token::Punct(c) => {
            if *c == ',' {
                return Ok(i + 1);
            }
            let mut j = i + 1;
            while j < len
                invariant
                    i < j <= len,
                    len == tokens@.len(),
                    punct_run_end(tokens@, j as int) == punct_run_end(tokens@, (i + 1) as int),
                ensures
                    punct_run_end(tokens@, j as int) == j,
                    i < j <= len,
                decreases len - j,
            {
                match &tokens[j] {
                    Token::Punct(_) => {
                        j = j + 1;
                    },
                    _ => {
                        break;
                    },
                }
            }
            Err(
                diagnostic(
                    String::from_str("minimum and maximum value must be separated by a comma"),
                    Span::Tokens(i, j - 1),
                ),
            )
        },
        _ => Err(
            diagnostic(
                String::from_str("minimum and maximum value must be separated by a comma"),
                Span::Tokens(i, i),
            ),
        ),
    }
}

/// Reads `min, max` from the start of the input: each bound with the index
/// of its literal token.
pub fn parse_bounds(tokens: &Vec<Token>) -> (r: Result<(Integer, usize, Integer, usize), Diagnostic>)
    ensures
        r matches Ok((min, min_at, max, max_at)) ==> bounds_of(tokens@) == Ok::<
            (Integer, int, Integer, int),
            (Seq<char>, Span),
        >((min, min_at as int, max, max_at as int)),
        r matches Err(d) ==> bounds_of(tokens@) == Err::<(Integer, int, Integer, int), (Seq<char>, Span)>((d.message@, d.span)),
{
    let (min, j) = match parse_integer_at(tokens, 0, "minimum value") {
        Ok(p) => p,
        Err(d) => return Err(d),
    };
    let k = match parse_comma(tokens, j) {
        Ok(k) => k,
        Err(d) => return Err(d),
    };
    match parse_integer_at(tokens, k, "maximum value") {
        Ok((max, m)) => Ok((min, j - 1, max, m - 1)),
        Err(d) => Err(d),
    }
}

/// The kind chosen for a pair of bounds, with the indices of the bounds'
/// literal tokens.
#[derive(Debug, Clone, Copy, PartialEq, Eq, Structural)]
pub struct Resolved {
    pub min_max: MinMax,
    pub min_at: usize,
    pub max_at: usize,
}

/// Reads `min, max` and chooses the kind of the bounded type they name; a
/// pair that no kind holds is reported at the call site.
pub fn resolve_bounds(tokens: &Vec<Token>) -> (r: Result<Resolved, Diagnostic>)
    ensures
        bounds_of(tokens@) matches Err((m, s)) ==> (r matches Err(d) && d.message@ == m && d.span
            == s),
        bounds_of(tokens@) matches Ok((min, _, max, _)) ==> (r is Ok <==> resolve(min, max) is Some),
        bounds_of(tokens@) matches Ok((min, min_at, max, max_at)) ==> (r matches Ok(res) ==> resolve(min, max)
            == Some(res.min_max.kind()) && res.min_max.min_int() == min.value()
            && res.min_max.max_int() == max.value() && res.min_at == min_at && res.max_at == max_at),
        bounds_of(tokens@) is Ok ==> (r matches Err(d) ==> d.span == Span::CallSite && d.message@
            == "minimum and maximum values cannot be represented by any one primitive integer"@),
{
    let (min, min_at, max, max_at) = match parse_bounds(tokens) {
        Ok(p) => p,
        Err(d) => return Err(d),
    };
    match MinMax::from_min_max(&min, &max) {
        Ok(min_max) => Ok(Resolved { min_max, min_at, max_at }),
        Err(e) => Err(diagnostic(String::from_str(e.message()), Span::CallSite)),
    }
}

/// Reading an optional sign at index `i`, in the `min..=max` form: whether it
/// is a minus, and the index after it.
pub open spec fn sign_at(toks: Seq<Token>, i: int) -> Result<(bool, int), Seq<char>> {
    if 0 <= i < toks.len() {
        match toks[i] {
            Token::Punct(c) => {
                if c == '-' {
                    Ok((true, i + 1))
                } else if c == '+' {
                    Ok((false, i + 1))
                } else {
                    Err("unexpected symbol"@)
                }
            },
            _ => Ok((false, i)),
        }
    } else {
        Ok((false, i))
    }
}

/// Decimal digits with `_` between them, neither first nor last.
pub open spec fn well_grouped(b: Seq<u8>) -> bool {
    &&& !(b.len() > 0 && b[0] == 0x5f)
    &&& !(b.len() > 0 && b.last() == 0x5f)
    &&& forall|k: int| 0 <= k < b.len() ==> is_dec_byte(#[trigger] b[k]) || b[k] == 0x5f
}

/// The value of decimal digits, the `_` between them left out.
pub open spec fn grouped_value(b: Seq<u8>) -> int
    decreases b.len(),
{
    if b.len() == 0 {
        0
    } else if b.last() == 0x5f {
        grouped_value(b.drop_last())
    } else {
        grouped_value(b.drop_last()) * 10 + (b.last() - 0x30)
    }
}

/// Reading a magnitude at index `i`, in the `min..=max` form.
pub open spec fn grouped_at(toks: Seq<Token>, i: int) -> Result<(int, int), Seq<char>> {
    if 0 <= i < toks.len() {
        match toks[i] {
            Token::Literal(b) => {
                if !well_grouped(b@) {
                    Err("expected integer"@)
                } else if b@.len() == 0 || grouped_value(b@) > u128::MAX {
                    Err("value cannot be represented by any primitive integer"@)
                } else {
                    Ok((grouped_value(b@), i + 1))
                }
            },
            _ => Err("expected integer"@),
        }
    } else {
        Err("expected integer"@)
    }
}

/// Reading the punctuation `c` at index `i`.
pub open spec fn punct_at(toks: Seq<Token>, i: int, c: char) -> Result<int, Seq<char>> {
    if 0 <= i < toks.len() && toks[i] == Token::Punct(c) {
        Ok(i + 1)
    } else {
        Err("expected `"@ + seq![c] + "`"@)
    }
}

/// Reading `min..=max` from the start of the input, each bound an optional
/// sign and decimal digits.
pub open spec fn range_bounds_of(toks: Seq<Token>) -> Result<(Integer, Integer), Seq<char>> {
    match sign_at(toks, 0) {
        Err(e) => Err(e),
        Ok((min_negative, i1)) => match grouped_at(toks, i1) {
            Err(e) => Err(e),
            Ok((min, i2)) => match punct_at(toks, i2, '.') {
                Err(e) => Err(e),
                Ok(i3) => match punct_at(toks, i3, '.') {
                    Err(e) => Err(e),
                    Ok(i4) => match punct_at(toks, i4, '=') {
                        Err(e) => Err(e),
                        Ok(i5) => match sign_at(toks, i5) {
                            Err(e) => Err(e),
                            Ok((max_negative, i6)) => match grouped_at(toks, i6) {
                                Err(e) => Err(e),
                                Ok((max, _)) => Ok(
                                    (
                                        Integer {
                                            is_negative: min_negative,
                                            raw_value: min as u128,
                                            suffix: Suffix::Either,
                                        },
                                        Integer {
                                            is_negative: max_negative,
                                            raw_value: max as u128,
                                            suffix: Suffix::Either,
                                        },
                                    ),
                                ),
                            },
                        },
                    },
                },
            },
        },
    }
}

/// Relies on `String::push`: appends the character to the text.
#[verifier::external_body]
fn push_char(s: &mut String, c: char)
    ensures
        final(s)@ == old(s)@.push(c),
{
    s.push(c)
}

fn call_site(message: &str) -> (r: Diagnostic)
    ensures
        r.message@ == message@,
        r.span == Span::CallSite,
{
    Diagnostic { message: String::from_str(message), span: Span::CallSite }
}

/// Reads an optional sign at index `i`: whether it is a minus, and the index
/// after it.
pub fn parse_sign(tokens: &Vec<Token>, i: usize) -> (r: Result<(bool, usize), Diagnostic>)
    ensures
        r matches Ok((n, j)) ==> sign_at(tokens@, i as int) == Ok::<(bool, int), Seq<char>>((n, j as int)),
        r matches Err(d) ==> sign_at(tokens@, i as int) == Err::<(bool, int), Seq<char>>(d.message@)
            && d.span == Span::CallSite,
{
    if i < tokens.len() {
        match &tokens[i] {
            Token::Punct(c) => {
                if *c == '-' {
                    Ok((true, i + 1))
                } else if *c == '+' {
                    Ok((false, i + 1))
                } else {
                    Err(call_site("unexpected symbol"))
                }
            },
            _ => Ok((false, i)),
        }
    } else {
        Ok((false, i))
    }
}

proof fn lemma_grouped_prefix(b: Seq<u8>, k: int)
    requires
        0 <= k <= b.len(),
        forall|m: int| 0 <= m < b.len() ==> is_dec_byte(#[trigger] b[m]) || b[m] == 0x5f,
    ensures
        0 <= grouped_value(b.take(k)) <= grouped_value(b),
    decreases b.len(),
{
    if b.len() == 0 {
        assert(b.take(k) =~= b);
    } else {
        let d = b.drop_last();
        assert(forall|m: int| 0 <= m < d.len() ==> d[m] == b[m]);
        lemma_grouped_prefix(d, d.len() as int);
        assert(d.take(d.len() as int) =~= d);
        assert(is_dec_byte(b[b.len() - 1]) || b[b.len() - 1] == 0x5f);
        if k == b.len() {
            assert(b.take(k) =~= b);
        } else {
            assert(d.take(k) =~= b.take(k));
            lemma_grouped_prefix(d, k);
        }
    }
}

/// Reads decimal digits with `_` between them at index `i`, and gives
/// their value and the index after them.
pub fn parse_integer(tokens: &Vec<Token>, i: usize) -> (r: Result<(u128, usize), Diagnostic>)
    ensures
        r matches Ok((v, j)) ==> grouped_at(tokens@, i as int) == Ok::<(int, int), Seq<char>>((v as int, j as int)),
        r matches Err(d) ==> grouped_at(tokens@, i as int) == Err::<(int, int), Seq<char>>(d.message@)
            && d.span == Span::CallSite,
{
    if i >= tokens.len() {
        return Err(call_site("expected integer"));
    }
    let b = match &tokens[i] {
        Token::Literal(b) => b,
        _ => {
            return Err(call_site("expected integer"));
        },
    };
    assert(tokens@[i as int] == Token::Literal(*b));
    let len = b.len();
    if len > 0 && (b[0] == 0x5f || b[len - 1] == 0x5f) {
        return Err(call_site("expected integer"));
    }
    let mut k: usize = 0;
    while k < len
        invariant
            len == b@.len(),
            k <= len,
            i < tokens@.len(),
            tokens@[i as int] == Token::Literal(*b),
            forall|m: int| 0 <= m < k ==> is_dec_byte(#[trigger] b@[m]) || b@[m] == 0x5f,
        decreases len - k,
    {
        if !((0x30 <= b[k] && b[k] <= 0x39) || b[k] == 0x5f) {
            assert(!(is_dec_byte(b@[k as int]) || b@[k as int] == 0x5f));
            return Err(call_site("expected integer"));
        }
        k = k + 1;
    }
    if len == 0 {
        return Err(call_site("value cannot be represented by any primitive integer"));
    }
    let mut value: u128 = 0;
    let mut k: usize = 0;
    while k < len
        invariant
            len == b@.len(),
            k <= len,
            i < tokens@.len(),
            tokens@[i as int] == Token::Literal(*b),
            well_grouped(b@),
            value as int == grouped_value(b@.take(k as int)),
        decreases len - k,
    {
        assert(b@.take(k + 1).drop_last() =~= b@.take(k as int));
        assert(b@.take(k + 1).last() == b@[k as int]);
        if b[k] != 0x5f {
            let next = match value.checked_mul(10) {
                Some(m) => m.checked_add((b[k] - 0x30) as u128),
                None => None,
            };
            match next {
                Some(n) => {
                    value = n;
                },
                None => {
                    proof {
                        lemma_grouped_prefix(b@, k + 1);
                        assert(grouped_value(b@.take(k + 1)) == value * 10 + (b@[k as int] - 0x30));
                        assert(grouped_value(b@) > u128::MAX);
                    }
                    return Err(call_site("value cannot be represented by any primitive integer"));
                },
            }
        }
        k = k + 1;
    }
    assert(b@.take(len as int) =~= b@);
    Ok((value, i + 1))
}

/// Reads the punctuation `c` at index `i` and gives the index after it.
pub fn parse_punct(tokens: &Vec<Token>, i: usize, c: char) -> (r: Result<usize, Diagnostic>)
    ensures
        r matches Ok(j) ==> punct_at(tokens@, i as int, c) == Ok::<int, Seq<char>>(j as int),
        r matches Err(d) ==> punct_at(tokens@, i as int, c) == Err::<int, Seq<char>>(d.message@)
            && d.span == Span::CallSite,
{
    if i < tokens.len() {
        match &tokens[i] {
            Token::Punct(p) => {
                if *p == c {
                    return Ok(i + 1);
                }
            },
            _ => {},
        }
    }
    let mut message = String::from_str("expected `");
    push_char(&mut message, c);
    assert(("expected `"@).push(c) =~= "expected `"@ + seq![c]);
    let message = message.concat("`");
    Err(diagnostic(message, Span::CallSite))
}

/// Reads `min..=max` from the start of the input.
pub fn parse_range_bounds(tokens: &Vec<Token>) -> (r: Result<(Integer, Integer), Diagnostic>)
    ensures
        r matches Ok((min, max)) ==> range_bounds_of(tokens@) == Ok::<(Integer, Integer), Seq<char>>((min, max)),
        r matches Err(d) ==> range_bounds_of(tokens@) == Err::<(Integer, Integer), Seq<char>>(d.message@)
            && d.span == Span::CallSite,
{
    let (min_negative, i1) = match parse_sign(tokens, 0) {
        Ok(p) => p,
        Err(d) => return Err(d),
    };
    let (min, i2) = match parse_integer(tokens, i1) {
        Ok(p) => p,
        Err(d) => return Err(d),
    };
    let i3 = match parse_punct(tokens, i2, '.') {
        Ok(j) => j,
        Err(d) => return Err(d),
    };
    let i4 = match parse_punct(tokens, i3, '.') {
        Ok(j) => j,
        Err(d) => return Err(d),
    };
    let i5 = match parse_punct(tokens, i4, '=') {
        Ok(j) => j,
        Err(d) => return Err(d),
    };
    let (max_negative, i6) = match parse_sign(tokens, i5) {
        Ok(p) => p,
        Err(d) => return Err(d),
    };
    let (max, _) = match parse_integer(tokens, i6) {
        Ok(p) => p,
        Err(d) => return Err(d),
    };
    Ok(
        (
            Integer { is_negative: min_negative, raw_value: min, suffix: Suffix::Either },
            Integer { is_negative: max_negative, raw_value: max, suffix: Suffix::Either },
        ),
    )
}

/// Reads `min..=max` and chooses the kind of the bounded type it names.
pub fn resolve_range(tokens: &Vec<Token>) -> (r: Result<MinMax, Diagnostic>)
    ensures
        range_bounds_of(tokens@) matches Err(m) ==> (r matches Err(d) && d.message@ == m),
        range_bounds_of(tokens@) matches Ok((min, max)) ==> (r is Ok <==> resolve(min, max) is Some),
        range_bounds_of(tokens@) matches Ok((min, max)) ==> (r matches Ok(mm) ==> resolve(min, max)
            == Some(mm.kind()) && mm.min_int() == min.value() && mm.max_int() == max.value()),
        range_bounds_of(tokens@) is Ok ==> (r matches Err(d) ==> d.message@
            == "minimum-maximum pair cannot be represented by a single primitive integer"@),
        r matches Err(d) ==> d.span == Span::CallSite,
{
    let (min, max) = match parse_range_bounds(tokens) {
        Ok(p) => p,
        Err(d) => return Err(d),
    };
    match MinMax::from_min_max(&min, &max) {
        Ok(mm) => Ok(mm),
        Err(_) => Err(
            call_site("minimum-maximum pair cannot be represented by a single primitive integer"),
        ),
    }
}

} // verus!
