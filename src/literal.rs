//! Integer literals as a bound is written: an optional base prefix, digits with
//! optional `_` separators, and an optional `u` or `i` suffix.
use vstd::prelude::*;

use vstd::string::{StringExecFns, StringSliceAdditionalSpecFns};

use crate::primitive::{is_signed, Primitive, Wide};

verus! {

/// The suffix of an integer literal.
#[derive(Debug, Clone, Copy, PartialEq, Eq, Structural)]
pub enum Suffix {
    /// The suffix was `u`: only an unsigned kind may hold the literal.
    Unsigned,
    /// The suffix was `i`: only a signed kind may hold the literal.
    Signed,
    /// No suffix.
    Either,
}

/// Why the text of a literal was refused.
#[derive(Debug, Clone, Copy, PartialEq, Eq, Structural)]
pub enum LiteralError {
    /// Not an integer literal: no digit, a float, or no literal at all.
    NotLiteral,
    /// A digit that the base does not have.
    InvalidDigit,
    /// A negative value whose magnitude does not fit in 128 bits.
    TooSmall,
    /// A positive value whose magnitude does not fit in 128 bits (above `u128::MAX`).
    TooLarge,
    /// A negative value with the `u` suffix.
    NegativeUnsigned,
    /// A suffix other than `u` or `i`.
    BadSuffix,
}

impl LiteralError {
    /// The diagnostic for this error; `what` names the literal ("minimum value").
    pub open spec fn spec_message(self, what: Seq<char>) -> Seq<char> {
        match self {
            LiteralError::NotLiteral => what + " must be an integer literal"@,
            LiteralError::InvalidDigit => "invalid digit for base"@,
            LiteralError::TooSmall => "value too small to be represented by a primitive integer"@,
            LiteralError::TooLarge => "value too large to be represented by a primitive integer"@,
            LiteralError::NegativeUnsigned => "unsigned integer cannot be negative"@,
            LiteralError::BadSuffix => "integer suffix must be `u`, `i`, or omitted"@,
        }
    }

    pub fn message(&self, what: &str) -> (r: String)
        ensures
            r@ == self.spec_message(what@),
    {
        match self {
            LiteralError::NotLiteral => String::from_str(what).concat(
                " must be an integer literal",
            ),
            LiteralError::InvalidDigit => String::from_str("invalid digit for base"),
            LiteralError::TooSmall => String::from_str(
                "value too small to be represented by a primitive integer",
            ),
            LiteralError::TooLarge => String::from_str(
                "value too large to be represented by a primitive integer",
            ),
            LiteralError::NegativeUnsigned => String::from_str(
                "unsigned integer cannot be negative",
            ),
            LiteralError::BadSuffix => String::from_str(
                "integer suffix must be `u`, `i`, or omitted",
            ),
        }
    }
}

pub open spec fn is_dec_byte(b: u8) -> bool {
    0x30 <= b <= 0x39
}

pub open spec fn is_hex_letter(b: u8) -> bool {
    (0x61 <= b <= 0x66) || (0x41 <= b <= 0x46)
}

/// The value of a digit byte: `0`-`9`, then `a`-`f` and `A`-`F` from ten.
pub open spec fn digit_value(b: u8) -> int {
    if is_dec_byte(b) {
        b - 0x30
    } else if 0x61 <= b <= 0x66 {
        b - 0x61 + 10
    } else {
        b - 0x41 + 10
    }
}

/// Where the digits of a literal end.
pub enum Scan {
    /// The digits end before index `end`, with this value; `seen` tells
    /// whether there was at least one digit.
    Done { value: int, seen: bool, end: int },
    /// The digits are refused.
    Fail { error: LiteralError },
}

/// Reads digits from index `i` on, left to right, with `acc` the value of
/// those before: the first refusal met decides.
pub open spec fn scan(s: Seq<u8>, i: int, base: int, negative: bool, acc: int, seen: bool) -> Scan
    decreases s.len() - i,
{
    if i < 0 || i >= s.len() {
        Scan::Done { value: acc, seen, end: i }
    } else if is_dec_byte(s[i]) || (base > 10 && is_hex_letter(s[i])) {
        if digit_value(s[i]) >= base {
            Scan::Fail { error: LiteralError::InvalidDigit }
        } else if acc * base + digit_value(s[i]) > u128::MAX {
            Scan::Fail {
                error: if negative {
                    LiteralError::TooSmall
                } else {
                    LiteralError::TooLarge
                },
            }
        } else {
            scan(s, i + 1, base, negative, acc * base + digit_value(s[i]), true)
        }
    } else if s[i] == 0x5f {
        scan(s, i + 1, base, negative, acc, seen)
    } else if s[i] == 0x2e || s[i] == 0x65 || s[i] == 0x45 {
        Scan::Fail { error: LiteralError::NotLiteral }
    } else {
        Scan::Done { value: acc, seen, end: i }
    }
}

/// The base a literal is written in and where its digits start, if it starts
/// as an integer literal does: `0x`, `0o`, `0b`, or a decimal digit.
pub open spec fn base_prefix(s: Seq<u8>) -> Option<(int, int)> {
    if s.len() >= 2 && s[0] == 0x30 && s[1] == 0x78 {
        Some((16, 2))
    } else if s.len() >= 2 && s[0] == 0x30 && s[1] == 0x6f {
        Some((8, 2))
    } else if s.len() >= 2 && s[0] == 0x30 && s[1] == 0x62 {
        Some((2, 2))
    } else if s.len() >= 1 && is_dec_byte(s[0]) {
        Some((10, 0))
    } else {
        None
    }
}

/// The suffix that the bytes after the digits spell, for a literal with or
/// without a minus sign before it.
pub open spec fn suffix_of(rest: Seq<u8>, negative: bool) -> Result<Suffix, LiteralError> {
    if rest.len() == 0 {
        Ok(Suffix::Either)
    } else if rest =~= seq![0x75u8] {
        if negative {
            Err(LiteralError::NegativeUnsigned)
        } else {
            Ok(Suffix::Unsigned)
        }
    } else if rest =~= seq![0x69u8] {
        Ok(Suffix::Signed)
    } else {
        Err(LiteralError::BadSuffix)
    }
}

/// The magnitude and suffix of the literal `s`, or why it is refused.
pub open spec fn literal_of(s: Seq<u8>, negative: bool) -> Result<(int, Suffix), LiteralError> {
    match base_prefix(s) {
        None => Err(LiteralError::NotLiteral),
        Some((base, start)) => match scan(s, start, base, negative, 0, false) {
            Scan::Fail { error } => Err(error),
            Scan::Done { value, seen, end } => {
                if !seen {
                    Err(LiteralError::NotLiteral)
                } else {
                    match suffix_of(s.subrange(end, s.len() as int), negative) {
                        Ok(suffix) => Ok((value, suffix)),
                        Err(e) => Err(e),
                    }
                }
            },
        },
    }
}

/// Reads the text of a literal (without its minus sign, which `is_negative`
/// gives) into its magnitude and suffix.
pub fn parse_literal(is_negative: bool, bytes: &[u8]) -> (r: Result<(u128, Suffix), LiteralError>)
    ensures
        r matches Ok(p) ==> literal_of(bytes@, is_negative) == Ok::<(int, Suffix), LiteralError>((p.0 as int, p.1)),
        r matches Err(e) ==> literal_of(bytes@, is_negative) == Err::<(int, Suffix), LiteralError>(e),
{
    let len = bytes.len();
    let ghost sb = bytes@;
    let (base, start): (u128, usize) = if len >= 2 && bytes[0] == 0x30 && bytes[1] == 0x78 {
        (16, 2)
    } else if len >= 2 && bytes[0] == 0x30 && bytes[1] == 0x6f {
        (8, 2)
    } else if len >= 2 && bytes[0] == 0x30 && bytes[1] == 0x62 {
        (2, 2)
    } else if len >= 1 && 0x30 <= bytes[0] && bytes[0] <= 0x39 {
        (10, 0)
    } else {
        return Err(LiteralError::NotLiteral);
    };
    let mut value: u128 = 0;
    let mut seen = false;
    let mut i: usize = start;
    while i < len
        invariant
            len == sb.len(),
            bytes@ == sb,
            base_prefix(sb) == Some((base as int, start as int)),
            start <= i <= len,
            scan(sb, i as int, base as int, is_negative, value as int, seen) == scan(
                sb,
                start as int,
                base as int,
                is_negative,
                0,
                false,
            ),
        ensures
            scan(sb, i as int, base as int, is_negative, value as int, seen) == (Scan::Done {
                value: value as int,
                seen,
                end: i as int,
            }),
            base_prefix(sb) == Some((base as int, start as int)),
            start <= i <= len,
        decreases len - i,
    {
        let b = bytes[i];
        if (0x30 <= b && b <= 0x39) || (base > 10 && ((0x61 <= b && b <= 0x66) || (0x41 <= b
            && b <= 0x46))) {
            let digit: u128 = if 0x30 <= b && b <= 0x39 {
                (b - 0x30) as u128
            } else if 0x61 <= b && b <= 0x66 {
                (b - 0x61 + 10) as u128
            } else {
                (b - 0x41 + 10) as u128
            };
            if digit >= base {
                return Err(LiteralError::InvalidDigit);
            }
            let next = match value.checked_mul(base) {
                Some(m) => m.checked_add(digit),
                None => None,
            };
            match next {
                Some(n) => {
                    value = n;
                    seen = true;
                },
                None => {
                    return Err(
                        if is_negative {
                            LiteralError::TooSmall
                        } else {
                            LiteralError::TooLarge
                        },
                    );
                },
            }
        } else if b == 0x5f {
        } else if b == 0x2e || b == 0x65 || b == 0x45 {
            return Err(LiteralError::NotLiteral);
        } else {
            break;
        }
        i = i + 1;
    }
    if !seen {
        return Err(LiteralError::NotLiteral);
    }
    let rest_len = len - i;
    let ghost rest = sb.subrange(i as int, len as int);
    proof {
        if rest_len == 1 {
            assert(rest[0] == bytes[i as int]);
            assert(rest =~= seq![bytes[i as int]]);
        }
        if rest_len == 0 {
            assert(rest.len() == 0);
        }
        assert(seq![0x75u8][0] == 0x75u8);
        assert(seq![0x69u8][0] == 0x69u8);
        assert(seq![0x75u8].len() == 1);
    }
    let suffix = if rest_len == 0 {
        Suffix::Either
    } else if rest_len == 1 && bytes[i] == 0x75 {
        if is_negative {
            return Err(LiteralError::NegativeUnsigned);
        }
        Suffix::Unsigned
    } else if rest_len == 1 && bytes[i] == 0x69 {
        Suffix::Signed
    } else {
        return Err(LiteralError::BadSuffix);
    };
    Ok((value, suffix))
}

/// Reads a literal bound into its magnitude and suffix, or into the
/// diagnostic that names the literal as `what` ("minimum value").
pub fn parse_lit_int(is_negative: bool, s: &str, what: &str) -> (r: Result<(u128, Suffix), String>)
    ensures
        r matches Ok(p) ==> literal_of(s.spec_bytes(), is_negative) == Ok::<(int, Suffix), LiteralError>((p.0 as int, p.1)),
        r matches Err(m) ==> (literal_of(s.spec_bytes(), is_negative) matches Err(e) && m@
            == e.spec_message(what@)),
{
    match parse_literal(is_negative, s.as_bytes()) {
        Ok(p) => Ok(p),
        Err(e) => Err(e.message(what)),
    }
}

/// An integer literal: its sign, its magnitude, and its suffix.
#[derive(Debug, Clone, Copy, PartialEq, Eq, Structural)]
pub struct Integer {
    pub is_negative: bool,
    pub raw_value: u128,
    pub suffix: Suffix,
}

impl Integer {
    /// The integer the literal denotes.
    pub open spec fn value(self) -> int {
        if self.is_negative {
            -(self.raw_value as int)
        } else {
            self.raw_value as int
        }
    }

    pub open spec fn spec_can_be_unsigned(self) -> bool {
        !self.is_negative && (self.suffix == Suffix::Unsigned || self.suffix == Suffix::Either)
    }

    pub open spec fn spec_can_be_signed(self) -> bool {
        self.suffix == Suffix::Signed || self.suffix == Suffix::Either
    }

    /// Reads the literal `s`, with a minus sign before it where `is_negative`.
    pub fn from_literal(is_negative: bool, s: &str) -> (r: Result<Integer, LiteralError>)
        ensures
            r matches Ok(i) ==> i.is_negative == is_negative && literal_of(s.spec_bytes(), is_negative)
                == Ok::<(int, Suffix), LiteralError>((i.raw_value as int, i.suffix)),
            r matches Err(e) ==> literal_of(s.spec_bytes(), is_negative) == Err::<(int, Suffix), LiteralError>(e),
    {
        match parse_literal(is_negative, s.as_bytes()) {
            Ok((raw_value, suffix)) => Ok(Integer { is_negative, raw_value, suffix }),
            Err(e) => Err(e),
        }
    }

    /// Whether an unsigned kind may hold the literal: it has no minus sign and
    /// no `i` suffix.
    pub fn can_be_unsigned(&self) -> (r: bool)
        ensures
            r == self.spec_can_be_unsigned(),
    {
        !self.is_negative && match self.suffix {
            Suffix::Unsigned | Suffix::Either => true,
            Suffix::Signed => false,
        }
    }

    /// Whether a signed kind may hold the literal: it has no `u` suffix.
    pub fn can_be_signed(&self) -> (r: bool)
        ensures
            r == self.spec_can_be_signed(),
    {
        match self.suffix {
            Suffix::Signed | Suffix::Either => true,
            Suffix::Unsigned => false,
        }
    }

    /// The literal in the unsigned kind `T`, where the literal allows an
    /// unsigned kind and its value fits.
    pub fn to_unsigned<T: Primitive>(&self) -> (r: Option<T>)
        requires
            !is_signed::<T>(),
        ensures
            r is Some <==> self.spec_can_be_unsigned() && self.value() <= T::hi(),
            r matches Some(v) ==> v.to_int() == self.value(),
    {
        proof {
            T::lemma_domain();
        }
        if self.can_be_unsigned() {
            T::from_wide(Wide { negative: false, magnitude: self.raw_value })
        } else {
            None
        }
    }

    /// The literal in the signed kind `T`, where the literal allows a signed
    /// kind and its value fits.
    pub fn to_signed<T: Primitive>(&self) -> (r: Option<T>)
        requires
            is_signed::<T>(),
        ensures
            r is Some <==> self.spec_can_be_signed() && T::lo() <= self.value() <= T::hi(),
            r matches Some(v) ==> v.to_int() == self.value(),
    {
        if self.can_be_signed() {
            T::from_wide(Wide { negative: self.is_negative, magnitude: self.raw_value })
        } else {
            None
        }
    }
}

} // verus!
