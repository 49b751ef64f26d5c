//! The primitive integer kinds that a bounded integer can be stored in.
//!
//! Each kind is described to the verifier by its domain (`lo()..=hi()`) and by
//! the mathematical meaning (`to_int`) of each of its values; the arithmetic
//! that the bounded types need is given with contracts over those integers.
use vstd::prelude::*;

use crate::error::IntErrorKind;
use vstd::arithmetic::div_mod::lemma_small_mod;

verus! {

/// An integer as a sign and a magnitude: wide enough for every value of
/// every primitive kind.
#[derive(Clone, Copy, Debug, PartialEq, Eq)]
pub struct Wide {
    pub negative: bool,
    pub magnitude: u128,
}

impl Wide {
    /// The integer this record stands for (a negative zero is zero).
    pub open spec fn value(self) -> int {
        if self.negative {
            -(self.magnitude as int)
        } else {
            self.magnitude as int
        }
    }

    /// Compares two records by the integers they stand for.
    pub fn le(self, other: Wide) -> (r: bool)
        ensures
            r == (self.value() <= other.value()),
    {
        let self_neg = self.negative && self.magnitude != 0;
        let other_neg = other.negative && other.magnitude != 0;
        if self_neg && !other_neg {
            true
        } else if !self_neg && other_neg {
            false
        } else if self_neg {
            other.magnitude <= self.magnitude
        } else {
            self.magnitude <= other.magnitude
        }
    }

    /// Whether two records stand for the same integer.
    pub fn same_value(self, other: Wide) -> (r: bool)
        ensures
            r == (self.value() == other.value()),
    {
        self.le(other) && other.le(self)
    }
}

/// Quotient of `x / d` rounded toward zero, as Rust's `/` computes it.
pub open spec fn trunc_div(x: int, d: int) -> int {
    if x == 0 {
        0
    } else if x > 0 && d > 0 {
        x / d
    } else if x < 0 && d < 0 {
        (x * -1) / (d * -1)
    } else if x < 0 {
        ((x * -1) / d) * -1
    } else {
        (x / (d * -1)) * -1
    }
}

/// Remainder of `x / d` with the sign of `x`, as Rust's `%` computes it.
pub open spec fn trunc_rem(x: int, d: int) -> int {
    if x == 0 {
        0
    } else if x > 0 && d > 0 {
        x % d
    } else if x < 0 && d < 0 {
        ((x * -1) % (d * -1)) * -1
    } else if x < 0 {
        ((x * -1) % d) * -1
    } else {
        x % (d * -1)
    }
}

pub open spec fn is_decimal_digit(c: char) -> bool {
    '0' <= c && c <= '9'
}

/// The value of a string of decimal digits.
pub open spec fn decimal_value(s: Seq<char>) -> int
    decreases s.len(),
{
    if s.len() == 0 {
        0
    } else {
        decimal_value(s.drop_last()) * 10 + (s.last() as int - '0' as int)
    }
}

/// Length of the sign that std's integer parser strips: `+`, and `-` for a
/// signed kind.
pub open spec fn sign_len(s: Seq<char>, signed: bool) -> int {
    if s.len() > 0 && (s[0] == '+' || (signed && s[0] == '-')) {
        1
    } else {
        0
    }
}

/// An optional sign followed by at least one decimal digit, and nothing else.
pub open spec fn is_int_text(s: Seq<char>, signed: bool) -> bool {
    &&& s.len() > sign_len(s, signed)
    &&& forall|i: int| sign_len(s, signed) <= i < s.len() ==> is_decimal_digit(#[trigger] s[i])
}

/// The integer that a text accepted by `is_int_text` denotes.
pub open spec fn int_text_value(s: Seq<char>, signed: bool) -> int {
    let m = decimal_value(s.skip(sign_len(s, signed)));
    if signed && s.len() > 0 && s[0] == '-' {
        -m
    } else {
        m
    }
}

/// Text with no digit right after its optional sign: a lone sign, or a
/// character other than a digit there.
pub open spec fn no_leading_digit(s: Seq<char>, signed: bool) -> bool {
    &&& s.len() > 0
    &&& (s.len() == sign_len(s, signed) || !is_decimal_digit(s[sign_len(s, signed)]))
}

/// The kind of error that std's parser for the primitive kind with domain
/// `lo..=hi` reports on the text `s`, where it reports one.
pub uninterp spec fn int_parse_error(s: Seq<char>, lo: int, hi: int) -> IntErrorKind;

pub open spec fn is_signed<T: Primitive>() -> bool {
    T::lo() < 0
}

pub open spec fn in_domain<T: Primitive>(x: int) -> bool {
    T::lo() <= x <= T::hi()
}

/// A primitive integer kind, with the operations of its own that the bounded
/// types rely on.
pub trait Primitive: Copy + Sized {
    /// The mathematical value of a primitive value.
    spec fn to_int(self) -> int;

    /// The smallest value of the kind.
    spec fn lo() -> int;

    /// The largest value of the kind.
    spec fn hi() -> int;

    /// The width of the kind in bits.
    spec fn bits() -> u32;

    /// `self << rhs`, for `rhs < bits()`: the bits shifted out are lost.
    spec fn shl_spec(self, rhs: u32) -> Self;

    /// `self >> rhs`, for `rhs < bits()`: arithmetic for a signed kind.
    spec fn shr_spec(self, rhs: u32) -> Self;

    proof fn lemma_in_domain(self)
        ensures
            Self::lo() <= self.to_int() <= Self::hi(),
    ;

    proof fn lemma_domain()
        ensures
            Self::lo() <= 0 < Self::hi(),
            Self::lo() == 0 || Self::lo() == -Self::hi() - 1,
            127 <= Self::hi(),
            Self::hi() < 0x1_0000_0000_0000_0000_0000_0000_0000_0000,
            Self::lo() >= -0x8000_0000_0000_0000_0000_0000_0000_0000,
    ;

    proof fn lemma_injective(a: Self, b: Self)
        ensures
            a.to_int() == b.to_int() ==> a == b,
    ;

    fn zero() -> (r: Self)
        ensures
            r.to_int() == 0,
    ;

    fn one() -> (r: Self)
        ensures
            r.to_int() == 1,
    ;

    fn domain_min() -> (r: Self)
        ensures
            r.to_int() == Self::lo(),
    ;

    fn domain_max() -> (r: Self)
        ensures
            r.to_int() == Self::hi(),
    ;

    fn le(self, other: Self) -> (r: bool)
        ensures
            r == (self.to_int() <= other.to_int()),
    ;

    fn checked_add(self, rhs: Self) -> (r: Option<Self>)
        ensures
            r is Some <==> Self::lo() <= self.to_int() + rhs.to_int() <= Self::hi(),
            r matches Some(v) ==> v.to_int() == self.to_int() + rhs.to_int(),
    ;

    fn checked_sub(self, rhs: Self) -> (r: Option<Self>)
        ensures
            r is Some <==> Self::lo() <= self.to_int() - rhs.to_int() <= Self::hi(),
            r matches Some(v) ==> v.to_int() == self.to_int() - rhs.to_int(),
    ;

    fn checked_mul(self, rhs: Self) -> (r: Option<Self>)
        ensures
            r is Some <==> Self::lo() <= self.to_int() * rhs.to_int() <= Self::hi(),
            r matches Some(v) ==> v.to_int() == self.to_int() * rhs.to_int(),
    ;

    fn checked_div(self, rhs: Self) -> (r: Option<Self>)
        ensures
            r is Some <==> rhs.to_int() != 0 && Self::lo() <= trunc_div(self.to_int(), rhs.to_int()) <= Self::hi(),
            r matches Some(v) ==> v.to_int() == trunc_div(self.to_int(), rhs.to_int()),
    ;

    fn checked_div_euclid(self, rhs: Self) -> (r: Option<Self>)
        ensures
            r is Some <==> rhs.to_int() != 0 && Self::lo() <= self.to_int() / rhs.to_int() <= Self::hi(),
            r matches Some(v) ==> v.to_int() == self.to_int() / rhs.to_int(),
    ;

    fn checked_rem(self, rhs: Self) -> (r: Option<Self>)
        ensures
            r is Some <==> rhs.to_int() != 0 && !(self.to_int() == Self::lo() && rhs.to_int()
                == -1),
            r matches Some(v) ==> v.to_int() == trunc_rem(self.to_int(), rhs.to_int()),
    ;

    fn checked_rem_euclid(self, rhs: Self) -> (r: Option<Self>)
        ensures
            r is Some <==> rhs.to_int() != 0 && !(self.to_int() == Self::lo() && rhs.to_int()
                == -1),
            r matches Some(v) ==> v.to_int() == self.to_int() % rhs.to_int(),
    ;

    fn checked_shl(self, rhs: u32) -> (r: Option<Self>)
        ensures
            r == (if rhs < Self::bits() {
                Some(self.shl_spec(rhs))
            } else {
                None
            }),
    ;

    fn checked_shr(self, rhs: u32) -> (r: Option<Self>)
        ensures
            r == (if rhs < Self::bits() {
                Some(self.shr_spec(rhs))
            } else {
                None
            }),
    ;

    fn to_wide(self) -> (r: Wide)
        ensures
            r.value() == self.to_int(),
    ;

    fn from_wide(w: Wide) -> (r: Option<Self>)
        ensures
            r is Some <==> Self::lo() <= w.value() <= Self::hi(),
            r matches Some(v) ==> v.to_int() == w.value(),
    ;

    /// Parses decimal text as std's `FromStr` for the kind does.
    fn parse(s: &str) -> (r: Result<Self, IntErrorKind>)
        ensures
            r is Ok <==> is_int_text(s@, Self::lo() < 0) && Self::lo() <= int_text_value(s@, Self::lo() < 0) <= Self::hi(),
            r matches Ok(v) ==> v.to_int() == int_text_value(s@, Self::lo() < 0),
            r matches Err(k) ==> k == int_parse_error(s@, Self::lo(), Self::hi()),
            no_leading_digit(s@, Self::lo() < 0) ==> r matches Err(IntErrorKind::InvalidDigit),
            s@.len() == 0 ==> r matches Err(IntErrorKind::Empty),
            r matches Err(k) ==> k != IntErrorKind::Zero && (k == IntErrorKind::Empty ==> s@.len()
                == 0),
            is_int_text(s@, Self::lo() < 0) && int_text_value(s@, Self::lo() < 0)
                > Self::hi() ==> r matches Err(IntErrorKind::PosOverflow),
            is_int_text(s@, Self::lo() < 0) && int_text_value(s@, Self::lo() < 0)
                < Self::lo() ==> r matches Err(IntErrorKind::NegOverflow),
    ;
}

impl Primitive for u8 {
    open spec fn to_int(self) -> int {
        self as int
    }

    open spec fn lo() -> int {
        u8::MIN as int
    }

    open spec fn hi() -> int {
        u8::MAX as int
    }

    open spec fn bits() -> u32 {
        u8::BITS
    }

    open spec fn shl_spec(self, rhs: u32) -> u8 {
        self << rhs
    }

    open spec fn shr_spec(self, rhs: u32) -> u8 {
        self >> rhs
    }

    proof fn lemma_in_domain(self) {
    }

    proof fn lemma_domain() {
    }

    proof fn lemma_injective(a: u8, b: u8) {
    }

    fn zero() -> (r: u8) {
        0
    }

    fn one() -> (r: u8) {
        1
    }

    fn domain_min() -> (r: u8) {
        u8::MIN
    }

    fn domain_max() -> (r: u8) {
        u8::MAX
    }

    fn le(self, other: u8) -> (r: bool) {
        self <= other
    }

    fn checked_add(self, rhs: u8) -> (r: Option<u8>) {
        self.checked_add(rhs)
    }

    fn checked_sub(self, rhs: u8) -> (r: Option<u8>) {
        self.checked_sub(rhs)
    }

    fn checked_mul(self, rhs: u8) -> (r: Option<u8>) {
        self.checked_mul(rhs)
    }

    fn checked_div(self, rhs: u8) -> (r: Option<u8>) {
        self.checked_div(rhs)
    }

    fn checked_div_euclid(self, rhs: u8) -> (r: Option<u8>) {
        self.checked_div_euclid(rhs)
    }

    fn checked_rem(self, rhs: u8) -> (r: Option<u8>) {
        proof {
            if rhs != 0 {
                lemma_small_mod(0, rhs as nat);
            }
        }
        self.checked_rem(rhs)
    }

    fn checked_rem_euclid(self, rhs: u8) -> (r: Option<u8>) {
        self.checked_rem_euclid(rhs)
    }

    fn checked_shl(self, rhs: u32) -> (r: Option<u8>) {
        if rhs < u8::BITS {
            Some(self << rhs)
        } else {
            None
        }
    }

    fn checked_shr(self, rhs: u32) -> (r: Option<u8>) {
        if rhs < u8::BITS {
            Some(self >> rhs)
        } else {
            None
        }
    }

    fn to_wide(self) -> (r: Wide) {
        Wide { negative: false, magnitude: self as u128 }
    }

    fn from_wide(w: Wide) -> (r: Option<u8>) {
        if w.negative && w.magnitude != 0 {
            None
        } else if w.magnitude <= u8::MAX as u128 {
            Some(w.magnitude as u8)
        } else {
            None
        }
    }

    fn parse(s: &str) -> (r: Result<u8, IntErrorKind>) {
        parse_u8(s)
    }
}

/// Relies on std's `FromStr` for `u8`: the value of decimal text; otherwise
/// an error whose kind depends on the text alone, `Empty` only for empty text
/// and `InvalidDigit` where no digit follows the optional sign, as its
/// documentation gives them.
#[verifier::external_body]
fn parse_u8(s: &str) -> (r: Result<u8, IntErrorKind>)
    ensures
        r is Ok <==> (is_int_text(s@, false) && u8::MIN <= int_text_value(s@, false) <= u8::MAX),
        r matches Ok(v) ==> v as int == int_text_value(s@, false),
        r matches Err(k) ==> k == int_parse_error(s@, u8::MIN as int, u8::MAX as int),
        no_leading_digit(s@, false) ==> r matches Err(IntErrorKind::InvalidDigit),
        s@.len() == 0 ==> r matches Err(IntErrorKind::Empty),
        r matches Err(k) ==> k != IntErrorKind::Zero && (k == IntErrorKind::Empty ==> s@.len()
            == 0),
        is_int_text(s@, false) && int_text_value(s@, false) > u8::MAX
            ==> r matches Err(IntErrorKind::PosOverflow),
        is_int_text(s@, false) && int_text_value(s@, false) < u8::MIN
            ==> r matches Err(IntErrorKind::NegOverflow),
{
    match s.parse::<u8>() {
        Ok(v) => Ok(v),
        Err(e) => Err(match e.kind() {
            core::num::IntErrorKind::Empty => IntErrorKind::Empty,
            core::num::IntErrorKind::PosOverflow => IntErrorKind::PosOverflow,
            core::num::IntErrorKind::NegOverflow => IntErrorKind::NegOverflow,
            // `InvalidDigit`, and `Zero`, which no primitive kind reports.
            _ => IntErrorKind::InvalidDigit,
        }),
    }
}

impl Primitive for u16 {
    open spec fn to_int(self) -> int {
        self as int
    }

    open spec fn lo() -> int {
        u16::MIN as int
    }

    open spec fn hi() -> int {
        u16::MAX as int
    }

    open spec fn bits() -> u32 {
        u16::BITS
    }

    open spec fn shl_spec(self, rhs: u32) -> u16 {
        self << rhs
    }

    open spec fn shr_spec(self, rhs: u32) -> u16 {
        self >> rhs
    }

    proof fn lemma_in_domain(self) {
    }

    proof fn lemma_domain() {
    }

    proof fn lemma_injective(a: u16, b: u16) {
    }

    fn zero() -> (r: u16) {
        0
    }

    fn one() -> (r: u16) {
        1
    }

    fn domain_min() -> (r: u16) {
        u16::MIN
    }

    fn domain_max() -> (r: u16) {
        u16::MAX
    }

    fn le(self, other: u16) -> (r: bool) {
        self <= other
    }

    fn checked_add(self, rhs: u16) -> (r: Option<u16>) {
        self.checked_add(rhs)
    }

    fn checked_sub(self, rhs: u16) -> (r: Option<u16>) {
        self.checked_sub(rhs)
    }

    fn checked_mul(self, rhs: u16) -> (r: Option<u16>) {
        self.checked_mul(rhs)
    }

    fn checked_div(self, rhs: u16) -> (r: Option<u16>) {
        self.checked_div(rhs)
    }

    fn checked_div_euclid(self, rhs: u16) -> (r: Option<u16>) {
        self.checked_div_euclid(rhs)
    }

    fn checked_rem(self, rhs: u16) -> (r: Option<u16>) {
        proof {
            if rhs != 0 {
                lemma_small_mod(0, rhs as nat);
            }
        }
        self.checked_rem(rhs)
    }

    fn checked_rem_euclid(self, rhs: u16) -> (r: Option<u16>) {
        self.checked_rem_euclid(rhs)
    }

    fn checked_shl(self, rhs: u32) -> (r: Option<u16>) {
        if rhs < u16::BITS {
            Some(self << rhs)
        } else {
            None
        }
    }

    fn checked_shr(self, rhs: u32) -> (r: Option<u16>) {
        if rhs < u16::BITS {
            Some(self >> rhs)
        } else {
            None
        }
    }

    fn to_wide(self) -> (r: Wide) {
        Wide { negative: false, magnitude: self as u128 }
    }

    fn from_wide(w: Wide) -> (r: Option<u16>) {
        if w.negative && w.magnitude != 0 {
            None
        } else if w.magnitude <= u16::MAX as u128 {
            Some(w.magnitude as u16)
        } else {
            None
        }
    }

    fn parse(s: &str) -> (r: Result<u16, IntErrorKind>) {
        parse_u16(s)
    }
}

/// Relies on std's `FromStr` for `u16`: the value of decimal text; otherwise
/// an error whose kind depends on the text alone, `Empty` only for empty text
/// and `InvalidDigit` where no digit follows the optional sign, as its
/// documentation gives them.
#[verifier::external_body]
fn parse_u16(s: &str) -> (r: Result<u16, IntErrorKind>)
    ensures
        r is Ok <==> (is_int_text(s@, false) && u16::MIN <= int_text_value(s@, false) <= u16::MAX),
        r matches Ok(v) ==> v as int == int_text_value(s@, false),
        r matches Err(k) ==> k == int_parse_error(s@, u16::MIN as int, u16::MAX as int),
        no_leading_digit(s@, false) ==> r matches Err(IntErrorKind::InvalidDigit),
        s@.len() == 0 ==> r matches Err(IntErrorKind::Empty),
        r matches Err(k) ==> k != IntErrorKind::Zero && (k == IntErrorKind::Empty ==> s@.len()
            == 0),
        is_int_text(s@, false) && int_text_value(s@, false) > u16::MAX
            ==> r matches Err(IntErrorKind::PosOverflow),
        is_int_text(s@, false) && int_text_value(s@, false) < u16::MIN
            ==> r matches Err(IntErrorKind::NegOverflow),
{
    match s.parse::<u16>() {
        Ok(v) => Ok(v),
        Err(e) => Err(match e.kind() {
            core::num::IntErrorKind::Empty => IntErrorKind::Empty,
            core::num::IntErrorKind::PosOverflow => IntErrorKind::PosOverflow,
            core::num::IntErrorKind::NegOverflow => IntErrorKind::NegOverflow,
            // `InvalidDigit`, and `Zero`, which no primitive kind reports.
            _ => IntErrorKind::InvalidDigit,
        }),
    }
}

impl Primitive for u32 {
    open spec fn to_int(self) -> int {
        self as int
    }

    open spec fn lo() -> int {
        u32::MIN as int
    }

    open spec fn hi() -> int {
        u32::MAX as int
    }

    open spec fn bits() -> u32 {
        u32::BITS
    }

    open spec fn shl_spec(self, rhs: u32) -> u32 {
        self << rhs
    }

    open spec fn shr_spec(self, rhs: u32) -> u32 {
        self >> rhs
    }

    proof fn lemma_in_domain(self) {
    }

    proof fn lemma_domain() {
    }

    proof fn lemma_injective(a: u32, b: u32) {
    }

    fn zero() -> (r: u32) {
        0
    }

    fn one() -> (r: u32) {
        1
    }

    fn domain_min() -> (r: u32) {
        u32::MIN
    }

    fn domain_max() -> (r: u32) {
        u32::MAX
    }

    fn le(self, other: u32) -> (r: bool) {
        self <= other
    }

    fn checked_add(self, rhs: u32) -> (r: Option<u32>) {
        self.checked_add(rhs)
    }

    fn checked_sub(self, rhs: u32) -> (r: Option<u32>) {
        self.checked_sub(rhs)
    }

    fn checked_mul(self, rhs: u32) -> (r: Option<u32>) {
        self.checked_mul(rhs)
    }

    fn checked_div(self, rhs: u32) -> (r: Option<u32>) {
        self.checked_div(rhs)
    }

    fn checked_div_euclid(self, rhs: u32) -> (r: Option<u32>) {
        self.checked_div_euclid(rhs)
    }

    fn checked_rem(self, rhs: u32) -> (r: Option<u32>) {
        proof {
            if rhs != 0 {
                lemma_small_mod(0, rhs as nat);
            }
        }
        self.checked_rem(rhs)
    }

    fn checked_rem_euclid(self, rhs: u32) -> (r: Option<u32>) {
        self.checked_rem_euclid(rhs)
    }

    fn checked_shl(self, rhs: u32) -> (r: Option<u32>) {
        if rhs < u32::BITS {
            Some(self << rhs)
        } else {
            None
        }
    }

    fn checked_shr(self, rhs: u32) -> (r: Option<u32>) {
        if rhs < u32::BITS {
            Some(self >> rhs)
        } else {
            None
        }
    }

    fn to_wide(self) -> (r: Wide) {
        Wide { negative: false, magnitude: self as u128 }
    }

    fn from_wide(w: Wide) -> (r: Option<u32>) {
        if w.negative && w.magnitude != 0 {
            None
        } else if w.magnitude <= u32::MAX as u128 {
            Some(w.magnitude as u32)
        } else {
            None
        }
    }

    fn parse(s: &str) -> (r: Result<u32, IntErrorKind>) {
        parse_u32(s)
    }
}

/// Relies on std's `FromStr` for `u32`: the value of decimal text; otherwise
/// an error whose kind depends on the text alone, `Empty` only for empty text
/// and `InvalidDigit` where no digit follows the optional sign, as its
/// documentation gives them.
#[verifier::external_body]
fn parse_u32(s: &str) -> (r: Result<u32, IntErrorKind>)
    ensures
        r is Ok <==> (is_int_text(s@, false) && u32::MIN <= int_text_value(s@, false) <= u32::MAX),
        r matches Ok(v) ==> v as int == int_text_value(s@, false),
        r matches Err(k) ==> k == int_parse_error(s@, u32::MIN as int, u32::MAX as int),
        no_leading_digit(s@, false) ==> r matches Err(IntErrorKind::InvalidDigit),
        s@.len() == 0 ==> r matches Err(IntErrorKind::Empty),
        r matches Err(k) ==> k != IntErrorKind::Zero && (k == IntErrorKind::Empty ==> s@.len()
            == 0),
        is_int_text(s@, false) && int_text_value(s@, false) > u32::MAX
            ==> r matches Err(IntErrorKind::PosOverflow),
        is_int_text(s@, false) && int_text_value(s@, false) < u32::MIN
            ==> r matches Err(IntErrorKind::NegOverflow),
{
    match s.parse::<u32>() {
        Ok(v) => Ok(v),
        Err(e) => Err(match e.kind() {
            core::num::IntErrorKind::Empty => IntErrorKind::Empty,
            core::num::IntErrorKind::PosOverflow => IntErrorKind::PosOverflow,
            core::num::IntErrorKind::NegOverflow => IntErrorKind::NegOverflow,
            // `InvalidDigit`, and `Zero`, which no primitive kind reports.
            _ => IntErrorKind::InvalidDigit,
        }),
    }
}

impl Primitive for u64 {
    open spec fn to_int(self) -> int {
        self as int
    }

    open spec fn lo() -> int {
        u64::MIN as int
    }

    open spec fn hi() -> int {
        u64::MAX as int
    }

    open spec fn bits() -> u32 {
        u64::BITS
    }

    open spec fn shl_spec(self, rhs: u32) -> u64 {
        self << rhs
    }

    open spec fn shr_spec(self, rhs: u32) -> u64 {
        self >> rhs
    }

    proof fn lemma_in_domain(self) {
    }

    proof fn lemma_domain() {
    }

    proof fn lemma_injective(a: u64, b: u64) {
    }

    fn zero() -> (r: u64) {
        0
    }

    fn one() -> (r: u64) {
        1
    }

    fn domain_min() -> (r: u64) {
        u64::MIN
    }

    fn domain_max() -> (r: u64) {
        u64::MAX
    }

    fn le(self, other: u64) -> (r: bool) {
        self <= other
    }

    fn checked_add(self, rhs: u64) -> (r: Option<u64>) {
        self.checked_add(rhs)
    }

    fn checked_sub(self, rhs: u64) -> (r: Option<u64>) {
        self.checked_sub(rhs)
    }

    fn checked_mul(self, rhs: u64) -> (r: Option<u64>) {
        self.checked_mul(rhs)
    }

    fn checked_div(self, rhs: u64) -> (r: Option<u64>) {
        self.checked_div(rhs)
    }

    fn checked_div_euclid(self, rhs: u64) -> (r: Option<u64>) {
        self.checked_div_euclid(rhs)
    }

    fn checked_rem(self, rhs: u64) -> (r: Option<u64>) {
        proof {
            if rhs != 0 {
                lemma_small_mod(0, rhs as nat);
            }
        }
        self.checked_rem(rhs)
    }

    fn checked_rem_euclid(self, rhs: u64) -> (r: Option<u64>) {
        self.checked_rem_euclid(rhs)
    }

    fn checked_shl(self, rhs: u32) -> (r: Option<u64>) {
        if rhs < u64::BITS {
            Some(self << rhs)
        } else {
            None
        }
    }

    fn checked_shr(self, rhs: u32) -> (r: Option<u64>) {
        if rhs < u64::BITS {
            Some(self >> rhs)
        } else {
            None
        }
    }

    fn to_wide(self) -> (r: Wide) {
        Wide { negative: false, magnitude: self as u128 }
    }

    fn from_wide(w: Wide) -> (r: Option<u64>) {
        if w.negative && w.magnitude != 0 {
            None
        } else if w.magnitude <= u64::MAX as u128 {
            Some(w.magnitude as u64)
        } else {
            None
        }
    }

    fn parse(s: &str) -> (r: Result<u64, IntErrorKind>) {
        parse_u64(s)
    }
}

/// Relies on std's `FromStr` for `u64`: the value of decimal text; otherwise
/// an error whose kind depends on the text alone, `Empty` only for empty text
/// and `InvalidDigit` where no digit follows the optional sign, as its
/// documentation gives them.
#[verifier::external_body]
fn parse_u64(s: &str) -> (r: Result<u64, IntErrorKind>)
    ensures
        r is Ok <==> (is_int_text(s@, false) && u64::MIN <= int_text_value(s@, false) <= u64::MAX),
        r matches Ok(v) ==> v as int == int_text_value(s@, false),
        r matches Err(k) ==> k == int_parse_error(s@, u64::MIN as int, u64::MAX as int),
        no_leading_digit(s@, false) ==> r matches Err(IntErrorKind::InvalidDigit),
        s@.len() == 0 ==> r matches Err(IntErrorKind::Empty),
        r matches Err(k) ==> k != IntErrorKind::Zero && (k == IntErrorKind::Empty ==> s@.len()
            == 0),
        is_int_text(s@, false) && int_text_value(s@, false) > u64::MAX
            ==> r matches Err(IntErrorKind::PosOverflow),
        is_int_text(s@, false) && int_text_value(s@, false) < u64::MIN
            ==> r matches Err(IntErrorKind::NegOverflow),
{
    match s.parse::<u64>() {
        Ok(v) => Ok(v),
        Err(e) => Err(match e.kind() {
            core::num::IntErrorKind::Empty => IntErrorKind::Empty,
            core::num::IntErrorKind::PosOverflow => IntErrorKind::PosOverflow,
            core::num::IntErrorKind::NegOverflow => IntErrorKind::NegOverflow,
            // `InvalidDigit`, and `Zero`, which no primitive kind reports.
            _ => IntErrorKind::InvalidDigit,
        }),
    }
}

impl Primitive for u128 {
    open spec fn to_int(self) -> int {
        self as int
    }

    open spec fn lo() -> int {
        u128::MIN as int
    }

    open spec fn hi() -> int {
        u128::MAX as int
    }

    open spec fn bits() -> u32 {
        u128::BITS
    }

    open spec fn shl_spec(self, rhs: u32) -> u128 {
        self << rhs
    }

    open spec fn shr_spec(self, rhs: u32) -> u128 {
        self >> rhs
    }

    proof fn lemma_in_domain(self) {
    }

    proof fn lemma_domain() {
    }

    proof fn lemma_injective(a: u128, b: u128) {
    }

    fn zero() -> (r: u128) {
        0
    }

    fn one() -> (r: u128) {
        1
    }

    fn domain_min() -> (r: u128) {
        u128::MIN
    }

    fn domain_max() -> (r: u128) {
        u128::MAX
    }

    fn le(self, other: u128) -> (r: bool) {
        self <= other
    }

    fn checked_add(self, rhs: u128) -> (r: Option<u128>) {
        self.checked_add(rhs)
    }

    fn checked_sub(self, rhs: u128) -> (r: Option<u128>) {
        self.checked_sub(rhs)
    }

    fn checked_mul(self, rhs: u128) -> (r: Option<u128>) {
        self.checked_mul(rhs)
    }

    fn checked_div(self, rhs: u128) -> (r: Option<u128>) {
        self.checked_div(rhs)
    }

    fn checked_div_euclid(self, rhs: u128) -> (r: Option<u128>) {
        self.checked_div_euclid(rhs)
    }

    fn checked_rem(self, rhs: u128) -> (r: Option<u128>) {
        proof {
            if rhs != 0 {
                lemma_small_mod(0, rhs as nat);
            }
        }
        self.checked_rem(rhs)
    }

    fn checked_rem_euclid(self, rhs: u128) -> (r: Option<u128>) {
        self.checked_rem_euclid(rhs)
    }

    fn checked_shl(self, rhs: u32) -> (r: Option<u128>) {
        if rhs < u128::BITS {
            Some(self << rhs)
        } else {
            None
        }
    }

    fn checked_shr(self, rhs: u32) -> (r: Option<u128>) {
        if rhs < u128::BITS {
            Some(self >> rhs)
        } else {
            None
        }
    }

    fn to_wide(self) -> (r: Wide) {
        Wide { negative: false, magnitude: self as u128 }
    }

    fn from_wide(w: Wide) -> (r: Option<u128>) {
        if w.negative && w.magnitude != 0 {
            None
        } else {
            Some(w.magnitude)
        }
    }

    fn parse(s: &str) -> (r: Result<u128, IntErrorKind>) {
        parse_u128(s)
    }
}

/// Relies on std's `FromStr` for `u128`: the value of decimal text; otherwise
/// an error whose kind depends on the text alone, `Empty` only for empty text
/// and `InvalidDigit` where no digit follows the optional sign, as its
/// documentation gives them.
#[verifier::external_body]
fn parse_u128(s: &str) -> (r: Result<u128, IntErrorKind>)
    ensures
        r is Ok <==> (is_int_text(s@, false) && u128::MIN <= int_text_value(s@, false) <= u128::MAX),
        r matches Ok(v) ==> v as int == int_text_value(s@, false),
        r matches Err(k) ==> k == int_parse_error(s@, u128::MIN as int, u128::MAX as int),
        no_leading_digit(s@, false) ==> r matches Err(IntErrorKind::InvalidDigit),
        s@.len() == 0 ==> r matches Err(IntErrorKind::Empty),
        r matches Err(k) ==> k != IntErrorKind::Zero && (k == IntErrorKind::Empty ==> s@.len()
            == 0),
        is_int_text(s@, false) && int_text_value(s@, false) > u128::MAX
            ==> r matches Err(IntErrorKind::PosOverflow),
        is_int_text(s@, false) && int_text_value(s@, false) < u128::MIN
            ==> r matches Err(IntErrorKind::NegOverflow),
{
    match s.parse::<u128>() {
        Ok(v) => Ok(v),
        Err(e) => Err(match e.kind() {
            core::num::IntErrorKind::Empty => IntErrorKind::Empty,
            core::num::IntErrorKind::PosOverflow => IntErrorKind::PosOverflow,
            core::num::IntErrorKind::NegOverflow => IntErrorKind::NegOverflow,
            // `InvalidDigit`, and `Zero`, which no primitive kind reports.
            _ => IntErrorKind::InvalidDigit,
        }),
    }
}

impl Primitive for usize {
    open spec fn to_int(self) -> int {
        self as int
    }

    open spec fn lo() -> int {
        usize::MIN as int
    }

    open spec fn hi() -> int {
        usize::MAX as int
    }

    open spec fn bits() -> u32 {
        usize::BITS
    }

    open spec fn shl_spec(self, rhs: u32) -> usize {
        self << rhs
    }

    open spec fn shr_spec(self, rhs: u32) -> usize {
        self >> rhs
    }

    proof fn lemma_in_domain(self) {
    }

    proof fn lemma_domain() {
    }

    proof fn lemma_injective(a: usize, b: usize) {
    }

    fn zero() -> (r: usize) {
        0
    }

    fn one() -> (r: usize) {
        1
    }

    fn domain_min() -> (r: usize) {
        usize::MIN
    }

    fn domain_max() -> (r: usize) {
        usize::MAX
    }

    fn le(self, other: usize) -> (r: bool) {
        self <= other
    }

    fn checked_add(self, rhs: usize) -> (r: Option<usize>) {
        self.checked_add(rhs)
    }

    fn checked_sub(self, rhs: usize) -> (r: Option<usize>) {
        self.checked_sub(rhs)
    }

    fn checked_mul(self, rhs: usize) -> (r: Option<usize>) {
        self.checked_mul(rhs)
    }

    fn checked_div(self, rhs: usize) -> (r: Option<usize>) {
        self.checked_div(rhs)
    }

    fn checked_div_euclid(self, rhs: usize) -> (r: Option<usize>) {
        self.checked_div_euclid(rhs)
    }

    fn checked_rem(self, rhs: usize) -> (r: Option<usize>) {
        proof {
            if rhs != 0 {
                lemma_small_mod(0, rhs as nat);
            }
        }
        self.checked_rem(rhs)
    }

    fn checked_rem_euclid(self, rhs: usize) -> (r: Option<usize>) {
        self.checked_rem_euclid(rhs)
    }

    fn checked_shl(self, rhs: u32) -> (r: Option<usize>) {
        if rhs < usize::BITS {
            Some(self << rhs)
        } else {
            None
        }
    }

    fn checked_shr(self, rhs: u32) -> (r: Option<usize>) {
        if rhs < usize::BITS {
            Some(self >> rhs)
        } else {
            None
        }
    }

    fn to_wide(self) -> (r: Wide) {
        Wide { negative: false, magnitude: self as u128 }
    }

    fn from_wide(w: Wide) -> (r: Option<usize>) {
        if w.negative && w.magnitude != 0 {
            None
        } else if w.magnitude <= usize::MAX as u128 {
            Some(w.magnitude as usize)
        } else {
            None
        }
    }

    fn parse(s: &str) -> (r: Result<usize, IntErrorKind>) {
        parse_usize(s)
    }
}

/// Relies on std's `FromStr` for `usize`: the value of decimal text; otherwise
/// an error whose kind depends on the text alone, `Empty` only for empty text
/// and `InvalidDigit` where no digit follows the optional sign, as its
/// documentation gives them.
#[verifier::external_body]
fn parse_usize(s: &str) -> (r: Result<usize, IntErrorKind>)
    ensures
        r is Ok <==> (is_int_text(s@, false) && usize::MIN <= int_text_value(s@, false) <= usize::MAX),
        r matches Ok(v) ==> v as int == int_text_value(s@, false),
        r matches Err(k) ==> k == int_parse_error(s@, usize::MIN as int, usize::MAX as int),
        no_leading_digit(s@, false) ==> r matches Err(IntErrorKind::InvalidDigit),
        s@.len() == 0 ==> r matches Err(IntErrorKind::Empty),
        r matches Err(k) ==> k != IntErrorKind::Zero && (k == IntErrorKind::Empty ==> s@.len()
            == 0),
        is_int_text(s@, false) && int_text_value(s@, false) > usize::MAX
            ==> r matches Err(IntErrorKind::PosOverflow),
        is_int_text(s@, false) && int_text_value(s@, false) < usize::MIN
            ==> r matches Err(IntErrorKind::NegOverflow),
{
    match s.parse::<usize>() {
        Ok(v) => Ok(v),
        Err(e) => Err(match e.kind() {
            core::num::IntErrorKind::Empty => IntErrorKind::Empty,
            core::num::IntErrorKind::PosOverflow => IntErrorKind::PosOverflow,
            core::num::IntErrorKind::NegOverflow => IntErrorKind::NegOverflow,
            // `InvalidDigit`, and `Zero`, which no primitive kind reports.
            _ => IntErrorKind::InvalidDigit,
        }),
    }
}

impl Primitive for i8 {
    open spec fn to_int(self) -> int {
        self as int
    }

    open spec fn lo() -> int {
        i8::MIN as int
    }

    open spec fn hi() -> int {
        i8::MAX as int
    }

    open spec fn bits() -> u32 {
        i8::BITS
    }

    open spec fn shl_spec(self, rhs: u32) -> i8 {
        self << rhs
    }

    open spec fn shr_spec(self, rhs: u32) -> i8 {
        self >> rhs
    }

    proof fn lemma_in_domain(self) {
    }

    proof fn lemma_domain() {
    }

    proof fn lemma_injective(a: i8, b: i8) {
    }

    fn zero() -> (r: i8) {
        0
    }

    fn one() -> (r: i8) {
        1
    }

    fn domain_min() -> (r: i8) {
        i8::MIN
    }

    fn domain_max() -> (r: i8) {
        i8::MAX
    }

    fn le(self, other: i8) -> (r: bool) {
        self <= other
    }

    fn checked_add(self, rhs: i8) -> (r: Option<i8>) {
        self.checked_add(rhs)
    }

    fn checked_sub(self, rhs: i8) -> (r: Option<i8>) {
        self.checked_sub(rhs)
    }

    fn checked_mul(self, rhs: i8) -> (r: Option<i8>) {
        self.checked_mul(rhs)
    }

    fn checked_div(self, rhs: i8) -> (r: Option<i8>) {
        self.checked_div(rhs)
    }

    fn checked_div_euclid(self, rhs: i8) -> (r: Option<i8>) {
        self.checked_div_euclid(rhs)
    }

    fn checked_rem(self, rhs: i8) -> (r: Option<i8>) {
        self.checked_rem(rhs)
    }

    fn checked_rem_euclid(self, rhs: i8) -> (r: Option<i8>) {
        self.checked_rem_euclid(rhs)
    }

    fn checked_shl(self, rhs: u32) -> (r: Option<i8>) {
        if rhs < i8::BITS {
            Some(self << rhs)
        } else {
            None
        }
    }

    fn checked_shr(self, rhs: u32) -> (r: Option<i8>) {
        if rhs < i8::BITS {
            Some(self >> rhs)
        } else {
            None
        }
    }

    fn to_wide(self) -> (r: Wide) {
        if self < 0 {
            Wide { negative: true, magnitude: (0 - (self + 1)) as u128 + 1 }
        } else {
            Wide { negative: false, magnitude: self as u128 }
        }
    }

    fn from_wide(w: Wide) -> (r: Option<i8>) {
        if w.negative {
            if w.magnitude == 0 {
                Some(0)
            } else if w.magnitude - 1 <= i8::MAX as u128 {
                Some(0 - ((w.magnitude - 1) as i8) - 1)
            } else {
                None
            }
        } else if w.magnitude <= i8::MAX as u128 {
            Some(w.magnitude as i8)
        } else {
            None
        }
    }

    fn parse(s: &str) -> (r: Result<i8, IntErrorKind>) {
        parse_i8(s)
    }
}

/// Relies on std's `FromStr` for `i8`: the value of decimal text; otherwise
/// an error whose kind depends on the text alone, `Empty` only for empty text
/// and `InvalidDigit` where no digit follows the optional sign, as its
/// documentation gives them.
#[verifier::external_body]
fn parse_i8(s: &str) -> (r: Result<i8, IntErrorKind>)
    ensures
        r is Ok <==> (is_int_text(s@, true) && i8::MIN <= int_text_value(s@, true) <= i8::MAX),
        r matches Ok(v) ==> v as int == int_text_value(s@, true),
        r matches Err(k) ==> k == int_parse_error(s@, i8::MIN as int, i8::MAX as int),
        no_leading_digit(s@, true) ==> r matches Err(IntErrorKind::InvalidDigit),
        s@.len() == 0 ==> r matches Err(IntErrorKind::Empty),
        r matches Err(k) ==> k != IntErrorKind::Zero && (k == IntErrorKind::Empty ==> s@.len()
            == 0),
        is_int_text(s@, true) && int_text_value(s@, true) > i8::MAX
            ==> r matches Err(IntErrorKind::PosOverflow),
        is_int_text(s@, true) && int_text_value(s@, true) < i8::MIN
            ==> r matches Err(IntErrorKind::NegOverflow),
{
    match s.parse::<i8>() {
        Ok(v) => Ok(v),
        Err(e) => Err(match e.kind() {
            core::num::IntErrorKind::Empty => IntErrorKind::Empty,
            core::num::IntErrorKind::PosOverflow => IntErrorKind::PosOverflow,
            core::num::IntErrorKind::NegOverflow => IntErrorKind::NegOverflow,
            // `InvalidDigit`, and `Zero`, which no primitive kind reports.
            _ => IntErrorKind::InvalidDigit,
        }),
    }
}

impl Primitive for i16 {
    open spec fn to_int(self) -> int {
        self as int
    }

    open spec fn lo() -> int {
        i16::MIN as int
    }

    open spec fn hi() -> int {
        i16::MAX as int
    }

    open spec fn bits() -> u32 {
        i16::BITS
    }

    open spec fn shl_spec(self, rhs: u32) -> i16 {
        self << rhs
    }

    open spec fn shr_spec(self, rhs: u32) -> i16 {
        self >> rhs
    }

    proof fn lemma_in_domain(self) {
    }

    proof fn lemma_domain() {
    }

    proof fn lemma_injective(a: i16, b: i16) {
    }

    fn zero() -> (r: i16) {
        0
    }

    fn one() -> (r: i16) {
        1
    }

    fn domain_min() -> (r: i16) {
        i16::MIN
    }

    fn domain_max() -> (r: i16) {
        i16::MAX
    }

    fn le(self, other: i16) -> (r: bool) {
        self <= other
    }

    fn checked_add(self, rhs: i16) -> (r: Option<i16>) {
        self.checked_add(rhs)
    }

    fn checked_sub(self, rhs: i16) -> (r: Option<i16>) {
        self.checked_sub(rhs)
    }

    fn checked_mul(self, rhs: i16) -> (r: Option<i16>) {
        self.checked_mul(rhs)
    }

    fn checked_div(self, rhs: i16) -> (r: Option<i16>) {
        self.checked_div(rhs)
    }

    fn checked_div_euclid(self, rhs: i16) -> (r: Option<i16>) {
        self.checked_div_euclid(rhs)
    }

    fn checked_rem(self, rhs: i16) -> (r: Option<i16>) {
        self.checked_rem(rhs)
    }

    fn checked_rem_euclid(self, rhs: i16) -> (r: Option<i16>) {
        self.checked_rem_euclid(rhs)
    }

    fn checked_shl(self, rhs: u32) -> (r: Option<i16>) {
        if rhs < i16::BITS {
            Some(self << rhs)
        } else {
            None
        }
    }

    fn checked_shr(self, rhs: u32) -> (r: Option<i16>) {
        if rhs < i16::BITS {
            Some(self >> rhs)
        } else {
            None
        }
    }

    fn to_wide(self) -> (r: Wide) {
        if self < 0 {
            Wide { negative: true, magnitude: (0 - (self + 1)) as u128 + 1 }
        } else {
            Wide { negative: false, magnitude: self as u128 }
        }
    }

    fn from_wide(w: Wide) -> (r: Option<i16>) {
        if w.negative {
            if w.magnitude == 0 {
                Some(0)
            } else if w.magnitude - 1 <= i16::MAX as u128 {
                Some(0 - ((w.magnitude - 1) as i16) - 1)
            } else {
                None
            }
        } else if w.magnitude <= i16::MAX as u128 {
            Some(w.magnitude as i16)
        } else {
            None
        }
    }

    fn parse(s: &str) -> (r: Result<i16, IntErrorKind>) {
        parse_i16(s)
    }
}

/// Relies on std's `FromStr` for `i16`: the value of decimal text; otherwise
/// an error whose kind depends on the text alone, `Empty` only for empty text
/// and `InvalidDigit` where no digit follows the optional sign, as its
/// documentation gives them.
#[verifier::external_body]
fn parse_i16(s: &str) -> (r: Result<i16, IntErrorKind>)
    ensures
        r is Ok <==> (is_int_text(s@, true) && i16::MIN <= int_text_value(s@, true) <= i16::MAX),
        r matches Ok(v) ==> v as int == int_text_value(s@, true),
        r matches Err(k) ==> k == int_parse_error(s@, i16::MIN as int, i16::MAX as int),
        no_leading_digit(s@, true) ==> r matches Err(IntErrorKind::InvalidDigit),
        s@.len() == 0 ==> r matches Err(IntErrorKind::Empty),
        r matches Err(k) ==> k != IntErrorKind::Zero && (k == IntErrorKind::Empty ==> s@.len()
            == 0),
        is_int_text(s@, true) && int_text_value(s@, true) > i16::MAX
            ==> r matches Err(IntErrorKind::PosOverflow),
        is_int_text(s@, true) && int_text_value(s@, true) < i16::MIN
            ==> r matches Err(IntErrorKind::NegOverflow),
{
    match s.parse::<i16>() {
        Ok(v) => Ok(v),
        Err(e) => Err(match e.kind() {
            core::num::IntErrorKind::Empty => IntErrorKind::Empty,
            core::num::IntErrorKind::PosOverflow => IntErrorKind::PosOverflow,
            core::num::IntErrorKind::NegOverflow => IntErrorKind::NegOverflow,
            // `InvalidDigit`, and `Zero`, which no primitive kind reports.
            _ => IntErrorKind::InvalidDigit,
        }),
    }
}

impl Primitive for i32 {
    open spec fn to_int(self) -> int {
        self as int
    }

    open spec fn lo() -> int {
        i32::MIN as int
    }

    open spec fn hi() -> int {
        i32::MAX as int
    }

    open spec fn bits() -> u32 {
        i32::BITS
    }

    open spec fn shl_spec(self, rhs: u32) -> i32 {
        self << rhs
    }

    open spec fn shr_spec(self, rhs: u32) -> i32 {
        self >> rhs
    }

    proof fn lemma_in_domain(self) {
    }

    proof fn lemma_domain() {
    }

    proof fn lemma_injective(a: i32, b: i32) {
    }

    fn zero() -> (r: i32) {
        0
    }

    fn one() -> (r: i32) {
        1
    }

    fn domain_min() -> (r: i32) {
        i32::MIN
    }

    fn domain_max() -> (r: i32) {
        i32::MAX
    }

    fn le(self, other: i32) -> (r: bool) {
        self <= other
    }

    fn checked_add(self, rhs: i32) -> (r: Option<i32>) {
        self.checked_add(rhs)
    }

    fn checked_sub(self, rhs: i32) -> (r: Option<i32>) {
        self.checked_sub(rhs)
    }

    fn checked_mul(self, rhs: i32) -> (r: Option<i32>) {
        self.checked_mul(rhs)
    }

    fn checked_div(self, rhs: i32) -> (r: Option<i32>) {
        self.checked_div(rhs)
    }

    fn checked_div_euclid(self, rhs: i32) -> (r: Option<i32>) {
        self.checked_div_euclid(rhs)
    }

    fn checked_rem(self, rhs: i32) -> (r: Option<i32>) {
        self.checked_rem(rhs)
    }

    fn checked_rem_euclid(self, rhs: i32) -> (r: Option<i32>) {
        self.checked_rem_euclid(rhs)
    }

    fn checked_shl(self, rhs: u32) -> (r: Option<i32>) {
        if rhs < i32::BITS {
            Some(self << rhs)
        } else {
            None
        }
    }

    fn checked_shr(self, rhs: u32) -> (r: Option<i32>) {
        if rhs < i32::BITS {
            Some(self >> rhs)
        } else {
            None
        }
    }

    fn to_wide(self) -> (r: Wide) {
        if self < 0 {
            Wide { negative: true, magnitude: (0 - (self + 1)) as u128 + 1 }
        } else {
            Wide { negative: false, magnitude: self as u128 }
        }
    }

    fn from_wide(w: Wide) -> (r: Option<i32>) {
        if w.negative {
            if w.magnitude == 0 {
                Some(0)
            } else if w.magnitude - 1 <= i32::MAX as u128 {
                Some(0 - ((w.magnitude - 1) as i32) - 1)
            } else {
                None
            }
        } else if w.magnitude <= i32::MAX as u128 {
            Some(w.magnitude as i32)
        } else {
            None
        }
    }

    fn parse(s: &str) -> (r: Result<i32, IntErrorKind>) {
        parse_i32(s)
    }
}

/// Relies on std's `FromStr` for `i32`: the value of decimal text; otherwise
/// an error whose kind depends on the text alone, `Empty` only for empty text
/// and `InvalidDigit` where no digit follows the optional sign, as its
/// documentation gives them.
#[verifier::external_body]
fn parse_i32(s: &str) -> (r: Result<i32, IntErrorKind>)
    ensures
        r is Ok <==> (is_int_text(s@, true) && i32::MIN <= int_text_value(s@, true) <= i32::MAX),
        r matches Ok(v) ==> v as int == int_text_value(s@, true),
        r matches Err(k) ==> k == int_parse_error(s@, i32::MIN as int, i32::MAX as int),
        no_leading_digit(s@, true) ==> r matches Err(IntErrorKind::InvalidDigit),
        s@.len() == 0 ==> r matches Err(IntErrorKind::Empty),
        r matches Err(k) ==> k != IntErrorKind::Zero && (k == IntErrorKind::Empty ==> s@.len()
            == 0),
        is_int_text(s@, true) && int_text_value(s@, true) > i32::MAX
            ==> r matches Err(IntErrorKind::PosOverflow),
        is_int_text(s@, true) && int_text_value(s@, true) < i32::MIN
            ==> r matches Err(IntErrorKind::NegOverflow),
{
    match s.parse::<i32>() {
        Ok(v) => Ok(v),
        Err(e) => Err(match e.kind() {
            core::num::IntErrorKind::Empty => IntErrorKind::Empty,
            core::num::IntErrorKind::PosOverflow => IntErrorKind::PosOverflow,
            core::num::IntErrorKind::NegOverflow => IntErrorKind::NegOverflow,
            // `InvalidDigit`, and `Zero`, which no primitive kind reports.
            _ => IntErrorKind::InvalidDigit,
        }),
    }
}

impl Primitive for i64 {
    open spec fn to_int(self) -> int {
        self as int
    }

    open spec fn lo() -> int {
        i64::MIN as int
    }

    open spec fn hi() -> int {
        i64::MAX as int
    }

    open spec fn bits() -> u32 {
        i64::BITS
    }

    open spec fn shl_spec(self, rhs: u32) -> i64 {
        self << rhs
    }

    open spec fn shr_spec(self, rhs: u32) -> i64 {
        self >> rhs
    }

    proof fn lemma_in_domain(self) {
    }

    proof fn lemma_domain() {
    }

    proof fn lemma_injective(a: i64, b: i64) {
    }

    fn zero() -> (r: i64) {
        0
    }

    fn one() -> (r: i64) {
        1
    }

    fn domain_min() -> (r: i64) {
        i64::MIN
    }

    fn domain_max() -> (r: i64) {
        i64::MAX
    }

    fn le(self, other: i64) -> (r: bool) {
        self <= other
    }

    fn checked_add(self, rhs: i64) -> (r: Option<i64>) {
        self.checked_add(rhs)
    }

    fn checked_sub(self, rhs: i64) -> (r: Option<i64>) {
        self.checked_sub(rhs)
    }

    fn checked_mul(self, rhs: i64) -> (r: Option<i64>) {
        self.checked_mul(rhs)
    }

    fn checked_div(self, rhs: i64) -> (r: Option<i64>) {
        self.checked_div(rhs)
    }

    fn checked_div_euclid(self, rhs: i64) -> (r: Option<i64>) {
        self.checked_div_euclid(rhs)
    }

    fn checked_rem(self, rhs: i64) -> (r: Option<i64>) {
        self.checked_rem(rhs)
    }

    fn checked_rem_euclid(self, rhs: i64) -> (r: Option<i64>) {
        self.checked_rem_euclid(rhs)
    }

    fn checked_shl(self, rhs: u32) -> (r: Option<i64>) {
        if rhs < i64::BITS {
            Some(self << rhs)
        } else {
            None
        }
    }

    fn checked_shr(self, rhs: u32) -> (r: Option<i64>) {
        if rhs < i64::BITS {
            Some(self >> rhs)
        } else {
            None
        }
    }

    fn to_wide(self) -> (r: Wide) {
        if self < 0 {
            Wide { negative: true, magnitude: (0 - (self + 1)) as u128 + 1 }
        } else {
            Wide { negative: false, magnitude: self as u128 }
        }
    }

    fn from_wide(w: Wide) -> (r: Option<i64>) {
        if w.negative {
            if w.magnitude == 0 {
                Some(0)
            } else if w.magnitude - 1 <= i64::MAX as u128 {
                Some(0 - ((w.magnitude - 1) as i64) - 1)
            } else {
                None
            }
        } else if w.magnitude <= i64::MAX as u128 {
            Some(w.magnitude as i64)
        } else {
            None
        }
    }

    fn parse(s: &str) -> (r: Result<i64, IntErrorKind>) {
        parse_i64(s)
    }
}

/// Relies on std's `FromStr` for `i64`: the value of decimal text; otherwise
/// an error whose kind depends on the text alone, `Empty` only for empty text
/// and `InvalidDigit` where no digit follows the optional sign, as its
/// documentation gives them.
#[verifier::external_body]
fn parse_i64(s: &str) -> (r: Result<i64, IntErrorKind>)
    ensures
        r is Ok <==> (is_int_text(s@, true) && i64::MIN <= int_text_value(s@, true) <= i64::MAX),
        r matches Ok(v) ==> v as int == int_text_value(s@, true),
        r matches Err(k) ==> k == int_parse_error(s@, i64::MIN as int, i64::MAX as int),
        no_leading_digit(s@, true) ==> r matches Err(IntErrorKind::InvalidDigit),
        s@.len() == 0 ==> r matches Err(IntErrorKind::Empty),
        r matches Err(k) ==> k != IntErrorKind::Zero && (k == IntErrorKind::Empty ==> s@.len()
            == 0),
        is_int_text(s@, true) && int_text_value(s@, true) > i64::MAX
            ==> r matches Err(IntErrorKind::PosOverflow),
        is_int_text(s@, true) && int_text_value(s@, true) < i64::MIN
            ==> r matches Err(IntErrorKind::NegOverflow),
{
    match s.parse::<i64>() {
        Ok(v) => Ok(v),
        Err(e) => Err(match e.kind() {
            core::num::IntErrorKind::Empty => IntErrorKind::Empty,
            core::num::IntErrorKind::PosOverflow => IntErrorKind::PosOverflow,
            core::num::IntErrorKind::NegOverflow => IntErrorKind::NegOverflow,
            // `InvalidDigit`, and `Zero`, which no primitive kind reports.
            _ => IntErrorKind::InvalidDigit,
        }),
    }
}

impl Primitive for i128 {
    open spec fn to_int(self) -> int {
        self as int
    }

    open spec fn lo() -> int {
        i128::MIN as int
    }

    open spec fn hi() -> int {
        i128::MAX as int
    }

    open spec fn bits() -> u32 {
        i128::BITS
    }

    open spec fn shl_spec(self, rhs: u32) -> i128 {
        self << rhs
    }

    open spec fn shr_spec(self, rhs: u32) -> i128 {
        self >> rhs
    }

    proof fn lemma_in_domain(self) {
    }

    proof fn lemma_domain() {
    }

    proof fn lemma_injective(a: i128, b: i128) {
    }

    fn zero() -> (r: i128) {
        0
    }

    fn one() -> (r: i128) {
        1
    }

    fn domain_min() -> (r: i128) {
        i128::MIN
    }

    fn domain_max() -> (r: i128) {
        i128::MAX
    }

    fn le(self, other: i128) -> (r: bool) {
        self <= other
    }

    fn checked_add(self, rhs: i128) -> (r: Option<i128>) {
        self.checked_add(rhs)
    }

    fn checked_sub(self, rhs: i128) -> (r: Option<i128>) {
        self.checked_sub(rhs)
    }

    fn checked_mul(self, rhs: i128) -> (r: Option<i128>) {
        self.checked_mul(rhs)
    }

    fn checked_div(self, rhs: i128) -> (r: Option<i128>) {
        self.checked_div(rhs)
    }

    fn checked_div_euclid(self, rhs: i128) -> (r: Option<i128>) {
        self.checked_div_euclid(rhs)
    }

    fn checked_rem(self, rhs: i128) -> (r: Option<i128>) {
        self.checked_rem(rhs)
    }

    fn checked_rem_euclid(self, rhs: i128) -> (r: Option<i128>) {
        self.checked_rem_euclid(rhs)
    }

    fn checked_shl(self, rhs: u32) -> (r: Option<i128>) {
        if rhs < i128::BITS {
            Some(self << rhs)
        } else {
            None
        }
    }

    fn checked_shr(self, rhs: u32) -> (r: Option<i128>) {
        if rhs < i128::BITS {
            Some(self >> rhs)
        } else {
            None
        }
    }

    fn to_wide(self) -> (r: Wide) {
        if self < 0 {
            Wide { negative: true, magnitude: (0 - (self + 1)) as u128 + 1 }
        } else {
            Wide { negative: false, magnitude: self as u128 }
        }
    }

    fn from_wide(w: Wide) -> (r: Option<i128>) {
        if w.negative {
            if w.magnitude == 0 {
                Some(0)
            } else if w.magnitude - 1 <= i128::MAX as u128 {
                Some(0 - ((w.magnitude - 1) as i128) - 1)
            } else {
                None
            }
        } else if w.magnitude <= i128::MAX as u128 {
            Some(w.magnitude as i128)
        } else {
            None
        }
    }

    fn parse(s: &str) -> (r: Result<i128, IntErrorKind>) {
        parse_i128(s)
    }
}

/// Relies on std's `FromStr` for `i128`: the value of decimal text; otherwise
/// an error whose kind depends on the text alone, `Empty` only for empty text
/// and `InvalidDigit` where no digit follows the optional sign, as its
/// documentation gives them.
#[verifier::external_body]
fn parse_i128(s: &str) -> (r: Result<i128, IntErrorKind>)
    ensures
        r is Ok <==> (is_int_text(s@, true) && i128::MIN <= int_text_value(s@, true) <= i128::MAX),
        r matches Ok(v) ==> v as int == int_text_value(s@, true),
        r matches Err(k) ==> k == int_parse_error(s@, i128::MIN as int, i128::MAX as int),
        no_leading_digit(s@, true) ==> r matches Err(IntErrorKind::InvalidDigit),
        s@.len() == 0 ==> r matches Err(IntErrorKind::Empty),
        r matches Err(k) ==> k != IntErrorKind::Zero && (k == IntErrorKind::Empty ==> s@.len()
            == 0),
        is_int_text(s@, true) && int_text_value(s@, true) > i128::MAX
            ==> r matches Err(IntErrorKind::PosOverflow),
        is_int_text(s@, true) && int_text_value(s@, true) < i128::MIN
            ==> r matches Err(IntErrorKind::NegOverflow),
{
    match s.parse::<i128>() {
        Ok(v) => Ok(v),
        Err(e) => Err(match e.kind() {
            core::num::IntErrorKind::Empty => IntErrorKind::Empty,
            core::num::IntErrorKind::PosOverflow => IntErrorKind::PosOverflow,
            core::num::IntErrorKind::NegOverflow => IntErrorKind::NegOverflow,
            // `InvalidDigit`, and `Zero`, which no primitive kind reports.
            _ => IntErrorKind::InvalidDigit,
        }),
    }
}

impl Primitive for isize {
    open spec fn to_int(self) -> int {
        self as int
    }

    open spec fn lo() -> int {
        isize::MIN as int
    }

    open spec fn hi() -> int {
        isize::MAX as int
    }

    open spec fn bits() -> u32 {
        isize::BITS
    }

    open spec fn shl_spec(self, rhs: u32) -> isize {
        self << rhs
    }

    open spec fn shr_spec(self, rhs: u32) -> isize {
        self >> rhs
    }

    proof fn lemma_in_domain(self) {
    }

    proof fn lemma_domain() {
    }

    proof fn lemma_injective(a: isize, b: isize) {
    }

    fn zero() -> (r: isize) {
        0
    }

    fn one() -> (r: isize) {
        1
    }

    fn domain_min() -> (r: isize) {
        isize::MIN
    }

    fn domain_max() -> (r: isize) {
        isize::MAX
    }

    fn le(self, other: isize) -> (r: bool) {
        self <= other
    }

    fn checked_add(self, rhs: isize) -> (r: Option<isize>) {
        self.checked_add(rhs)
    }

    fn checked_sub(self, rhs: isize) -> (r: Option<isize>) {
        self.checked_sub(rhs)
    }

    fn checked_mul(self, rhs: isize) -> (r: Option<isize>) {
        self.checked_mul(rhs)
    }

    fn checked_div(self, rhs: isize) -> (r: Option<isize>) {
        self.checked_div(rhs)
    }

    fn checked_div_euclid(self, rhs: isize) -> (r: Option<isize>) {
        self.checked_div_euclid(rhs)
    }

    fn checked_rem(self, rhs: isize) -> (r: Option<isize>) {
        self.checked_rem(rhs)
    }

    fn checked_rem_euclid(self, rhs: isize) -> (r: Option<isize>) {
        self.checked_rem_euclid(rhs)
    }

    fn checked_shl(self, rhs: u32) -> (r: Option<isize>) {
        if rhs < isize::BITS {
            Some(self << rhs)
        } else {
            None
        }
    }

    fn checked_shr(self, rhs: u32) -> (r: Option<isize>) {
        if rhs < isize::BITS {
            Some(self >> rhs)
        } else {
            None
        }
    }

    fn to_wide(self) -> (r: Wide) {
        if self < 0 {
            Wide { negative: true, magnitude: (0 - (self + 1)) as u128 + 1 }
        } else {
            Wide { negative: false, magnitude: self as u128 }
        }
    }

    fn from_wide(w: Wide) -> (r: Option<isize>) {
        if w.negative {
            if w.magnitude == 0 {
                Some(0)
            } else if w.magnitude - 1 <= isize::MAX as u128 {
                Some(0 - ((w.magnitude - 1) as isize) - 1)
            } else {
                None
            }
        } else if w.magnitude <= isize::MAX as u128 {
            Some(w.magnitude as isize)
        } else {
            None
        }
    }

    fn parse(s: &str) -> (r: Result<isize, IntErrorKind>) {
        parse_isize(s)
    }
}

/// Relies on std's `FromStr` for `isize`: the value of decimal text; otherwise
/// an error whose kind depends on the text alone, `Empty` only for empty text
/// and `InvalidDigit` where no digit follows the optional sign, as its
/// documentation gives them.
#[verifier::external_body]
fn parse_isize(s: &str) -> (r: Result<isize, IntErrorKind>)
    ensures
        r is Ok <==> (is_int_text(s@, true) && isize::MIN <= int_text_value(s@, true) <= isize::MAX),
        r matches Ok(v) ==> v as int == int_text_value(s@, true),
        r matches Err(k) ==> k == int_parse_error(s@, isize::MIN as int, isize::MAX as int),
        no_leading_digit(s@, true) ==> r matches Err(IntErrorKind::InvalidDigit),
        s@.len() == 0 ==> r matches Err(IntErrorKind::Empty),
        r matches Err(k) ==> k != IntErrorKind::Zero && (k == IntErrorKind::Empty ==> s@.len()
            == 0),
        is_int_text(s@, true) && int_text_value(s@, true) > isize::MAX
            ==> r matches Err(IntErrorKind::PosOverflow),
        is_int_text(s@, true) && int_text_value(s@, true) < isize::MIN
            ==> r matches Err(IntErrorKind::NegOverflow),
{
    match s.parse::<isize>() {
        Ok(v) => Ok(v),
        Err(e) => Err(match e.kind() {
            core::num::IntErrorKind::Empty => IntErrorKind::Empty,
            core::num::IntErrorKind::PosOverflow => IntErrorKind::PosOverflow,
            core::num::IntErrorKind::NegOverflow => IntErrorKind::NegOverflow,
            // `InvalidDigit`, and `Zero`, which no primitive kind reports.
            _ => IntErrorKind::InvalidDigit,
        }),
    }
}

} // verus!
