//! Integers that carry their closed range `[min, max]` and keep their value in
//! it through every operation.
use vstd::prelude::*;

use crate::error::{IntErrorKind, ParseIntError, TryFromIntError};
use crate::primitive::{
    in_domain, int_parse_error, int_text_value, is_int_text, is_signed, no_leading_digit,
    trunc_div, trunc_rem, Primitive,
};

verus! {

/// `x` moved into `[lo, hi]`: the nearest bound when it lies outside.
pub open spec fn clamp(x: int, lo: int, hi: int) -> int {
    if x < lo {
        lo
    } else if x > hi {
        hi
    } else {
        x
    }
}

pub open spec fn abs(x: int) -> int {
    if x < 0 {
        -x
    } else {
        x
    }
}

/// `base` raised to `exp`.
pub open spec fn power(base: int, exp: nat) -> int
    decreases exp,
{
    if exp == 0 {
        1
    } else {
        base * power(base, (exp - 1) as nat)
    }
}

/// An integer of the primitive kind `T` that is known to lie in `min..=max`.
///
/// The bounds are fixed when a value is first made; every operation keeps
/// them, and either fails, clamps, or requires of its caller that the result
/// stays in range.
#[derive(Clone, Copy, Debug)]
pub struct Ranged<T: Primitive> {
    min: T,
    max: T,
    value: T,
}

impl<T: Primitive> Ranged<T> {
    /// The lower bound of the range.
    pub closed spec fn lower(self) -> T {
        self.min
    }

    /// The upper bound of the range.
    pub closed spec fn upper(self) -> T {
        self.max
    }

    /// The stored value.
    pub closed spec fn inner(self) -> T {
        self.value
    }

    pub open spec fn lo(self) -> int {
        self.lower().to_int()
    }

    pub open spec fn hi(self) -> int {
        self.upper().to_int()
    }

    pub open spec fn val(self) -> int {
        self.inner().to_int()
    }

    /// The invariant of every value: it lies within its bounds.
    pub open spec fn wf(self) -> bool {
        self.lo() <= self.val() <= self.hi()
    }

    pub open spec fn same_bounds(self, other: Self) -> bool {
        self.lower() == other.lower() && self.upper() == other.upper()
    }

    /// What `new` gives for these arguments.
    pub closed spec fn spec_new(min: T, max: T, value: T) -> Option<Self> {
        if min.to_int() <= value.to_int() <= max.to_int() {
            Some(Ranged { min, max, value })
        } else {
            None
        }
    }

    /// What `new` gives, in terms of the accessors.
    pub proof fn lemma_spec_new(min: T, max: T, value: T)
        ensures
            Self::spec_new(min, max, value) is Some <==> min.to_int() <= value.to_int()
                <= max.to_int(),
            Self::spec_new(min, max, value) matches Some(b) ==> b.lower() == min && b.upper()
                == max && b.inner() == value,
    {
    }

    /// Two values with the same bounds and the same stored value are equal.
    pub proof fn lemma_ext(a: Self, b: Self)
        requires
            a.lower() == b.lower(),
            a.upper() == b.upper(),
            a.inner() == b.inner(),
        ensures
            a == b,
    {
    }

    /// For bounds `min <= max`, making a value succeeds exactly for the values
    /// in `min..=max`, and what it makes holds the value given.
    pub proof fn lemma_new_get(min: T, max: T, value: T)
        requires
            min.to_int() <= max.to_int(),
        ensures
            Self::spec_new(min, max, value) is Some <==> min.to_int() <= value.to_int()
                <= max.to_int(),
            Self::spec_new(min, max, value) matches Some(b) ==> b.inner() == value && b.wf(),
    {
    }

    /// Making a value from the bounds and the stored value of a value gives
    /// that value back.
    pub proof fn lemma_round_trip(b: Self)
        requires
            b.wf(),
        ensures
            Self::spec_new(b.lower(), b.upper(), b.inner()) == Some(b),
    {
    }

    /// Makes a value if `value` lies within `min..=max`.
    pub fn new(min: T, max: T, value: T) -> (r: Option<Self>)
        ensures
            r == Self::spec_new(min, max, value),
            r is Some <==> min.to_int() <= value.to_int() <= max.to_int(),
            r matches Some(b) ==> b.lower() == min && b.upper() == max && b.inner() == value
                && b.wf(),
    {
        if min.le(value) && value.le(max) {
            Some(Ranged { min, max, value })
        } else {
            None
        }
    }

    /// Makes a value whose range the caller has already checked.
    pub fn new_unchecked(min: T, max: T, value: T) -> (r: Self)
        requires
            min.to_int() <= value.to_int() <= max.to_int(),
        ensures
            r.lower() == min,
            r.upper() == max,
            r.inner() == value,
            r.wf(),
    {
        Ranged { min, max, value }
    }

    /// Another value of this range: `value`, if it lies within the bounds.
    pub fn with_value(self, value: T) -> (r: Option<Self>)
        ensures
            r == Self::spec_new(self.lower(), self.upper(), value),
            r is Some <==> self.lo() <= value.to_int() <= self.hi(),
            r matches Some(b) ==> b.same_bounds(self) && b.inner() == value && b.wf(),
    {
        Self::new(self.min, self.max, value)
    }

    /// The stored value as a primitive.
    pub fn get(self) -> (r: T)
        ensures
            r == self.inner(),
    {
        self.value
    }

    /// The stored value, by reference.
    pub fn get_ref(&self) -> (r: &T)
        ensures
            *r == self.inner(),
    {
        &self.value
    }

    /// The lower bound as a primitive.
    pub fn min_bound(self) -> (r: T)
        ensures
            r == self.lower(),
    {
        self.min
    }

    /// The upper bound as a primitive.
    pub fn max_bound(self) -> (r: T)
        ensures
            r == self.upper(),
    {
        self.max
    }

    /// The smallest value of this range.
    pub fn min_value(self) -> (r: Self)
        requires
            self.wf(),
        ensures
            r.same_bounds(self),
            r.inner() == self.lower(),
            r.wf(),
    {
        Ranged { min: self.min, max: self.max, value: self.min }
    }

    /// The largest value of this range.
    pub fn max_value(self) -> (r: Self)
        requires
            self.wf(),
        ensures
            r.same_bounds(self),
            r.inner() == self.upper(),
            r.wf(),
    {
        Ranged { min: self.min, max: self.max, value: self.max }
    }

    proof fn lemma_bounds_in_domain(self)
        ensures
            T::lo() <= self.lo(),
            self.hi() <= T::hi(),
    {
        self.min.lemma_in_domain();
        self.max.lemma_in_domain();
    }

    /// Keeps the bounds and takes the result of a primitive operation, if
    /// there is one and it lies in range.
    fn rebound(self, result: Option<T>) -> (r: Option<Self>)
        ensures
            r is Some <==> (result matches Some(v) && self.lo() <= v.to_int() <= self.hi()),
            r matches Some(b) ==> b.same_bounds(self) && result == Some(b.inner()) && b.wf(),
    {
        match result {
            Some(v) => {
                if self.min.le(v) && v.le(self.max) {
                    Some(Ranged { min: self.min, max: self.max, value: v })
                } else {
                    None
                }
            },
            None => None,
        }
    }

    /// Keeps the bounds and moves `v` to the nearest bound if it lies outside.
    fn new_saturating(self, v: T) -> (r: Self)
        requires
            self.wf(),
        ensures
            r.same_bounds(self),
            r.val() == clamp(v.to_int(), self.lo(), self.hi()),
            r.wf(),
    {
        if v.le(self.min) {
            Ranged { min: self.min, max: self.max, value: self.min }
        } else if self.max.le(v) {
            Ranged { min: self.min, max: self.max, value: self.max }
        } else {
            Ranged { min: self.min, max: self.max, value: v }
        }
    }

    /// `self + rhs`, or `None` where it lies outside the range.
    pub fn checked_add(self, rhs: T) -> (r: Option<Self>)
        requires
            self.wf(),
        ensures
            r is Some <==> self.lo() <= self.val() + rhs.to_int() <= self.hi(),
            r matches Some(b) ==> b.same_bounds(self) && b.wf() && b.val() == self.val()
                + rhs.to_int(),
    {
        proof {
            self.lemma_bounds_in_domain();
        }
        self.rebound(self.value.checked_add(rhs))
    }

    /// `self - rhs`, or `None` where it lies outside the range.
    pub fn checked_sub(self, rhs: T) -> (r: Option<Self>)
        requires
            self.wf(),
        ensures
            r is Some <==> self.lo() <= self.val() - rhs.to_int() <= self.hi(),
            r matches Some(b) ==> b.same_bounds(self) && b.wf() && b.val() == self.val()
                - rhs.to_int(),
    {
        proof {
            self.lemma_bounds_in_domain();
        }
        self.rebound(self.value.checked_sub(rhs))
    }

    /// `self * rhs`, or `None` where it lies outside the range.
    pub fn checked_mul(self, rhs: T) -> (r: Option<Self>)
        requires
            self.wf(),
        ensures
            r is Some <==> self.lo() <= self.val() * rhs.to_int() <= self.hi(),
            r matches Some(b) ==> b.same_bounds(self) && b.wf() && b.val() == self.val()
                * rhs.to_int(),
    {
        proof {
            self.lemma_bounds_in_domain();
        }
        self.rebound(self.value.checked_mul(rhs))
    }
    /// `self / rhs` rounded toward zero, or `None` where `rhs` is zero or the
    /// quotient lies outside the range.
    pub fn checked_div(self, rhs: T) -> (r: Option<Self>)
        requires
            self.wf(),
        ensures
            r is Some <==> rhs.to_int() != 0 && self.lo() <= trunc_div(self.val(), rhs.to_int())
                <= self.hi(),
            r matches Some(b) ==> b.same_bounds(self) && b.wf() && b.val() == trunc_div(
                self.val(),
                rhs.to_int(),
            ),
    {
        proof {
            self.lemma_bounds_in_domain();
        }
        self.rebound(self.value.checked_div(rhs))
    }

    /// Euclidean `self / rhs`, or `None` where `rhs` is zero or the quotient
    /// lies outside the range.
    pub fn checked_div_euclid(self, rhs: T) -> (r: Option<Self>)
        requires
            self.wf(),
        ensures
            r is Some <==> rhs.to_int() != 0 && self.lo() <= self.val() / rhs.to_int() <= self.hi(),
            r matches Some(b) ==> b.same_bounds(self) && b.wf() && b.val() == self.val()
                / rhs.to_int(),
    {
        proof {
            self.lemma_bounds_in_domain();
        }
        self.rebound(self.value.checked_div_euclid(rhs))
    }

    /// `self % rhs` with the sign of `self`, or `None` where `rhs` is zero, the
    /// primitive operation overflows (the kind's minimum by `-1`), or the
    /// remainder lies outside the range.
    pub fn checked_rem(self, rhs: T) -> (r: Option<Self>)
        requires
            self.wf(),
        ensures
            r is Some <==> rhs.to_int() != 0 && !(self.val() == T::lo() && rhs.to_int() == -1)
                && self.lo() <= trunc_rem(self.val(), rhs.to_int()) <= self.hi(),
            r matches Some(b) ==> b.same_bounds(self) && b.wf() && b.val() == trunc_rem(
                self.val(),
                rhs.to_int(),
            ),
    {
        self.rebound(self.value.checked_rem(rhs))
    }

    /// Euclidean `self % rhs`, or `None` where `rhs` is zero, the primitive
    /// operation overflows (the kind's minimum by `-1`), or the remainder lies
    /// outside the range.
    pub fn checked_rem_euclid(self, rhs: T) -> (r: Option<Self>)
        requires
            self.wf(),
        ensures
            r is Some <==> rhs.to_int() != 0 && !(self.val() == T::lo() && rhs.to_int() == -1)
                && self.lo() <= self.val() % rhs.to_int() <= self.hi(),
            r matches Some(b) ==> b.same_bounds(self) && b.wf() && b.val() == self.val()
                % rhs.to_int(),
    {
        self.rebound(self.value.checked_rem_euclid(rhs))
    }

    /// `-self`, or `None` where it lies outside the range.
    pub fn checked_neg(self) -> (r: Option<Self>)
        requires
            self.wf(),
        ensures
            r is Some <==> self.lo() <= -self.val() <= self.hi(),
            r matches Some(b) ==> b.same_bounds(self) && b.wf() && b.val() == -self.val(),
    {
        proof {
            self.lemma_bounds_in_domain();
        }
        self.rebound(T::zero().checked_sub(self.value))
    }

    /// `|self|`, or `None` where it lies outside the range.
    pub fn checked_abs(self) -> (r: Option<Self>)
        requires
            self.wf(),
        ensures
            r is Some <==> self.lo() <= abs(self.val()) <= self.hi(),
            r matches Some(b) ==> b.same_bounds(self) && b.wf() && b.val() == abs(self.val()),
    {
        if T::zero().le(self.value) {
            Some(self)
        } else {
            self.checked_neg()
        }
    }

    /// `self << rhs` (bits shifted out are lost), or `None` where `rhs` is not
    /// below the kind's width or the result lies outside the range.
    pub fn checked_shl(self, rhs: u32) -> (r: Option<Self>)
        requires
            self.wf(),
        ensures
            r is Some <==> rhs < T::bits() && self.lo() <= self.inner().shl_spec(rhs).to_int()
                <= self.hi(),
            r matches Some(b) ==> b.same_bounds(self) && b.wf() && b.inner() == self.inner().shl_spec(
                rhs,
            ),
    {
        self.rebound(self.value.checked_shl(rhs))
    }

    /// `self >> rhs`, or `None` where `rhs` is not below the kind's width or
    /// the result lies outside the range.
    pub fn checked_shr(self, rhs: u32) -> (r: Option<Self>)
        requires
            self.wf(),
        ensures
            r is Some <==> rhs < T::bits() && self.lo() <= self.inner().shr_spec(rhs).to_int()
                <= self.hi(),
            r matches Some(b) ==> b.same_bounds(self) && b.wf() && b.inner() == self.inner().shr_spec(
                rhs,
            ),
    {
        self.rebound(self.value.checked_shr(rhs))
    }

    /// `self + rhs`, which the caller knows to lie in range.
    pub fn unchecked_add(self, rhs: T) -> (r: Self)
        requires
            self.wf(),
            self.lo() <= self.val() + rhs.to_int() <= self.hi(),
        ensures
            r.same_bounds(self),
            r.wf(),
            r.val() == self.val() + rhs.to_int(),
    {
        self.checked_add(rhs).unwrap()
    }

    /// `self - rhs`, which the caller knows to lie in range.
    pub fn unchecked_sub(self, rhs: T) -> (r: Self)
        requires
            self.wf(),
            self.lo() <= self.val() - rhs.to_int() <= self.hi(),
        ensures
            r.same_bounds(self),
            r.wf(),
            r.val() == self.val() - rhs.to_int(),
    {
        self.checked_sub(rhs).unwrap()
    }

    /// `self * rhs`, which the caller knows to lie in range.
    pub fn unchecked_mul(self, rhs: T) -> (r: Self)
        requires
            self.wf(),
            self.lo() <= self.val() * rhs.to_int() <= self.hi(),
        ensures
            r.same_bounds(self),
            r.wf(),
            r.val() == self.val() * rhs.to_int(),
    {
        self.checked_mul(rhs).unwrap()
    }

    /// `self / rhs` rounded toward zero, for a nonzero `rhs` whose quotient
    /// the caller knows to lie in range.
    pub fn unchecked_div(self, rhs: T) -> (r: Self)
        requires
            self.wf(),
            rhs.to_int() != 0,
            self.lo() <= trunc_div(self.val(), rhs.to_int()) <= self.hi(),
        ensures
            r.same_bounds(self),
            r.wf(),
            r.val() == trunc_div(self.val(), rhs.to_int()),
    {
        self.checked_div(rhs).unwrap()
    }

    /// Euclidean `self / rhs`, for a nonzero `rhs` whose quotient the caller
    /// knows to lie in range.
    pub fn unchecked_div_euclid(self, rhs: T) -> (r: Self)
        requires
            self.wf(),
            rhs.to_int() != 0,
            self.lo() <= self.val() / rhs.to_int() <= self.hi(),
        ensures
            r.same_bounds(self),
            r.wf(),
            r.val() == self.val() / rhs.to_int(),
    {
        self.checked_div_euclid(rhs).unwrap()
    }

    /// `self % rhs` with the sign of `self`, where the caller knows that the
    /// primitive operation succeeds and the result lies in range.
    pub fn unchecked_rem(self, rhs: T) -> (r: Self)
        requires
            self.wf(),
            rhs.to_int() != 0,
            !(self.val() == T::lo() && rhs.to_int() == -1),
            self.lo() <= trunc_rem(self.val(), rhs.to_int()) <= self.hi(),
        ensures
            r.same_bounds(self),
            r.wf(),
            r.val() == trunc_rem(self.val(), rhs.to_int()),
    {
        self.checked_rem(rhs).unwrap()
    }

    /// Euclidean `self % rhs`, where the caller knows that the primitive
    /// operation succeeds and the result lies in range.
    pub fn unchecked_rem_euclid(self, rhs: T) -> (r: Self)
        requires
            self.wf(),
            rhs.to_int() != 0,
            !(self.val() == T::lo() && rhs.to_int() == -1),
            self.lo() <= self.val() % rhs.to_int() <= self.hi(),
        ensures
            r.same_bounds(self),
            r.wf(),
            r.val() == self.val() % rhs.to_int(),
    {
        self.checked_rem_euclid(rhs).unwrap()
    }

    /// `-self`, which the caller knows to lie in range.
    pub fn unchecked_neg(self) -> (r: Self)
        requires
            self.wf(),
            self.lo() <= -self.val() <= self.hi(),
        ensures
            r.same_bounds(self),
            r.wf(),
            r.val() == -self.val(),
    {
        self.checked_neg().unwrap()
    }

    /// `|self|`, which the caller knows to lie in range.
    pub fn unchecked_abs(self) -> (r: Self)
        requires
            self.wf(),
            self.lo() <= abs(self.val()) <= self.hi(),
        ensures
            r.same_bounds(self),
            r.wf(),
            r.val() == abs(self.val()),
    {
        self.checked_abs().unwrap()
    }

    /// `self << rhs`, where the caller knows that `rhs` is below the kind's
    /// width and the result lies in range.
    pub fn unchecked_shl(self, rhs: u32) -> (r: Self)
        requires
            self.wf(),
            rhs < T::bits(),
            self.lo() <= self.inner().shl_spec(rhs).to_int() <= self.hi(),
        ensures
            r.same_bounds(self),
            r.wf(),
            r.inner() == self.inner().shl_spec(rhs),
    {
        self.checked_shl(rhs).unwrap()
    }

    /// `self >> rhs`, where the caller knows that `rhs` is below the kind's
    /// width and the result lies in range.
    pub fn unchecked_shr(self, rhs: u32) -> (r: Self)
        requires
            self.wf(),
            rhs < T::bits(),
            self.lo() <= self.inner().shr_spec(rhs).to_int() <= self.hi(),
        ensures
            r.same_bounds(self),
            r.wf(),
            r.inner() == self.inner().shr_spec(rhs),
    {
        self.checked_shr(rhs).unwrap()
    }

    /// `self + rhs`, moved to the nearest bound of the range where it lies
    /// outside.
    pub fn saturating_add(self, rhs: T) -> (r: Self)
        requires
            self.wf(),
        ensures
            r.same_bounds(self),
            r.wf(),
            r.val() == clamp(self.val() + rhs.to_int(), self.lo(), self.hi()),
    {
        proof {
            self.lemma_bounds_in_domain();
        }
        match self.value.checked_add(rhs) {
            Some(v) => self.new_saturating(v),
            None => {
                if T::zero().le(rhs) {
                    self.max_value()
                } else {
                    self.min_value()
                }
            },
        }
    }

    /// `self - rhs`, moved to the nearest bound of the range where it lies
    /// outside.
    pub fn saturating_sub(self, rhs: T) -> (r: Self)
        requires
            self.wf(),
        ensures
            r.same_bounds(self),
            r.wf(),
            r.val() == clamp(self.val() - rhs.to_int(), self.lo(), self.hi()),
    {
        proof {
            self.lemma_bounds_in_domain();
        }
        match self.value.checked_sub(rhs) {
            Some(v) => self.new_saturating(v),
            None => {
                if T::zero().le(rhs) {
                    self.min_value()
                } else {
                    self.max_value()
                }
            },
        }
    }

    /// `self * rhs`, moved to the nearest bound of the range where it lies
    /// outside.
    pub fn saturating_mul(self, rhs: T) -> (r: Self)
        requires
            self.wf(),
        ensures
            r.same_bounds(self),
            r.wf(),
            r.val() == clamp(self.val() * rhs.to_int(), self.lo(), self.hi()),
    {
        proof {
            self.lemma_bounds_in_domain();
            T::lemma_domain();
        }
        match self.value.checked_mul(rhs) {
            Some(v) => self.new_saturating(v),
            None => {
                let zero = T::zero();
                let ghost a = self.val();
                let ghost b = rhs.to_int();
                if zero.le(self.value) == zero.le(rhs) {
                    assert(a * b >= 0) by (nonlinear_arith)
                        requires
                            (0 <= a) == (0 <= b),
                    ;
                    self.max_value()
                } else {
                    assert(a * b <= 0) by (nonlinear_arith)
                        requires
                            (0 <= a) != (0 <= b),
                    ;
                    self.min_value()
                }
            },
        }
    }

    /// `-self`, moved to the nearest bound of the range where it lies outside.
    pub fn saturating_neg(self) -> (r: Self)
        requires
            self.wf(),
        ensures
            r.same_bounds(self),
            r.wf(),
            r.val() == clamp(-self.val(), self.lo(), self.hi()),
    {
        proof {
            self.lemma_bounds_in_domain();
        }
        match T::zero().checked_sub(self.value) {
            Some(v) => self.new_saturating(v),
            None => {
                if T::zero().le(self.value) {
                    self.min_value()
                } else {
                    self.max_value()
                }
            },
        }
    }

    /// `|self|`, moved to the upper bound of the range where it lies above.
    pub fn saturating_abs(self) -> (r: Self)
        requires
            self.wf(),
        ensures
            r.same_bounds(self),
            r.wf(),
            r.val() == clamp(abs(self.val()), self.lo(), self.hi()),
    {
        if T::zero().le(self.value) {
            self
        } else {
            self.saturating_neg()
        }
    }
    /// `self` raised to `exp`, or `None` where it lies outside the range.
    pub fn checked_pow(self, exp: u32) -> (r: Option<Self>)
        requires
            self.wf(),
        ensures
            r is Some <==> self.lo() <= power(self.val(), exp as nat) <= self.hi(),
            r matches Some(b) ==> b.same_bounds(self) && b.wf() && b.val() == power(
                self.val(),
                exp as nat,
            ),
    {
        proof {
            self.lemma_bounds_in_domain();
        }
        self.rebound(checked_pow_of(self.value, exp))
    }

    /// `self` raised to `exp`, which the caller knows to lie in range.
    pub fn unchecked_pow(self, exp: u32) -> (r: Self)
        requires
            self.wf(),
            self.lo() <= power(self.val(), exp as nat) <= self.hi(),
        ensures
            r.same_bounds(self),
            r.wf(),
            r.val() == power(self.val(), exp as nat),
    {
        self.checked_pow(exp).unwrap()
    }

    /// `self` raised to `exp`, moved to the nearest bound of the range where
    /// it lies outside.
    pub fn saturating_pow(self, exp: u32) -> (r: Self)
        requires
            self.wf(),
        ensures
            r.same_bounds(self),
            r.wf(),
            r.val() == clamp(power(self.val(), exp as nat), self.lo(), self.hi()),
    {
        proof {
            self.lemma_bounds_in_domain();
            T::lemma_domain();
            lemma_power_sign(self.val(), exp as nat);
        }
        match checked_pow_of(self.value, exp) {
            Some(v) => self.new_saturating(v),
            None => {
                if !T::zero().le(self.value) && exp % 2 == 1 {
                    self.min_value()
                } else {
                    self.max_value()
                }
            },
        }
    }
    /// Parses decimal text, as the primitive kind's own parser reads it, into
    /// a value of the range `min..=max`. Text that parser refuses keeps the
    /// kind of error it gave; a number that lies outside the range is reported
    /// as `NegOverflow` below `min`, else as `PosOverflow` above `max`.
    pub fn from_str(min: T, max: T, s: &str) -> (r: Result<Self, ParseIntError>)
        ensures
            r is Ok <==> (is_int_text(s@, is_signed::<T>()) && min.to_int() <= int_text_value(
                s@,
                is_signed::<T>(),
            ) <= max.to_int()),
            r matches Ok(b) ==> b.lower() == min && b.upper() == max && b.wf() && b.val()
                == int_text_value(s@, is_signed::<T>()),
            s@.len() == 0 ==> (r matches Err(e) && e.spec_kind() == IntErrorKind::Empty),
            no_leading_digit(s@, is_signed::<T>()) ==> (r matches Err(e) && e.spec_kind()
                == IntErrorKind::InvalidDigit),
            !(is_int_text(s@, is_signed::<T>()) && in_domain::<T>(
                int_text_value(s@, is_signed::<T>()),
            )) ==> (r matches Err(e) && e.spec_kind() == int_parse_error(s@, T::lo(), T::hi())),
            is_int_text(s@, is_signed::<T>()) && int_text_value(s@, is_signed::<T>())
                < min.to_int() ==> (r matches Err(e) && e.spec_kind() == IntErrorKind::NegOverflow),
            is_int_text(s@, is_signed::<T>()) && min.to_int() <= int_text_value(
                s@,
                is_signed::<T>(),
            ) && int_text_value(s@, is_signed::<T>()) > max.to_int() ==> (r matches Err(e)
                && e.spec_kind() == IntErrorKind::PosOverflow),
            r matches Err(e) ==> e.spec_kind() != IntErrorKind::Zero && (e.spec_kind()
                == IntErrorKind::Empty ==> s@.len() == 0),
    {
        proof {
            min.lemma_in_domain();
            max.lemma_in_domain();
        }
        match T::parse(s) {
            Ok(v) => {
                if !min.le(v) {
                    Err(ParseIntError::from_kind(IntErrorKind::NegOverflow))
                } else if !v.le(max) {
                    Err(ParseIntError::from_kind(IntErrorKind::PosOverflow))
                } else {
                    Ok(Ranged { min, max, value: v })
                }
            },
            Err(kind) => Err(ParseIntError::from_kind(kind)),
        }
    }

    /// Converts a primitive of the same kind, failing where it lies outside
    /// `min..=max`.
    pub fn try_from(min: T, max: T, value: T) -> (r: Result<Self, TryFromIntError>)
        ensures
            r is Ok <==> min.to_int() <= value.to_int() <= max.to_int(),
            r matches Ok(b) ==> b.lower() == min && b.upper() == max && b.inner() == value
                && b.wf(),
    {
        match Self::new(min, max, value) {
            Some(b) => Ok(b),
            None => Err(TryFromIntError),
        }
    }

    /// Converts a primitive of any kind, failing where its value lies outside
    /// `min..=max`.
    pub fn try_from_value<U: Primitive>(min: T, max: T, value: U) -> (r: Result<
        Self,
        TryFromIntError,
    >)
        ensures
            r is Ok <==> min.to_int() <= value.to_int() <= max.to_int(),
            r matches Ok(b) ==> b.lower() == min && b.upper() == max && b.val() == value.to_int()
                && b.wf(),
    {
        proof {
            min.lemma_in_domain();
            max.lemma_in_domain();
        }
        match T::from_wide(value.to_wide()) {
            Some(v) => {
                match Self::new(min, max, v) {
                    Some(b) => Ok(b),
                    None => Err(TryFromIntError),
                }
            },
            None => Err(TryFromIntError),
        }
    }

    /// The value as a sign and a magnitude.
    pub fn to_wide(self) -> (r: crate::primitive::Wide)
        ensures
            r.value() == self.val(),
    {
        self.value.to_wide()
    }

    /// Moves the value into a range `min..=max` of any kind that holds the
    /// whole of this value's range, so that the conversion cannot fail.
    pub fn expand<U: Primitive>(self, min: U, max: U) -> (r: Ranged<U>)
        requires
            self.wf(),
            min.to_int() <= self.lo(),
            self.hi() <= max.to_int(),
        ensures
            r.lower() == min,
            r.upper() == max,
            r.val() == self.val(),
            r.wf(),
    {
        proof {
            min.lemma_in_domain();
            max.lemma_in_domain();
        }
        let v = U::from_wide(self.value.to_wide()).unwrap();
        Ranged { min, max, value: v }
    }

    /// Moves the value into a range `min..=max` of any kind, failing where it
    /// lies outside that range.
    pub fn try_convert<U: Primitive>(self, min: U, max: U) -> (r: Result<
        Ranged<U>,
        TryFromIntError,
    >)
        requires
            self.wf(),
        ensures
            r is Ok <==> min.to_int() <= self.val() <= max.to_int(),
            r matches Ok(b) ==> b.lower() == min && b.upper() == max && b.val() == self.val()
                && b.wf(),
    {
        Ranged::<U>::try_from_value(min, max, self.value)
    }

    /// Whether two values of any kinds and ranges are equal.
    pub fn eq_value<U: Primitive>(&self, other: &Ranged<U>) -> (r: bool)
        ensures
            r == (self.val() == other.val()),
    {
        self.value.to_wide().same_value(other.get().to_wide())
    }

    /// Orders two values of any kinds and ranges by their values.
    pub fn cmp_value<U: Primitive>(&self, other: &Ranged<U>) -> (r: core::cmp::Ordering)
        ensures
            (r == core::cmp::Ordering::Less) == (self.val() < other.val()),
            (r == core::cmp::Ordering::Equal) == (self.val() == other.val()),
            (r == core::cmp::Ordering::Greater) == (self.val() > other.val()),
    {
        let a = self.value.to_wide();
        let b = other.get().to_wide();
        if !b.le(a) {
            core::cmp::Ordering::Less
        } else if !a.le(b) {
            core::cmp::Ordering::Greater
        } else {
            core::cmp::Ordering::Equal
        }
    }
}

impl<T: Primitive> PartialEq for Ranged<T> {
    fn eq(&self, other: &Self) -> (r: bool) {
        self.value.le(other.value) && other.value.le(self.value)
    }
}

impl<T: Primitive> vstd::std_specs::cmp::PartialEqSpecImpl for Ranged<T> {
    open spec fn obeys_eq_spec() -> bool {
        true
    }

    /// Values of one kind compare by their values, whatever their bounds.
    open spec fn eq_spec(&self, other: &Self) -> bool {
        self.val() == other.val()
    }
}

impl<T: Primitive> PartialOrd for Ranged<T> {
    fn partial_cmp(&self, other: &Self) -> (r: Option<core::cmp::Ordering>) {
        if !other.value.le(self.value) {
            Some(core::cmp::Ordering::Less)
        } else if !self.value.le(other.value) {
            Some(core::cmp::Ordering::Greater)
        } else {
            Some(core::cmp::Ordering::Equal)
        }
    }
}

impl<T: Primitive> vstd::std_specs::cmp::PartialOrdSpecImpl for Ranged<T> {
    open spec fn obeys_partial_cmp_spec() -> bool {
        true
    }

    /// Values of one kind are ordered by their values, whatever their bounds.
    open spec fn partial_cmp_spec(&self, other: &Self) -> Option<core::cmp::Ordering> {
        if self.val() < other.val() {
            Some(core::cmp::Ordering::Less)
        } else if self.val() > other.val() {
            Some(core::cmp::Ordering::Greater)
        } else {
            Some(core::cmp::Ordering::Equal)
        }
    }
}

/// A `u8` known to lie in a fixed range.
pub type RangedU8 = Ranged<u8>;

/// A `u16` known to lie in a fixed range.
pub type RangedU16 = Ranged<u16>;

/// A `u32` known to lie in a fixed range.
pub type RangedU32 = Ranged<u32>;

/// A `u64` known to lie in a fixed range.
pub type RangedU64 = Ranged<u64>;

/// A `u128` known to lie in a fixed range.
pub type RangedU128 = Ranged<u128>;

/// A `usize` known to lie in a fixed range.
pub type RangedUsize = Ranged<usize>;

/// An `i8` known to lie in a fixed range.
pub type RangedI8 = Ranged<i8>;

/// An `i16` known to lie in a fixed range.
pub type RangedI16 = Ranged<i16>;

/// An `i32` known to lie in a fixed range.
pub type RangedI32 = Ranged<i32>;

/// An `i64` known to lie in a fixed range.
pub type RangedI64 = Ranged<i64>;

/// An `i128` known to lie in a fixed range.
pub type RangedI128 = Ranged<i128>;

/// An `isize` known to lie in a fixed range.
pub type RangedIsize = Ranged<isize>;

/// The sign of a power: negative exactly for a negative base and an odd
/// exponent, zero only for a zero base.
proof fn lemma_power_sign(base: int, exp: nat)
    ensures
        base > 0 ==> power(base, exp) > 0,
        base == 0 ==> power(base, exp) == (if exp == 0 { 1int } else { 0int }),
        base < 0 && exp % 2 == 0 ==> power(base, exp) > 0,
        base < 0 && exp % 2 == 1 ==> power(base, exp) < 0,
    decreases exp,
{
    if exp > 0 {
        let prev = power(base, (exp - 1) as nat);
        lemma_power_sign(base, (exp - 1) as nat);
        assert(base > 0 && prev > 0 ==> base * prev > 0) by (nonlinear_arith);
        assert(base < 0 && prev > 0 ==> base * prev < 0) by (nonlinear_arith);
        assert(base < 0 && prev < 0 ==> base * prev > 0) by (nonlinear_arith);
    }
}

/// `1` and `-1` raised to any exponent stay within `{-1, 1}`.
proof fn lemma_power_unit(base: int, exp: nat)
    requires
        base == 1 || base == -1,
    ensures
        power(base, exp) == (if base == -1 && exp % 2 == 1 { -1int } else { 1int }),
    decreases exp,
{
    if exp > 0 {
        lemma_power_unit(base, (exp - 1) as nat);
    }
}

/// For a base of magnitude at least two, each further factor at least doubles
/// the magnitude of a power.
proof fn lemma_power_grows(base: int, m: nat, n: nat)
    requires
        abs(base) >= 2,
        m < n,
    ensures
        abs(power(base, n)) >= 2 * abs(power(base, m)),
    decreases n,
{
    let prev = power(base, (n - 1) as nat);
    assert(abs(base * prev) == abs(base) * abs(prev)) by (nonlinear_arith);
    assert(abs(base) * abs(prev) >= 2 * abs(prev)) by (nonlinear_arith)
        requires
            abs(base) >= 2,
    ;
    if m < n - 1 {
        lemma_power_grows(base, m, (n - 1) as nat);
    }
}

/// `a` raised to `exp` in the primitive kind, or `None` where the power lies
/// outside the kind's domain.
fn checked_pow_of<T: Primitive>(a: T, exp: u32) -> (r: Option<T>)
    ensures
        r is Some <==> in_domain::<T>(power(a.to_int(), exp as nat)),
        r matches Some(v) ==> v.to_int() == power(a.to_int(), exp as nat),
{
    proof {
        T::lemma_domain();
        a.lemma_in_domain();
    }
    let zero = T::zero();
    let one = T::one();
    if a.le(zero) && zero.le(a) {
        proof {
            lemma_power_sign(a.to_int(), exp as nat);
        }
        return if exp == 0 {
            Some(one)
        } else {
            Some(zero)
        };
    }
    if a.le(one) && one.le(a) {
        proof {
            lemma_power_unit(1, exp as nat);
        }
        return Some(one);
    }
    match zero.checked_sub(one) {
        Some(minus_one) => {
            if a.le(minus_one) && minus_one.le(a) {
                proof {
                    lemma_power_unit(-1, exp as nat);
                }
                return if exp % 2 == 1 {
                    Some(a)
                } else {
                    Some(one)
                };
            }
        },
        None => {},
    }
    let ghost base = a.to_int();
    assert(abs(base) >= 2);
    let mut acc = one;
    let mut i: u32 = 0;
    while i < exp
        invariant
            i <= exp,
            acc.to_int() == power(base, i as nat),
            base == a.to_int(),
            abs(base) >= 2,
            T::lo() <= base <= T::hi(),
            T::lo() == 0 || T::lo() == -T::hi() - 1,
            T::lo() <= 0 < T::hi(),
        decreases exp - i,
    {
        assert(power(base, (i + 1) as nat) == base * power(base, i as nat));
        assert(acc.to_int() * base == power(base, (i + 1) as nat)) by (nonlinear_arith)
            requires
                acc.to_int() == power(base, i as nat),
                power(base, (i + 1) as nat) == base * power(base, i as nat),
        ;
        match acc.checked_mul(a) {
            Some(next) => {
                acc = next;
                i = i + 1;
            },
            None => {
                proof {
                    acc.lemma_in_domain();
                    let x = power(base, (i + 1) as nat);
                    assert(T::lo() == 0 ==> x >= 0) by (nonlinear_arith)
                        requires
                            x == acc.to_int() * base,
                            T::lo() <= acc.to_int(),
                            T::lo() <= base,
                    ;
                    let y = power(base, exp as nat);
                    if i + 1 < exp {
                        lemma_power_grows(base, (i + 1) as nat, exp as nat);
                    }
                    assert(abs(x) >= T::hi() + 1);
                    assert(!in_domain::<T>(y));
                }
                return None;
            },
        }
    }
    proof {
        acc.lemma_in_domain();
    }
    Some(acc)
}

} // verus!
