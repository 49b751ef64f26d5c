//! Choosing the narrowest primitive kind that holds a pair of literal bounds.
use vstd::prelude::*;

use crate::literal::Integer;
use crate::primitive::Primitive;

verus! {

/// One of the twelve primitive integer kinds.
#[derive(Debug, Clone, Copy, PartialEq, Eq, Structural)]
pub enum Kind {
    U8,
    U16,
    U32,
    U64,
    U128,
    Usize,
    I8,
    I16,
    I32,
    I64,
    I128,
    Isize,
}

impl Kind {
    /// The smallest value of the kind.
    pub open spec fn lo(self) -> int {
        match self {
            Kind::U8 => u8::MIN as int,
            Kind::U16 => u16::MIN as int,
            Kind::U32 => u32::MIN as int,
            Kind::U64 => u64::MIN as int,
            Kind::U128 => u128::MIN as int,
            Kind::Usize => usize::MIN as int,
            Kind::I8 => i8::MIN as int,
            Kind::I16 => i16::MIN as int,
            Kind::I32 => i32::MIN as int,
            Kind::I64 => i64::MIN as int,
            Kind::I128 => i128::MIN as int,
            Kind::Isize => isize::MIN as int,
        }
    }

    /// The largest value of the kind.
    pub open spec fn hi(self) -> int {
        match self {
            Kind::U8 => u8::MAX as int,
            Kind::U16 => u16::MAX as int,
            Kind::U32 => u32::MAX as int,
            Kind::U64 => u64::MAX as int,
            Kind::U128 => u128::MAX as int,
            Kind::Usize => usize::MAX as int,
            Kind::I8 => i8::MAX as int,
            Kind::I16 => i16::MAX as int,
            Kind::I32 => i32::MAX as int,
            Kind::I64 => i64::MAX as int,
            Kind::I128 => i128::MAX as int,
            Kind::Isize => isize::MAX as int,
        }
    }

    pub open spec fn is_signed(self) -> bool {
        self.lo() < 0
    }

    /// The name of the bounded type stored in this kind, or of its optional
    /// counterpart.
    pub open spec fn spec_ranged_name(self, optional: bool) -> Seq<char> {
        match self {
            Kind::U8 => if optional { "OptionRangedU8"@ } else { "RangedU8"@ },
            Kind::U16 => if optional { "OptionRangedU16"@ } else { "RangedU16"@ },
            Kind::U32 => if optional { "OptionRangedU32"@ } else { "RangedU32"@ },
            Kind::U64 => if optional { "OptionRangedU64"@ } else { "RangedU64"@ },
            Kind::U128 => if optional { "OptionRangedU128"@ } else { "RangedU128"@ },
            Kind::Usize => if optional { "OptionRangedUsize"@ } else { "RangedUsize"@ },
            Kind::I8 => if optional { "OptionRangedI8"@ } else { "RangedI8"@ },
            Kind::I16 => if optional { "OptionRangedI16"@ } else { "RangedI16"@ },
            Kind::I32 => if optional { "OptionRangedI32"@ } else { "RangedI32"@ },
            Kind::I64 => if optional { "OptionRangedI64"@ } else { "RangedI64"@ },
            Kind::I128 => if optional { "OptionRangedI128"@ } else { "RangedI128"@ },
            Kind::Isize => if optional { "OptionRangedIsize"@ } else { "RangedIsize"@ },
        }
    }

    pub fn ranged_name(self, optional: bool) -> (r: &'static str)
        ensures
            r@ == self.spec_ranged_name(optional),
    {
        match self {
            Kind::U8 => if optional {
                "OptionRangedU8"
            } else {
                "RangedU8"
            },
            Kind::U16 => if optional {
                "OptionRangedU16"
            } else {
                "RangedU16"
            },
            Kind::U32 => if optional {
                "OptionRangedU32"
            } else {
                "RangedU32"
            },
            Kind::U64 => if optional {
                "OptionRangedU64"
            } else {
                "RangedU64"
            },
            Kind::U128 => if optional {
                "OptionRangedU128"
            } else {
                "RangedU128"
            },
            Kind::Usize => if optional {
                "OptionRangedUsize"
            } else {
                "RangedUsize"
            },
            Kind::I8 => if optional {
                "OptionRangedI8"
            } else {
                "RangedI8"
            },
            Kind::I16 => if optional {
                "OptionRangedI16"
            } else {
                "RangedI16"
            },
            Kind::I32 => if optional {
                "OptionRangedI32"
            } else {
                "RangedI32"
            },
            Kind::I64 => if optional {
                "OptionRangedI64"
            } else {
                "RangedI64"
            },
            Kind::I128 => if optional {
                "OptionRangedI128"
            } else {
                "RangedI128"
            },
            Kind::Isize => if optional {
                "OptionRangedIsize"
            } else {
                "RangedIsize"
            },
        }
    }
}

/// Whether the kind may hold the literal: its suffix allows the kind's
/// signedness and its value lies in the kind's domain.
pub open spec fn holds(kind: Kind, i: Integer) -> bool {
    &&& if kind.is_signed() {
        i.spec_can_be_signed()
    } else {
        i.spec_can_be_unsigned()
    }
    &&& kind.lo() <= i.value() <= kind.hi()
}

pub open spec fn holds_both(kind: Kind, min: Integer, max: Integer) -> bool {
    holds(kind, min) && holds(kind, max)
}

/// The kind chosen for a pair of bounds: the first, in the order unsigned
/// before signed and narrow before wide, that holds both.
pub open spec fn resolve(min: Integer, max: Integer) -> Option<Kind> {
    if holds_both(Kind::U8, min, max) {
        Some(Kind::U8)
    } else if holds_both(Kind::U16, min, max) {
        Some(Kind::U16)
    } else if holds_both(Kind::U32, min, max) {
        Some(Kind::U32)
    } else if holds_both(Kind::U64, min, max) {
        Some(Kind::U64)
    } else if holds_both(Kind::U128, min, max) {
        Some(Kind::U128)
    } else if holds_both(Kind::I8, min, max) {
        Some(Kind::I8)
    } else if holds_both(Kind::I16, min, max) {
        Some(Kind::I16)
    } else if holds_both(Kind::I32, min, max) {
        Some(Kind::I32)
    } else if holds_both(Kind::I64, min, max) {
        Some(Kind::I64)
    } else if holds_both(Kind::I128, min, max) {
        Some(Kind::I128)
    } else {
        None
    }
}

/// A pair of bounds, recast into the kind chosen for them.
#[derive(Debug, Clone, Copy, PartialEq, Eq, Structural)]
pub enum MinMax {
    U8(u8, u8),
    U16(u16, u16),
    U32(u32, u32),
    U64(u64, u64),
    U128(u128, u128),
    I8(i8, i8),
    I16(i16, i16),
    I32(i32, i32),
    I64(i64, i64),
    I128(i128, i128),
}

/// No primitive kind holds both bounds.
#[derive(Debug, Clone, Copy, PartialEq, Eq, Structural)]
pub struct ResolveError;

impl ResolveError {
    pub fn message(&self) -> (r: &'static str)
        ensures
            r@ == "minimum and maximum values cannot be represented by any one primitive integer"@,
    {
        "minimum and maximum values cannot be represented by any one primitive integer"
    }
}

impl MinMax {
    pub open spec fn kind(self) -> Kind {
        match self {
            MinMax::U8(_, _) => Kind::U8,
            MinMax::U16(_, _) => Kind::U16,
            MinMax::U32(_, _) => Kind::U32,
            MinMax::U64(_, _) => Kind::U64,
            MinMax::U128(_, _) => Kind::U128,
            MinMax::I8(_, _) => Kind::I8,
            MinMax::I16(_, _) => Kind::I16,
            MinMax::I32(_, _) => Kind::I32,
            MinMax::I64(_, _) => Kind::I64,
            MinMax::I128(_, _) => Kind::I128,
        }
    }

    pub open spec fn min_int(self) -> int {
        match self {
            MinMax::U8(a, _) => a as int,
            MinMax::U16(a, _) => a as int,
            MinMax::U32(a, _) => a as int,
            MinMax::U64(a, _) => a as int,
            MinMax::U128(a, _) => a as int,
            MinMax::I8(a, _) => a as int,
            MinMax::I16(a, _) => a as int,
            MinMax::I32(a, _) => a as int,
            MinMax::I64(a, _) => a as int,
            MinMax::I128(a, _) => a as int,
        }
    }

    pub open spec fn max_int(self) -> int {
        match self {
            MinMax::U8(_, b) => b as int,
            MinMax::U16(_, b) => b as int,
            MinMax::U32(_, b) => b as int,
            MinMax::U64(_, b) => b as int,
            MinMax::U128(_, b) => b as int,
            MinMax::I8(_, b) => b as int,
            MinMax::I16(_, b) => b as int,
            MinMax::I32(_, b) => b as int,
            MinMax::I64(_, b) => b as int,
            MinMax::I128(_, b) => b as int,
        }
    }

    /// The kind the bounds were recast into.
    pub fn get_kind(&self) -> (r: Kind)
        ensures
            r == self.kind(),
    {
        match self {
            MinMax::U8(_, _) => Kind::U8,
            MinMax::U16(_, _) => Kind::U16,
            MinMax::U32(_, _) => Kind::U32,
            MinMax::U64(_, _) => Kind::U64,
            MinMax::U128(_, _) => Kind::U128,
            MinMax::I8(_, _) => Kind::I8,
            MinMax::I16(_, _) => Kind::I16,
            MinMax::I32(_, _) => Kind::I32,
            MinMax::I64(_, _) => Kind::I64,
            MinMax::I128(_, _) => Kind::I128,
        }
    }

    /// Chooses the narrowest kind that holds both bounds, trying the unsigned
    /// kinds from 8 to 128 bits and then the signed ones, and recasts the
    /// bounds into it.
    pub fn from_min_max(min: &Integer, max: &Integer) -> (r: Result<MinMax, ResolveError>)
        ensures
            r is Err <==> resolve(*min, *max) is None,
            r matches Ok(mm) ==> resolve(*min, *max) == Some(mm.kind()) && mm.min_int()
                == min.value() && mm.max_int() == max.value(),
    {
        match (min.to_unsigned::<u8>(), max.to_unsigned::<u8>()) {
            (Some(a), Some(b)) => {
                return Ok(MinMax::U8(a, b));
            },
            _ => {},
        }
        match (min.to_unsigned::<u16>(), max.to_unsigned::<u16>()) {
            (Some(a), Some(b)) => {
                return Ok(MinMax::U16(a, b));
            },
            _ => {},
        }
        match (min.to_unsigned::<u32>(), max.to_unsigned::<u32>()) {
            (Some(a), Some(b)) => {
                return Ok(MinMax::U32(a, b));
            },
            _ => {},
        }
        match (min.to_unsigned::<u64>(), max.to_unsigned::<u64>()) {
            (Some(a), Some(b)) => {
                return Ok(MinMax::U64(a, b));
            },
            _ => {},
        }
        match (min.to_unsigned::<u128>(), max.to_unsigned::<u128>()) {
            (Some(a), Some(b)) => {
                return Ok(MinMax::U128(a, b));
            },
            _ => {},
        }
        match (min.to_signed::<i8>(), max.to_signed::<i8>()) {
            (Some(a), Some(b)) => {
                return Ok(MinMax::I8(a, b));
            },
            _ => {},
        }
        match (min.to_signed::<i16>(), max.to_signed::<i16>()) {
            (Some(a), Some(b)) => {
                return Ok(MinMax::I16(a, b));
            },
            _ => {},
        }
        match (min.to_signed::<i32>(), max.to_signed::<i32>()) {
            (Some(a), Some(b)) => {
                return Ok(MinMax::I32(a, b));
            },
            _ => {},
        }
        match (min.to_signed::<i64>(), max.to_signed::<i64>()) {
            (Some(a), Some(b)) => {
                return Ok(MinMax::I64(a, b));
            },
            _ => {},
        }
        match (min.to_signed::<i128>(), max.to_signed::<i128>()) {
            (Some(a), Some(b)) => {
                return Ok(MinMax::I128(a, b));
            },
            _ => {},
        }
        Err(ResolveError)
    }
}

} // verus!
