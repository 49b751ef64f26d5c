//! Integers whose range is fixed when their bounds are chosen, and the
//! resolution of a pair of literal bounds to the narrowest primitive kind that
//! holds them.
pub mod error;
pub mod input;
pub mod literal;
pub mod primitive;
pub mod ranged;
pub mod resolve;
pub mod unsafe_wrapper;

pub use error::{IntErrorKind, ParseIntError, TryFromIntError};
pub use literal::{parse_lit_int, Integer, LiteralError, Suffix};
pub use primitive::{Primitive, Wide};
pub use ranged::{
    Ranged, RangedI128, RangedI16, RangedI32, RangedI64, RangedI8, RangedIsize, RangedU128,
    RangedU16, RangedU32, RangedU64, RangedU8, RangedUsize,
};
pub use resolve::{Kind, MinMax, ResolveError};
pub use unsafe_wrapper::Unsafe;
