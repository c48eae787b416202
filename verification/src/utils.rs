//! Narrowing conversions between sample widths.

use vstd::prelude::*;

use crate::errors::{parse_error, Error};

verus! {

/// Converts a signed integer in -128..=127 to an unsigned one in 0..=255.
pub fn u8_from_signed(x: i8) -> (r: u8)
    ensures
        r == x + 128,
{
    (x as i16 + 128) as u8
}

/// Casts the sample to an 8-bit signed integer, or errors on overflow.
pub fn narrow_to_i8(x: i32) -> (r: Result<i8, Error>)
    ensures
        -128 <= x <= 127 ==> r == Result::<i8, Error>::Ok(x as i8),
        !(-128 <= x <= 127) ==> r == Result::<i8, Error>::Err(
            Error::ParseError("Too Wide to cast to i8"),
        ),
{
    if x < i8::MIN as i32 || x > i8::MAX as i32 {
        parse_error::<i8>("Too Wide to cast to i8")
    } else {
        Ok(x as i8)
    }
}

/// Casts the sample to a 16-bit signed integer, or errors on overflow.
pub fn narrow_to_i16(x: i32) -> (r: Result<i16, Error>)
    ensures
        -0x8000 <= x <= 0x7fff ==> r == Result::<i16, Error>::Ok(x as i16),
        !(-0x8000 <= x <= 0x7fff) ==> r == Result::<i16, Error>::Err(
            Error::ParseError("Too Wide to cast to i16"),
        ),
{
    if x < i16::MIN as i32 || x > i16::MAX as i32 {
        parse_error::<i16>("Too Wide to cast to i16")
    } else {
        Ok(x as i16)
    }
}

/// Casts the sample to a 24-bit signed integer, or errors on overflow.
pub fn narrow_to_i24(x: i32) -> (r: Result<i32, Error>)
    ensures
        -0x80_0000 <= x <= 0x7f_ffff ==> r == Result::<i32, Error>::Ok(x),
        !(-0x80_0000 <= x <= 0x7f_ffff) ==> r == Result::<i32, Error>::Err(
            Error::ParseError("Too Wide to cast to i24"),
        ),
{
    if x < -0x80_0000 || x > 0x7f_ffff {
        parse_error::<i32>("Too Wide to cast to i24")
    } else {
        Ok(x)
    }
}

} // verus!
