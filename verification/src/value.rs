//! Signed fixed-point numbers with sixteen fractional bits.
//!
//! Command arguments, angles, feed lengths and PWM limits are all carried as
//! `Value`.  A `Value` stores `raw` sixteenths-of-sixty-five-thousandths:
//! the number it denotes is `raw / 65536`.  All arithmetic is done on the
//! raw integer, so every operation has an exact integer specification.

use vstd::prelude::*;

verus! {

/// Raw units per whole unit: a `Value` has sixteen fractional bits.
pub const UNIT: i32 = 65536;

/// A signed fixed-point number; the denoted quantity is `raw / 65536`.
#[derive(Clone, Copy, Debug, PartialEq, Eq, Structural)]
pub struct Value {
    pub raw: i32,
}

impl Value {
    /// The value denoting zero.
    pub fn zero() -> (r: Value)
        ensures
            r.raw == 0,
    {
        Value { raw: 0 }
    }

    /// Builds a value from its raw sixteen-bit-fraction representation.
    pub fn from_raw(raw: i32) -> (r: Value)
        ensures
            r.raw == raw,
    {
        Value { raw }
    }

    /// Builds the value denoting the whole number `n`.
    pub fn from_int(n: i16) -> (r: Value)
        ensures
            r.raw == n as int * UNIT,
    {
        Value { raw: (n as i32) * UNIT }
    }

    /// Whole-number part, truncated toward zero.
    pub fn trunc(self) -> (r: i32)
        ensures
            r == spec_trunc(self.raw as int),
    {
        if self.raw >= 0 {
            self.raw / UNIT
        } else {
            -((-(self.raw as i64)) as i64 / (UNIT as i64)) as i32
        }
    }

    /// Sum of two values; the caller shows the raw sum stays in range.
    pub fn add(self, other: Value) -> (r: Value)
        requires
            i32::MIN <= self.raw + other.raw <= i32::MAX,
        ensures
            r.raw == self.raw + other.raw,
    {
        Value { raw: self.raw + other.raw }
    }

    /// Difference of two values; the caller shows the raw difference stays
    /// in range.
    pub fn sub(self, other: Value) -> (r: Value)
        requires
            i32::MIN <= self.raw - other.raw <= i32::MAX,
        ensures
            r.raw == self.raw - other.raw,
    {
        Value { raw: self.raw - other.raw }
    }

    /// The feeder index this value names: the whole part, or nothing
    /// for a negative value.
    pub fn to_index(self) -> (r: Option<usize>)
        ensures
            r == spec_to_index(self.raw as int),
    {
        let t: i32 = self.trunc();
        if t >= 0 {
            Some(t as usize)
        } else {
            None
        }
    }

    /// The whole part as a count, clamped below at zero.
    pub fn to_u32_clamped(self) -> (r: u32)
        ensures
            r == spec_to_u32(self.raw as int),
    {
        let t: i32 = self.trunc();
        if t >= 0 {
            t as u32
        } else {
            0
        }
    }

    /// The smaller of two values.
    pub fn min(self, other: Value) -> (r: Value)
        ensures
            r.raw == if self.raw <= other.raw { self.raw } else { other.raw },
    {
        if self.raw <= other.raw {
            self
        } else {
            other
        }
    }
}

/// Truncation toward zero of `raw / 65536`.
pub open spec fn spec_trunc(raw: int) -> int {
    if raw >= 0 {
        raw / (UNIT as int)
    } else {
        -((-raw) / (UNIT as int))
    }
}

/// The feeder index a raw value names, if any.
pub open spec fn spec_to_index(raw: int) -> Option<usize> {
    if spec_trunc(raw) >= 0 {
        Some(spec_trunc(raw) as usize)
    } else {
        None
    }
}

/// The whole part of a raw value as a count, clamped below at zero.
pub open spec fn spec_to_u32(raw: int) -> u32 {
    if spec_trunc(raw) >= 0 {
        spec_trunc(raw) as u32
    } else {
        0
    }
}

} // verus!
