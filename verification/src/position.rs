//! Geographic positions.
//!
//! The library never does arithmetic on angles. It carries every latitude and
//! longitude as the 64 bits of the IEEE 754 double that the feed or the
//! airport table gave, and hands the same bits on, so that no digit is lost on
//! the way from a snapshot to the aggregate. Distances reach the library
//! already measured (see the `filter` module).

use vstd::prelude::*;

verus! {

/// An angle in decimal degrees, held as the bit pattern of an IEEE 754 double.
#[derive(Clone, Copy, Debug, PartialEq, Eq, Structural)]
pub struct Degrees {
    pub bits: u64,
}

/// A point on the globe.
#[derive(Clone, Copy, Debug, PartialEq, Eq, Structural)]
pub struct Position {
    pub longitude: Degrees,
    pub latitude: Degrees,
}

impl Degrees {
    /// The angle with the given bit pattern.
    pub fn from_bits(bits: u64) -> (angle: Degrees)
        ensures
            angle.bits == bits,
    {
        Degrees { bits }
    }
}

impl Position {
    /// The point at the given longitude and latitude.
    pub fn new(longitude: Degrees, latitude: Degrees) -> (point: Position)
        ensures
            point.longitude == longitude,
            point.latitude == latitude,
    {
        Position { longitude, latitude }
    }
}

} // verus!
