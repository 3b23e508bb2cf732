//! Which normals and tangents have a direction, told from their half-precision bit
//! patterns.
//!
//! A half-precision pattern is a sign bit above fifteen bits of magnitude. Magnitude zero
//! is the number zero; the magnitudes from that of infinity on are infinity and what is
//! not a number. A vector of three such patterns has a length by which it can be scaled
//! to length one exactly when all three are finite and one of them is not zero.

use vstd::prelude::*;
use crate::model_data::{FrenetFrame, Vector3D};

verus! {

/// The half-precision pattern whose only set bit is the sign bit.
pub const HALF_SIGN_BIT: u16 = 0x8000;

/// The half-precision magnitude of infinity.
pub const HALF_INFINITY: u16 = 0x7C00;

/// The pattern without its sign bit.
pub open spec fn half_magnitude(bits: u16) -> int {
    if bits >= 0x8000 {
        bits - 0x8000
    } else {
        bits as int
    }
}

/// Whether the pattern is a number other than the two infinities.
pub open spec fn half_is_finite(bits: u16) -> bool {
    half_magnitude(bits) < 0x7C00
}

/// Whether the pattern is one of the two zeros.
pub open spec fn half_is_zero(bits: u16) -> bool {
    half_magnitude(bits) == 0
}

/// Whether the vector can be scaled to length one: its components are finite and not all
/// zero.
pub open spec fn has_direction(vector: Vector3D<u16>) -> bool {
    &&& half_is_finite(vector.x)
    &&& half_is_finite(vector.y)
    &&& half_is_finite(vector.z)
    &&& !(half_is_zero(vector.x) && half_is_zero(vector.y) && half_is_zero(vector.z))
}

/// The pattern without its sign bit.
fn magnitude_of(bits: u16) -> (magnitude: u16)
    ensures
        magnitude == half_magnitude(bits),
{
    if bits >= HALF_SIGN_BIT {
        bits - HALF_SIGN_BIT
    } else {
        bits
    }
}

/// What is to be done with a normal or a tangent.
#[derive(Clone, Copy, Debug, PartialEq, Eq)]
pub enum Direction {
    /// The vector is to be scaled to length one.
    Scaled,
    /// The vector has no direction: the zero vector stands for it.
    Zero,
}

impl Vector3D<u16> {
    /// Whether the vector is to be scaled, or to be replaced by the zero vector.
    pub fn direction(&self) -> (direction: Direction)
        ensures
            direction == if has_direction(*self) {
                Direction::Scaled
            } else {
                Direction::Zero
            },
    {
        let x: u16 = magnitude_of(self.x);
        let y: u16 = magnitude_of(self.y);
        let z: u16 = magnitude_of(self.z);
        if x < HALF_INFINITY && y < HALF_INFINITY && z < HALF_INFINITY && !(x == 0 && y == 0 && z
            == 0) {
            Direction::Scaled
        } else {
            Direction::Zero
        }
    }
}

impl FrenetFrame<u16> {
    /// Whether the normal of the frame is anomalous: it has no direction, and the zero
    /// vector stands for it.
    pub fn has_anomalous_normal(&self) -> (anomalous: bool)
        ensures
            anomalous == !has_direction(self.normal),
    {
        match self.normal.direction() {
            Direction::Scaled => false,
            Direction::Zero => true,
        }
    }
}

} // verus!
