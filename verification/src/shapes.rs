//! The primitive shapes of the scene.
//!
//! Each primitive's intersection and normal kernels are numeric and live with
//! the host renderer; these types tag the primitive kinds, and the cube
//! contributes the one discrete rule among the kernels: which face a surface
//! point belongs to.

use vstd::prelude::*;

verus! {

/// The unit sphere about the origin.
#[derive(Debug, Clone, Copy, PartialEq, Eq, Structural)]
pub struct Sphere {}

/// The plane y = 0.
#[derive(Debug, Clone, Copy, PartialEq, Eq, Structural)]
pub struct Plane {}

/// The axis-aligned cube spanning -1 to 1 on every axis.
#[derive(Debug, Clone, Copy, PartialEq, Eq, Structural)]
pub struct Cube {}

/// A coordinate axis, naming the pair of cube faces it crosses.
#[derive(Debug, Clone, Copy, PartialEq, Eq, Structural)]
pub enum Axis {
    X,
    Y,
    Z,
}

impl Cube {
    /// The face a surface point lies on: the axis whose coordinate has the
    /// largest magnitude, ties resolved in favour of x, then y. The arguments
    /// are order keys of the coordinates' magnitudes.
    pub fn dominant_axis(ax: u64, ay: u64, az: u64) -> (r: Axis)
        ensures
            r == (if ax >= ay && ax >= az {
                Axis::X
            } else if ay >= az {
                Axis::Y
            } else {
                Axis::Z
            }),
    {
        if ax >= ay && ax >= az {
            Axis::X
        } else if ay >= az {
            Axis::Y
        } else {
            Axis::Z
        }
    }
}

} // verus!
