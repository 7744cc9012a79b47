//! The discrete selection rules of the procedural surface patterns.
//!
//! Every pattern with two colours picks between them by a parity rule on
//! floors of pattern-space coordinates; the host computes the floors, these
//! functions decide the colour. A pattern whose colour varies continuously
//! (the gradient) has no discrete rule and stays with the numeric layer.

use vstd::prelude::*;

verus! {

/// Stripes alternate along x: the first colour shows where ⌊x⌋ is even
/// (…, -4, -2, 0, 2, …), the second elsewhere.
pub fn stripe_selects_a(fx: i64) -> (r: bool)
    ensures
        r == ((fx as int) % 2 == 0),
{
    fx % 2 == 0
}

/// Rings alternate with distance from the y axis: the first colour shows
/// where the floor of the radius is even.
pub fn ring_selects_a(fradius: i64) -> (r: bool)
    ensures
        r == ((fradius as int) % 2 == 0),
{
    fradius % 2 == 0
}

/// Checkers alternate in all three dimensions: the first colour shows where
/// ⌊x⌋ + ⌊y⌋ + ⌊z⌋ is even, so no two cells sharing a face have the same
/// colour.
pub fn checkers_selects_a(fx: i64, fy: i64, fz: i64) -> (r: bool)
    ensures
        r == ((fx + fy + fz) % 2 == 0),
{
    let sum: i128 = fx as i128 + fy as i128 + fz as i128;
    sum % 2 == 0
}

} // verus!
