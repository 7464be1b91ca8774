//! Control of the recursive color integrator: how many bounces a path may
//! still take, and what the color of a ray is made of after its scene query.
//!
//! The color arithmetic itself (emission plus attenuation times the color of
//! the scattered ray) is done by the caller, on the terms decided here.

use vstd::prelude::*;

verus! {

/// What the scene query reported for a traced ray.
#[derive(PartialEq, Eq, Structural, Clone, Copy, Debug)]
pub enum Surface {
    /// No object was hit.
    Missed,
    /// An object was hit and its material did not scatter the ray.
    Absorbed,
    /// An object was hit and its material scattered the ray.
    Scattered,
}

/// The terms that make up the color of a ray.
#[derive(PartialEq, Eq, Structural, Clone, Copy, Debug)]
pub enum Shade {
    /// Exactly black: the bounce budget is used up.
    Black,
    /// The background seen along the ray.
    Background,
    /// The emission of the surface hit, alone.
    Emitted,
    /// The emission of the surface hit plus the attenuation times the color
    /// of the scattered ray, which is traced with the given bounce budget.
    EmittedPlusBounce(i32),
}

/// Whether a ray with `depth` bounces left is traced at all. A ray that is
/// not traced has the color `Shade::Black`, whatever the scene holds.
pub fn traces(depth: i32) -> (r: bool)
    ensures
        r == (depth > 0),
{
    depth > 0
}

/// The terms of the color of a ray with `depth` bounces left, given what its
/// scene query reported. The bounce budget of a scattered ray is one less, so
/// the recursion ends.
pub fn shade(depth: i32, surface: Surface) -> (r: Shade)
    ensures
        depth <= 0 ==> r == Shade::Black,
        depth > 0 ==> r == match surface {
            Surface::Missed => Shade::Background,
            Surface::Absorbed => Shade::Emitted,
            Surface::Scattered => Shade::EmittedPlusBounce((depth - 1) as i32),
        },
        r matches Shade::EmittedPlusBounce(d) ==> 0 <= d < depth,
{
    if !traces(depth) {
        Shade::Black
    } else {
        match surface {
            Surface::Missed => Shade::Background,
            Surface::Absorbed => Shade::Emitted,
            Surface::Scattered => Shade::EmittedPlusBounce(depth - 1),
        }
    }
}

} // verus!
