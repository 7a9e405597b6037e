//! Yield limits of the snow material.
//!
//! After every step the principal stretches of a particle's deformation
//! gradient are pushed back into a narrow interval around one, and the
//! separately tracked volume ratio into a wider one. Snow gives way sooner
//! under compression than under tension, so the stretch interval is not
//! symmetric. All values are single-precision bit patterns.

use crate::single::{at_most, clamp, clamped, nan};
use vstd::prelude::*;

verus! {

/// Smallest stretch the material holds elastically: 1 - 0.025, rounded to
/// single precision.
pub const STRETCH_MIN: u32 = 0x3f79_999a;

/// Largest stretch the material holds elastically: 1 + 0.0075, rounded to
/// single precision.
pub const STRETCH_MAX: u32 = 0x3f80_f5c3;

/// Smallest tracked volume ratio: 0.6, rounded to single precision.
pub const VOLUME_RATIO_MIN: u32 = 0x3f19_999a;

/// Largest tracked volume ratio: 20.
pub const VOLUME_RATIO_MAX: u32 = 0x41a0_0000;

/// A principal stretch after the plastic projection: clamped to the elastic
/// interval where the material is plastic, unchanged where it is not.
pub open spec fn projected_stretch(sigma: u32, plastic: bool) -> u32 {
    if plastic {
        clamped(sigma, STRETCH_MIN, STRETCH_MAX)
    } else {
        sigma
    }
}

/// Projects one principal stretch back into the elastic interval. Where the
/// material is plastic, a stretch that is a number comes out inside the
/// interval; a NaN is kept.
pub fn project_stretch(sigma: u32, plastic: bool) -> (r: u32)
    ensures
        r == projected_stretch(sigma, plastic),
        plastic && !nan(sigma) ==> at_most(STRETCH_MIN, r) && at_most(r, STRETCH_MAX),
{
    if plastic {
        clamp(sigma, STRETCH_MIN, STRETCH_MAX)
    } else {
        sigma
    }
}

/// Restricts a tracked volume ratio to the interval that keeps the
/// hardening exponent bounded. A ratio that is a number comes out inside the
/// interval; a NaN is kept.
pub fn clamp_volume_ratio(ratio: u32) -> (r: u32)
    ensures
        r == clamped(ratio, VOLUME_RATIO_MIN, VOLUME_RATIO_MAX),
        !nan(ratio) ==> at_most(VOLUME_RATIO_MIN, r) && at_most(r, VOLUME_RATIO_MAX),
        nan(ratio) ==> r == ratio,
{
    clamp(ratio, VOLUME_RATIO_MIN, VOLUME_RATIO_MAX)
}

/// Projecting a stretch twice gives what projecting it once gives.
pub proof fn lemma_projection_idempotent(sigma: u32, plastic: bool)
    ensures
        projected_stretch(projected_stretch(sigma, plastic), plastic) == projected_stretch(
            sigma,
            plastic,
        ),
{
}

} // verus!
