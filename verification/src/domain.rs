//! The domain of the conversions between an angle, a distance and a drop.
//!
//! The conversions are `drop = distance × tan(angle)` and
//! `angle = atan(drop / distance)`. They give a meaningful number only for a
//! finite angle or drop and a finite distance greater than zero; this module
//! decides which inputs those are, so that a caller can refuse the others
//! instead of computing an infinity or a NaN.

use crate::binary64::Binary64;
use vstd::prelude::*;

verus! {

/// The input that lies outside the domain of a conversion.
#[derive(Clone, Copy, Debug, PartialEq, Eq, Structural)]
pub enum DomainError {
    /// The angle is infinite or NaN.
    Angle,
    /// The drop is infinite or NaN.
    Drop,
    /// The distance is infinite, NaN, zero or negative.
    Distance,
}

/// A distance that a conversion accepts: a finite number greater than zero.
pub open spec fn distance_in_domain(distance: Binary64) -> bool {
    distance.finite() && distance.positive()
}

/// An angle and a distance from which a drop can be computed.
pub open spec fn angle_distance_in_domain(angle: Binary64, distance: Binary64) -> bool {
    angle.finite() && distance_in_domain(distance)
}

/// A drop and a distance from which an angle can be computed.
pub open spec fn drop_distance_in_domain(drop: Binary64, distance: Binary64) -> bool {
    drop.finite() && distance_in_domain(distance)
}

/// Accepts an angle, in whatever unit, that is a finite number.
pub fn check_angle(angle: Binary64) -> (verdict: Result<(), DomainError>)
    ensures
        verdict is Ok <==> angle.finite(),
        verdict is Err ==> verdict == Err::<(), DomainError>(DomainError::Angle),
{
    if angle.is_finite() {
        Ok(())
    } else {
        Err(DomainError::Angle)
    }
}

/// Accepts a drop that is a finite number.
pub fn check_drop(drop: Binary64) -> (verdict: Result<(), DomainError>)
    ensures
        verdict is Ok <==> drop.finite(),
        verdict is Err ==> verdict == Err::<(), DomainError>(DomainError::Drop),
{
    if drop.is_finite() {
        Ok(())
    } else {
        Err(DomainError::Drop)
    }
}

/// Accepts a distance that is a finite number greater than zero.
pub fn check_distance(distance: Binary64) -> (verdict: Result<(), DomainError>)
    ensures
        verdict is Ok <==> distance_in_domain(distance),
        verdict is Err ==> verdict == Err::<(), DomainError>(DomainError::Distance),
{
    if distance.is_finite() && distance.is_positive() {
        Ok(())
    } else {
        Err(DomainError::Distance)
    }
}

/// Accepts the inputs from which a drop is computed: a finite angle and a
/// finite distance greater than zero. The angle is judged first.
pub fn check_angle_distance(angle: Binary64, distance: Binary64) -> (verdict: Result<
    (),
    DomainError,
>)
    ensures
        verdict is Ok <==> angle_distance_in_domain(angle, distance),
        verdict == Err::<(), DomainError>(DomainError::Angle) <==> !angle.finite(),
        verdict == Err::<(), DomainError>(DomainError::Distance) <==> angle.finite()
            && !distance_in_domain(distance),
{
    match check_angle(angle) {
        Ok(()) => check_distance(distance),
        Err(error) => Err(error),
    }
}

/// Accepts the inputs from which an angle is computed: a finite drop and a
/// finite distance greater than zero. The drop is judged first.
pub fn check_drop_distance(drop: Binary64, distance: Binary64) -> (verdict: Result<
    (),
    DomainError,
>)
    ensures
        verdict is Ok <==> drop_distance_in_domain(drop, distance),
        verdict == Err::<(), DomainError>(DomainError::Drop) <==> !drop.finite(),
        verdict == Err::<(), DomainError>(DomainError::Distance) <==> drop.finite()
            && !distance_in_domain(distance),
{
    match check_drop(drop) {
        Ok(()) => check_distance(distance),
        Err(error) => Err(error),
    }
}

/// A distance of zero, with either sign, is in the domain of neither
/// conversion, whatever the angle or the drop.
pub proof fn lemma_zero_distance_is_refused(value: Binary64, distance: Binary64)
    requires
        distance.zero(),
    ensures
        !angle_distance_in_domain(value, distance),
        !drop_distance_in_domain(value, distance),
{
}

} // verus!
