//! The orientation value handed to consumers.
//!
//! The core never computes with a quaternion's components — they are
//! floating point, and composing them is the displaying caller's work.
//! It only stores orientation values, resets them to the identity, and
//! hands them out, so the type stays opaque here.

use vstd::prelude::*;

verus! {

#[verifier::external_type_specification]
#[verifier::external_body]
pub struct ExQuat(glam::Quat);

/// Holds of the value `glam::Quat::IDENTITY` alone: the orientation of
/// a freshly reset integrator.
pub uninterp spec fn is_identity(q: glam::Quat) -> bool;

/// Relies on `glam::Quat::IDENTITY`: the identity quaternion constant,
/// the same value on every machine.
#[verifier::external_body]
pub fn quat_identity() -> (q: glam::Quat)
    ensures
        is_identity(q),
{
    glam::Quat::IDENTITY
}

} // verus!
