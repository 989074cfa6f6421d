//! The data model of one telemetry line: a timing delta, three sensor
//! vectors, and an externally computed reference orientation.

use vstd::prelude::*;
use crate::num::Num;

verus! {

/// A three-component sensor vector in the body frame.
#[derive(Clone, Copy, PartialEq, Eq, Structural, Debug)]
pub struct V3 {
    pub x: Num,
    pub y: Num,
    pub z: Num,
}

impl V3 {
    pub open spec fn wf(self) -> bool {
        self.x.wf() && self.y.wf() && self.z.wf()
    }

    pub open spec fn spec_zero() -> V3 {
        V3 { x: Num::spec_zero(), y: Num::spec_zero(), z: Num::spec_zero() }
    }

    pub fn zero() -> (r: V3)
        ensures
            r == V3::spec_zero(),
    {
        V3 { x: Num::zero(), y: Num::zero(), z: Num::zero() }
    }
}

/// The seven-number reference state on a record. Its first four entries
/// are a scalar-first quaternion (w, x, y, z) giving the ground-truth
/// attitude; the remaining three are carried but unused.
#[derive(Clone, Copy, PartialEq, Eq, Structural, Debug)]
pub struct RefState {
    pub w: Num,
    pub x: Num,
    pub y: Num,
    pub z: Num,
    pub e4: Num,
    pub e5: Num,
    pub e6: Num,
}

impl RefState {
    pub open spec fn wf(self) -> bool {
        &&& self.w.wf()
        &&& self.x.wf()
        &&& self.y.wf()
        &&& self.z.wf()
        &&& self.e4.wf()
        &&& self.e5.wf()
        &&& self.e6.wf()
    }

    /// The carried quaternion has zero magnitude, that is, every
    /// component is zero. A well-formed decoder never produces it.
    pub open spec fn zero_orientation(self) -> bool {
        self.w.is_zero() && self.x.is_zero() && self.y.is_zero() && self.z.is_zero()
    }

    pub open spec fn spec_zero() -> RefState {
        RefState {
            w: Num::spec_zero(),
            x: Num::spec_zero(),
            y: Num::spec_zero(),
            z: Num::spec_zero(),
            e4: Num::spec_zero(),
            e5: Num::spec_zero(),
            e6: Num::spec_zero(),
        }
    }

    pub fn zero() -> (r: RefState)
        ensures
            r == RefState::spec_zero(),
    {
        RefState {
            w: Num::zero(),
            x: Num::zero(),
            y: Num::zero(),
            z: Num::zero(),
            e4: Num::zero(),
            e5: Num::zero(),
            e6: Num::zero(),
        }
    }
}

/// One decoded telemetry line.
#[derive(Clone, Copy, PartialEq, Eq, Structural, Debug)]
pub struct Sample {
    /// Elapsed time since the previous sample, milliseconds, non-negative.
    pub dt: Num,
    pub accel: V3,
    /// Angular rate per second in the sensor body frame.
    pub gyro: V3,
    pub mag: V3,
    pub state: RefState,
}

impl Sample {
    /// Every record a well-formed decoder produces satisfies this: all
    /// numbers bounded, a non-negative `dt`, and a reference
    /// orientation of non-zero magnitude.
    pub open spec fn wf(self) -> bool {
        &&& self.dt.wf()
        &&& !self.dt.neg
        &&& self.accel.wf()
        &&& self.gyro.wf()
        &&& self.mag.wf()
        &&& self.state.wf()
        &&& !self.state.zero_orientation()
    }

    /// The all-zero record that a live source starts from before any
    /// line has been decoded. It is not a decoder output (`wf` fails).
    pub fn blank() -> (r: Sample)
        ensures
            r == Sample::spec_blank(),
    {
        Sample {
            dt: Num::zero(),
            accel: V3::zero(),
            gyro: V3::zero(),
            mag: V3::zero(),
            state: RefState::zero(),
        }
    }

    pub open spec fn spec_blank() -> Sample {
        Sample {
            dt: Num::spec_zero(),
            accel: V3::spec_zero(),
            gyro: V3::spec_zero(),
            mag: V3::spec_zero(),
            state: RefState::spec_zero(),
        }
    }
}

/// The reference orientation of a record, reordered from the wire's
/// scalar-first layout to the x, y, z, w component order consumers use.
#[derive(Clone, Copy, PartialEq, Eq, Structural, Debug)]
pub struct QuatVals {
    pub x: Num,
    pub y: Num,
    pub z: Num,
    pub w: Num,
}

/// How the reference orientation of a sample reads in consumer order.
pub open spec fn quat_of(s: Sample) -> QuatVals {
    QuatVals { x: s.state.x, y: s.state.y, z: s.state.z, w: s.state.w }
}

/// Reorders a record's scalar-first reference state for the consumer.
pub fn reorder_quat(s: &Sample) -> (r: QuatVals)
    ensures
        r == quat_of(*s),
{
    QuatVals { x: s.state.x, y: s.state.y, z: s.state.z, w: s.state.w }
}

} // verus!
