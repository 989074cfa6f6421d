//! The orientation integrator.
//!
//! It turns a stream of (dt, angular velocity) samples into an
//! accumulated orientation. The sensor reports in an X-right,
//! Y-forward, Z-down left-handed body frame while the display uses an
//! X-right, Y-up, Z-back right-handed frame, so each sample becomes
//! three intrinsic rotations about the orientation's own current axes,
//! with the axes remapped and one sign flipped.
//!
//! The integrator computes each sample's exact rotation angles and
//! keeps the exact record of what was fed since the last reset. The
//! floating-point composition of the three rotations into the
//! quaternion is the caller's: it applies the returned increments and
//! stores the result back with `set_orientation`.

use vstd::prelude::*;
use crate::num::{Num, num_mul, num_neg, num_shift, product, negate};
use crate::record::{V3, Sample};
use crate::quat::{quat_identity, is_identity};

verus! {

/// One angular-velocity sample: the elapsed milliseconds and the rate.
#[derive(Clone, Copy, PartialEq, Eq, Structural, Debug)]
pub struct GyroSample {
    pub dt_ms: Num,
    pub w: V3,
}

/// The (dt, gyro) part of a record, which is all the integrator reads.
pub open spec fn gyro_sample_of(s: Sample) -> GyroSample {
    GyroSample { dt_ms: s.dt, w: s.gyro }
}

/// The three rotation angles one sample contributes, in radians, to be
/// applied in order about the local X, then Y, then Z axis.
#[derive(Clone, Copy, PartialEq, Eq, Structural, Debug)]
pub struct Increments {
    pub ax: Num,
    pub ay: Num,
    pub az: Num,
}

/// With dt = dt_ms / 1000 seconds: rotate about the local X axis by
/// `-w.x * dt`, then the local Y axis by `+w.z * dt`, then the local Z
/// axis by `+w.y * dt`. This axis remap and sign flip carry the
/// sensor's body-frame convention into the display's.
pub open spec fn spec_increments(dt_ms: Num, w: V3) -> Increments {
    let dt = num_shift(dt_ms, -3);
    Increments { ax: num_neg(num_mul(w.x, dt)), ay: num_mul(w.z, dt), az: num_mul(w.y, dt) }
}

/// Computes the exact rotation angles of one sample.
pub fn increments(dt_ms: Num, w: V3) -> (r: Increments)
    requires
        dt_ms.wf(),
        w.wf(),
    ensures
        r == spec_increments(dt_ms, w),
{
    let dt = Num { neg: dt_ms.neg, mant: dt_ms.mant, exp: dt_ms.exp - 3 };
    Increments { ax: negate(product(w.x, dt)), ay: product(w.z, dt), az: product(w.y, dt) }
}

/// The integrator: the accumulated orientation, and the exact record
/// of every sample fed since the last reset, in order.
pub struct Gyro {
    /// The accumulated orientation; opaque to the core.
    pub q: glam::Quat,
    /// Every sample integrated since the last reset, oldest first.
    pub fed: Ghost<Seq<GyroSample>>,
}

impl View for Gyro {
    type V = Seq<GyroSample>;

    open spec fn view(&self) -> Seq<GyroSample> {
        self.fed@
    }
}

impl Gyro {
    /// A fresh integrator: identity orientation, nothing fed.
    pub fn new() -> (r: Gyro)
        ensures
            r@ == Seq::<GyroSample>::empty(),
            is_identity(r.q),
    {
        Gyro { q: quat_identity(), fed: Ghost(Seq::empty()) }
    }

    /// Feeds one sample. It is recorded exactly once, after everything
    /// fed before, and its exact rotation angles are returned; the
    /// caller composes them onto `q` and stores the result.
    pub fn add_sample(&mut self, dt_ms: Num, w: V3) -> (r: Increments)
        requires
            dt_ms.wf(),
            w.wf(),
        ensures
            final(self)@ == old(self)@.push(GyroSample { dt_ms, w }),
            final(self).q == old(self).q,
            r == spec_increments(dt_ms, w),
    {
        let ghost rec = GyroSample { dt_ms, w };
        self.fed = Ghost(self.fed@.push(rec));
        increments(dt_ms, w)
    }

    /// Stores the orientation the caller composed from the increments
    /// of the last fed sample.
    pub fn set_orientation(&mut self, q: glam::Quat)
        ensures
            final(self)@ == old(self)@,
            final(self).q == q,
    {
        self.q = q;
    }

    /// Returns to the identity orientation and forgets what was fed.
    /// The state afterwards never depends on the state before.
    pub fn reset(&mut self)
        ensures
            final(self)@ == Seq::<GyroSample>::empty(),
            is_identity(final(self).q),
    {
        self.q = quat_identity();
        self.fed = Ghost(Seq::empty());
    }

    /// Feeds a whole run of samples: each is recorded exactly once, in
    /// the run's order, after everything fed before — none lost, none
    /// duplicated. The returned angles are those of each sample, in
    /// the same order.
    pub fn feed_all(&mut self, samples: &Vec<GyroSample>) -> (rs: Vec<Increments>)
        requires
            forall|k: int|
                0 <= k < samples@.len() ==> (#[trigger] samples@[k]).dt_ms.wf() && samples@[k].w.wf(),
        ensures
            final(self)@ == old(self)@ + samples@,
            final(self).q == old(self).q,
            rs@.len() == samples@.len(),
            forall|k: int|
                0 <= k < samples@.len() ==> rs@[k] == spec_increments(
                    (#[trigger] samples@[k]).dt_ms,
                    samples@[k].w,
                ),
    {
        let mut rs: Vec<Increments> = Vec::new();
        let mut i: usize = 0;
        while i < samples.len()
            invariant
                0 <= i <= samples@.len(),
                forall|k: int|
                    0 <= k < samples@.len() ==> (#[trigger] samples@[k]).dt_ms.wf()
                        && samples@[k].w.wf(),
                self@ == old(self)@ + samples@.take(i as int),
                self.q == old(self).q,
                rs@.len() == i,
                forall|k: int|
                    0 <= k < i ==> rs@[k] == spec_increments(
                        (#[trigger] samples@[k]).dt_ms,
                        samples@[k].w,
                    ),
            decreases samples@.len() - i,
        {
            let s = samples[i];
            let inc = self.add_sample(s.dt_ms, s.w);
            rs.push(inc);
            proof {
                assert(old(self)@ + samples@.take(i as int + 1) =~= (old(self)@ + samples@.take(
                    i as int,
                )).push(samples@[i as int]));
            }
            i = i + 1;
        }
        proof {
            assert(samples@.take(samples@.len() as int) =~= samples@);
        }
        rs
    }
}

} // verus!
