//! Playback of a recorded log: a finite, immutable run of records
//! replayed on a cyclic frame counter, driving one integrator.

use vstd::prelude::*;
use crate::record::{Sample, QuatVals, V3, quat_of, reorder_quat};
use crate::decode::{decode_all, decode_bytes};
use crate::intg::{Gyro, GyroSample, Increments, spec_increments, gyro_sample_of};
use crate::quat::is_identity;
use crate::fmt::{frame_label, spec_frame_label};

verus! {

/// A recorded source: the decoded records, the current frame index,
/// and the integrator the playback drives.
pub struct FileData {
    pub samples: Vec<Sample>,
    pub frame: usize,
    pub intg: Gyro,
}

impl FileData {
    /// The records hold well-formed data and the frame stays in range.
    /// Playback needs at least one record: constructing a source from
    /// an empty log is a fatal misuse, to be ruled out at startup, not
    /// tolerated later.
    pub open spec fn wf(self) -> bool {
        &&& self.samples@.len() > 0
        &&& self.frame < self.samples@.len()
        &&& forall|k: int| 0 <= k < self.samples@.len() ==> (#[trigger] self.samples@[k]).wf()
    }

    /// Decodes a whole log: one record per well-formed line, in the
    /// log's order, dropping the malformed lines. Playback starts at
    /// frame zero with a fresh integrator.
    pub fn load(lines: &Vec<Vec<u8>>) -> (r: FileData)
        ensures
            r.samples@ == decode_all(lines.deep_view()),
            r.frame == 0,
            r.intg@ == Seq::<GyroSample>::empty(),
            is_identity(r.intg.q),
            r.samples@.len() > 0 ==> r.wf(),
    {
        let mut v: Vec<Sample> = Vec::new();
        let mut i: usize = 0;
        while i < lines.len()
            invariant
                0 <= i <= lines@.len(),
                v@ == decode_all(lines.deep_view().take(i as int)),
                forall|k: int| 0 <= k < v@.len() ==> (#[trigger] v@[k]).wf(),
            decreases lines@.len() - i,
        {
            proof {
                assert(lines.deep_view()[i as int] =~= lines@[i as int]@);
                assert(lines.deep_view().take(i as int + 1).drop_last() =~= lines.deep_view().take(
                    i as int,
                ));
                assert(lines.deep_view().take(i as int + 1).last() == lines.deep_view()[i as int]);
            }
            let d = decode_bytes(lines[i].as_slice());
            match d {
                Some(s) => v.push(s),
                None => (),
            }
            i = i + 1;
        }
        proof {
            assert(lines.deep_view().take(lines@.len() as int) =~= lines.deep_view());
        }
        FileData { samples: v, frame: 0, intg: Gyro::new() }
    }

    /// One playback tick. The frame advances cyclically; the tick that
    /// leaves frame zero starts a fresh cycle, so the integrator is
    /// reset first; then the new current record's (dt, gyro) is fed —
    /// exactly once per tick — and the label reads "<frame> / <total>".
    /// The returned angles are the fed sample's; the caller composes
    /// them onto the integrator's orientation.
    pub fn think(&mut self, label: &mut String) -> (r: Increments)
        requires
            old(self).wf(),
        ensures
            final(self).wf(),
            final(self).samples@ == old(self).samples@,
            final(self).frame as int == (old(self).frame + 1) % (old(self).samples@.len() as int),
            ({
                let s = old(self).samples@[final(self).frame as int];
                &&& r == spec_increments(s.dt, s.gyro)
                &&& final(self).intg@ == (if old(self).frame == 0 {
                    Seq::<GyroSample>::empty()
                } else {
                    old(self).intg@
                }).push(gyro_sample_of(s))
            }),
            old(self).frame == 0 ==> is_identity(final(self).intg.q),
            old(self).frame != 0 ==> final(self).intg.q == old(self).intg.q,
            final(label)@ == spec_frame_label(
                final(self).frame as int,
                old(self).samples@.len() as int,
            ),
    {
        let len = self.samples.len();
        let next = if self.frame + 1 == len {
            0
        } else {
            self.frame + 1
        };
        proof {
            if self.frame + 1 < len {
                vstd::arithmetic::div_mod::lemma_small_mod((self.frame + 1) as nat, len as nat);
            }
        }
        if self.frame == 0 {
            self.intg.reset();
        }
        let dt = self.samples[next].dt;
        let w = self.samples[next].gyro;
        let r = self.intg.add_sample(dt, w);
        self.frame = next;
        *label = frame_label(next, len);
        r
    }

    /// The accumulated orientation estimate.
    pub fn get_gyro(&self) -> (r: glam::Quat)
        ensures
            r == self.intg.q,
    {
        self.intg.q
    }

    /// The current record's reference orientation, reordered from the
    /// wire's scalar-first layout.
    pub fn get_quat(&self) -> (r: QuatVals)
        requires
            self.wf(),
        ensures
            r == quat_of(self.samples@[self.frame as int]),
    {
        reorder_quat(&self.samples[self.frame])
    }

    /// The current record's raw accelerometer and magnetometer vectors.
    pub fn get_arrows(&self) -> (r: (V3, V3))
        requires
            self.wf(),
        ensures
            r.0 == self.samples@[self.frame as int].accel,
            r.1 == self.samples@[self.frame as int].mag,
    {
        (self.samples[self.frame].accel, self.samples[self.frame].mag)
    }
}

/// The frame index after one tick.
pub open spec fn think_frame(frame: int, len: int) -> int {
    (frame + 1) % len
}

/// The integrator history after one tick from `frame` with `fed`.
pub open spec fn think_fed(samples: Seq<Sample>, frame: int, fed: Seq<GyroSample>) -> Seq<
    GyroSample,
> {
    let nf = think_frame(frame, samples.len() as int);
    (if frame == 0 {
        Seq::<GyroSample>::empty()
    } else {
        fed
    }).push(gyro_sample_of(samples[nf]))
}

/// Frame and history after `n` ticks, as `think` performs them.
pub open spec fn think_iter(samples: Seq<Sample>, frame: int, fed: Seq<GyroSample>, n: nat) -> (
    int,
    Seq<GyroSample>,
)
    decreases n,
{
    if n == 0 {
        (frame, fed)
    } else {
        let p = think_iter(samples, frame, fed, (n - 1) as nat);
        (think_frame(p.0, samples.len() as int), think_fed(samples, p.0, p.1))
    }
}

/// The samples of one full cycle in playback order: the tick leaving
/// frame zero feeds frame 1, and the last tick of the cycle wraps to
/// feed frame 0.
pub open spec fn cycle_fed(samples: Seq<Sample>) -> Seq<GyroSample> {
    Seq::new(samples.len(), |k: int| gyro_sample_of(samples[(k + 1) % (samples.len() as int)]))
}

proof fn lemma_cycle_step(samples: Seq<Sample>, fed: Seq<GyroSample>, n: nat)
    requires
        samples.len() > 0,
        1 <= n <= samples.len(),
    ensures
        think_iter(samples, 0, fed, n) == (
            ((n as int) % (samples.len() as int)),
            cycle_fed(samples).take(n as int),
        ),
    decreases n,
{
    let len = samples.len() as int;
    if n == 1 {
        if samples.len() == 1 {
            vstd::arithmetic::div_mod::lemma_mod_self_0(len);
        } else {
            vstd::arithmetic::div_mod::lemma_small_mod(1nat, samples.len());
        }
        assert(think_iter(samples, 0, fed, 0) == (0int, fed));
        assert(think_iter(samples, 0, fed, 1) == (think_frame(0, len), think_fed(samples, 0, fed)));
        assert(cycle_fed(samples).take(1) =~= Seq::<GyroSample>::empty().push(
            gyro_sample_of(samples[1int % len]),
        ));
    } else {
        lemma_cycle_step(samples, fed, (n - 1) as nat);
        vstd::arithmetic::div_mod::lemma_small_mod((n - 1) as nat, samples.len());
        if n < samples.len() {
            vstd::arithmetic::div_mod::lemma_small_mod(n, samples.len());
        } else {
            assert(n == samples.len());
            assert((n as int) % len == 0) by {
                vstd::arithmetic::div_mod::lemma_mod_self_0(len);
            }
        }
        assert(cycle_fed(samples).take(n as int) =~= cycle_fed(samples).take(n as int - 1).push(
            gyro_sample_of(samples[(n as int) % len]),
        ));
    }
}

/// Frame wraparound: with N records, N ticks starting at frame zero
/// come back to frame zero, and the integrator was reset exactly once
/// — on the tick that left frame zero — and then fed exactly the N
/// samples of the cycle, in playback order, whatever it held before.
pub proof fn lemma_cycle(samples: Seq<Sample>, fed: Seq<GyroSample>)
    requires
        samples.len() > 0,
    ensures
        think_iter(samples, 0, fed, samples.len()).0 == 0,
        think_iter(samples, 0, fed, samples.len()).1 == cycle_fed(samples),
        cycle_fed(samples).len() == samples.len(),
{
    lemma_cycle_step(samples, fed, samples.len());
    vstd::arithmetic::div_mod::lemma_mod_self_0(samples.len() as int);
    assert(cycle_fed(samples).take(samples.len() as int) =~= cycle_fed(samples));
}

} // verus!
