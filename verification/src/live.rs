//! The live source: state shared between one background reader and
//! the polling side.
//!
//! The background reader (run by the embedding program, since it owns
//! the device I/O) decodes records off the link and delivers each one
//! with `on_record`; a lost link becomes `on_disconnect`. The polling
//! side calls `think` and the getters. All of them meet inside one
//! reader–writer lock whose invariant ties the running time, the
//! stored record and the integrator history to a single run of
//! delivered records, so no reader ever observes fields from two
//! different update cycles.

use vstd::prelude::*;
use vstd::rwlock::{RwLock, RwLockPredicate};
use crate::num::{sat_add, sat_add64, dt_to_us, us_sat};
use crate::record::{Sample, QuatVals, V3, quat_of, reorder_quat};
use crate::intg::{Gyro, GyroSample, Increments, spec_increments, gyro_sample_of};
use crate::quat::is_identity;
use crate::fmt::{live_label, offline_label, spec_live_label, spec_offline_label};

verus! {

/// The saturating total of the microsecond times of a run of records.
pub open spec fn sum_us(log: Seq<Sample>) -> u64
    decreases log.len(),
{
    if log.len() == 0 {
        0
    } else {
        sat_add64(sum_us(log.drop_last()), us_sat(log.last().dt))
    }
}

/// What one live link shares across the concurrency boundary. Times
/// are in microseconds.
pub struct StreamData {
    /// Elapsed time of the records delivered since the link came up.
    pub time: u64,
    /// The value of `time` at the previous poll.
    pub prev: u64,
    /// Whether the link is up.
    pub up: bool,
    /// The integrator the delivered records drive.
    pub intg: Gyro,
    /// The most recently delivered record.
    pub sample: Sample,
    /// Every record delivered since the link last came up, in order.
    pub log: Ghost<Seq<Sample>>,
}

impl StreamData {
    /// Every state a reader can observe is derived from the one run
    /// `log` of records delivered since the link came up: the time is
    /// their summed dt, the stored record is the last of them, the
    /// integrator history is their (dt, gyro) projection. A closed
    /// link has everything cleared and the orientation at identity.
    pub open spec fn inv(self) -> bool {
        &&& self.time == sum_us(self.log@)
        &&& self.intg@ == self.log@.map_values(|s: Sample| gyro_sample_of(s))
        &&& self.log@.len() > 0 ==> self.sample == self.log@.last()
        &&& forall|k: int| 0 <= k < self.log@.len() ==> (#[trigger] self.log@[k]).wf()
        &&& self.prev <= self.time
        &&& !self.up ==> self.log@.len() == 0 && self.time == 0 && self.prev == 0
        &&& self.up ==> self.log@.len() > 0
        &&& self.log@.len() == 0 ==> is_identity(self.intg.q)
    }

    /// A fresh, closed link: zero times, nothing delivered.
    pub fn new() -> (r: StreamData)
        ensures
            r.inv(),
            !r.up,
            r.log@ == Seq::<Sample>::empty(),
    {
        let r = StreamData {
            time: 0,
            prev: 0,
            up: false,
            intg: Gyro::new(),
            sample: Sample::blank(),
            log: Ghost(Seq::empty()),
        };
        proof {
            assert(Seq::<Sample>::empty().map_values(|s: Sample| gyro_sample_of(s))
                =~= Seq::<GyroSample>::empty());
        }
        r
    }

    /// One delivered record, with the orientation the reader composed
    /// from the record's increments: add the record's microseconds to
    /// the running time, mark the link up, feed (dt, gyro) to the
    /// integrator — exactly once — and store the record as current.
    /// Time and record move together: both come from the same new run.
    pub fn apply_record(&mut self, s: Sample, nq: glam::Quat) -> (r: Increments)
        requires
            old(self).inv(),
            s.wf(),
        ensures
            final(self).inv(),
            final(self).time == sat_add64(old(self).time, us_sat(s.dt)),
            final(self).prev == old(self).prev,
            final(self).up,
            final(self).sample == s,
            final(self).intg@ == old(self).intg@.push(gyro_sample_of(s)),
            final(self).intg.q == nq,
            final(self).log@ == old(self).log@.push(s),
            r == spec_increments(s.dt, s.gyro),
    {
        self.time = sat_add(self.time, dt_to_us(s.dt));
        self.up = true;
        let r = self.intg.add_sample(s.dt, s.gyro);
        self.intg.set_orientation(nq);
        self.sample = s;
        self.log = Ghost(self.log@.push(s));
        proof {
            assert(self.log@.drop_last() =~= old(self).log@);
            assert(self.log@.map_values(|x: Sample| gyro_sample_of(x)) =~= old(
                self,
            ).log@.map_values(|x: Sample| gyro_sample_of(x)).push(gyro_sample_of(s)));
        }
        r
    }

    /// A stream fault: the link is marked closed, both times are
    /// zeroed, and the integrator returns to identity with an empty
    /// history — the next delivered record starts a fresh run
    /// integrated from identity.
    pub fn apply_disconnect(&mut self)
        requires
            old(self).inv(),
        ensures
            final(self).inv(),
            !final(self).up,
            final(self).time == 0,
            final(self).prev == 0,
            final(self).intg@ == Seq::<GyroSample>::empty(),
            is_identity(final(self).intg.q),
            final(self).log@ == Seq::<Sample>::empty(),
            final(self).sample == old(self).sample,
    {
        self.up = false;
        self.time = 0;
        self.prev = 0;
        self.intg.reset();
        self.log = Ghost(Seq::empty());
        proof {
            assert(Seq::<Sample>::empty().map_values(|s: Sample| gyro_sample_of(s))
                =~= Seq::<GyroSample>::empty());
        }
    }

    /// One poll: reads (up, time, prev) together and moves the
    /// previous-poll snapshot forward to the current time.
    pub fn apply_poll(&mut self) -> (r: (bool, u64, u64))
        requires
            old(self).inv(),
        ensures
            final(self).inv(),
            r == (old(self).up, old(self).time, old(self).prev),
            final(self).prev == old(self).time,
            final(self).time == old(self).time,
            final(self).up == old(self).up,
            final(self).intg == old(self).intg,
            final(self).sample == old(self).sample,
            final(self).log == old(self).log,
    {
        let r = (self.up, self.time, self.prev);
        self.prev = self.time;
        r
    }
}

/// No torn reads: whatever state a reader finds under the lock, the
/// running time is exactly the summed dt of one run of delivered
/// records and the stored record is that same run's last — the time
/// and the record never come from two different update cycles. A
/// closed link always reads as fully cleared.
pub proof fn lemma_no_torn_reads(d: StreamData)
    requires
        d.inv(),
    ensures
        d.time == sum_us(d.log@),
        d.log@.len() > 0 ==> d.sample == d.log@.last(),
        d.intg@ == d.log@.map_values(|s: Sample| gyro_sample_of(s)),
        !d.up ==> d.time == 0 && d.prev == 0 && d.log@.len() == 0,
{
}

/// The lock invariant: every value stored in the lock satisfies
/// [`StreamData::inv`].
pub struct StreamInv {}

impl RwLockPredicate<StreamData> for StreamInv {
    open spec fn inv(self, v: StreamData) -> bool {
        v.inv()
    }
}

/// A live source. The polling side and the background reader share
/// exactly this state, and nothing else, through the lock inside.
pub struct Stream {
    data: RwLock<StreamData, StreamInv>,
}

impl Stream {
    /// The lock carries the intended invariant.
    pub closed spec fn wf(self) -> bool {
        self.data.pred() == (StreamInv {  })
    }

    /// A fresh live source with a closed link.
    pub fn new() -> (s: Stream)
        ensures
            s.wf(),
    {
        let d = StreamData::new();
        Stream { data: RwLock::new(d, Ghost(StreamInv {  })) }
    }

    /// The background reader delivers one decoded record together with
    /// the orientation it composed from the record's increments, in
    /// one exclusive critical section.
    pub fn on_record(&self, s: Sample, nq: glam::Quat) -> (r: Increments)
        requires
            self.wf(),
            s.wf(),
        ensures
            r == spec_increments(s.dt, s.gyro),
    {
        let (mut d, handle) = self.data.acquire_write();
        let r = d.apply_record(s, nq);
        handle.release_write(d);
        r
    }

    /// The background reader lost the link, in one exclusive critical
    /// section: closed, zero times, identity orientation.
    pub fn on_disconnect(&self)
        requires
            self.wf(),
    {
        let (mut d, handle) = self.data.acquire_write();
        d.apply_disconnect();
        handle.release_write(d);
    }

    /// A poll tick: under the exclusive lock (it moves the
    /// previous-poll snapshot) read (up, time, prev) together, then
    /// write the label — "Live <s>.<cc> (<d>ms)" while up, "Offline"
    /// while closed. The time and delta shown always come from one
    /// consistent state.
    pub fn think(&self, label: &mut String)
        requires
            self.wf(),
        ensures
            final(label)@ == spec_offline_label() || exists|t: u64, p: u64|
                p <= t && #[trigger] spec_live_label(t, p) == final(label)@,
    {
        let (mut d, handle) = self.data.acquire_write();
        let (up, t, p) = d.apply_poll();
        handle.release_write(d);
        if up {
            *label = live_label(t, p);
            proof {
                assert(p <= t && spec_live_label(t, p) == label@);
            }
        } else {
            *label = offline_label();
        }
    }

    /// The current orientation estimate, copied under a shared lock.
    pub fn get_gyro(&self) -> (r: glam::Quat)
        requires
            self.wf(),
        ensures
            exists|d: StreamData| #[trigger] d.inv() && r == d.intg.q,
    {
        let handle = self.data.acquire_read();
        let q = handle.borrow().intg.q;
        handle.release_read();
        q
    }

    /// The current record's reference orientation, copied under a
    /// shared lock and reordered from the wire's scalar-first layout.
    pub fn get_quat(&self) -> (r: QuatVals)
        requires
            self.wf(),
        ensures
            exists|d: StreamData| #[trigger] d.inv() && r == quat_of(d.sample),
    {
        let handle = self.data.acquire_read();
        let r = reorder_quat(&handle.borrow().sample);
        handle.release_read();
        r
    }

    /// The current record's raw accelerometer and magnetometer
    /// vectors, copied under a shared lock.
    pub fn get_arrows(&self) -> (r: (V3, V3))
        requires
            self.wf(),
        ensures
            exists|d: StreamData| #[trigger] d.inv() && r == (d.sample.accel, d.sample.mag),
    {
        let handle = self.data.acquire_read();
        let b = handle.borrow();
        let r = (b.sample.accel, b.sample.mag);
        handle.release_read();
        r
    }
}

} // verus!
