//! The single polling interface over the two sources, and the small
//! startup and read-loop decisions the embedding program defers here.

use vstd::prelude::*;
use vstd::string::{StringExecFns, StringSliceAdditionalSpecFns};
use crate::record::{QuatVals, V3};
use crate::recorded::FileData;
use crate::live::Stream;
use crate::intg::{Increments, GyroSample, spec_increments, gyro_sample_of};
use crate::fmt::{spec_frame_label, spec_live_label, spec_offline_label};
use crate::live::StreamData;

verus! {

/// Symbols per second of the live link.
pub const BAUD_RATE: u32 = 460800;

/// Idle read timeout on the live link, seconds.
pub const READ_TIMEOUT_S: u64 = 60;

/// Wait between attempts to open the device, milliseconds.
pub const OPEN_RETRY_MS: u64 = 100;

/// The log file played back when no input designator is given.
pub fn default_input() -> (r: String)
    ensures
        r@ == "tilt1.txt"@,
{
    String::from_str("tilt1.txt")
}

/// The reserved device-path prefix, "/dev/", as bytes.
pub open spec fn dev_prefix() -> Seq<u8> {
    seq![47u8, 100u8, 101u8, 118u8, 47u8]
}

/// An input designator names a live device when it begins with the
/// reserved device-path prefix; anything else is a recorded log path.
pub open spec fn spec_is_device_path(b: Seq<u8>) -> bool {
    b.len() >= 5 && b.subrange(0, 5) == dev_prefix()
}

pub fn is_device_path(name: &str) -> (r: bool)
    ensures
        r == spec_is_device_path(name.spec_bytes()),
{
    let b = name.as_bytes();
    if b.len() < 5 {
        return false;
    }
    let r = b[0] == 47 && b[1] == 100 && b[2] == 101 && b[3] == 118 && b[4] == 47;
    proof {
        assert(b@.subrange(0, 5)[0] == b@[0]);
        assert(b@.subrange(0, 5)[1] == b@[1]);
        assert(b@.subrange(0, 5)[2] == b@[2]);
        assert(b@.subrange(0, 5)[3] == b@[3]);
        assert(b@.subrange(0, 5)[4] == b@[4]);
        if r {
            assert(b@.subrange(0, 5) =~= dev_prefix());
        }
    }
    r
}

/// How a failed read off the live link is classified.
#[derive(Clone, Copy, PartialEq, Eq, Structural, Debug)]
pub enum ReadFault {
    BrokenPipe,
    TimedOut,
    UnexpectedEof,
    Other,
}

/// What the background reader does about a failed read.
#[derive(Clone, Copy, PartialEq, Eq, Structural, Debug)]
pub enum FaultAction {
    /// Tear the connection down, clear state, reconnect from scratch.
    Reconnect,
    /// Drop the line and keep reading on the same connection.
    KeepReading,
}

pub open spec fn spec_classify(f: ReadFault) -> FaultAction {
    match f {
        ReadFault::BrokenPipe => FaultAction::Reconnect,
        ReadFault::TimedOut => FaultAction::Reconnect,
        ReadFault::UnexpectedEof => FaultAction::Reconnect,
        ReadFault::Other => FaultAction::KeepReading,
    }
}

/// A broken pipe, a timeout or an unexpected end of stream ends the
/// connection; any other read error is recoverable and costs only the
/// current line.
pub fn classify_fault(f: ReadFault) -> (r: FaultAction)
    ensures
        r == spec_classify(f),
        r is Reconnect <==> (f is BrokenPipe || f is TimedOut || f is UnexpectedEof),
{
    match f {
        ReadFault::BrokenPipe => FaultAction::Reconnect,
        ReadFault::TimedOut => FaultAction::Reconnect,
        ReadFault::UnexpectedEof => FaultAction::Reconnect,
        ReadFault::Other => FaultAction::KeepReading,
    }
}

/// One sensor source behind the single polling interface: recorded
/// playback or a live link. The embedding program picks the variant
/// at startup from the input designator and thereafter only polls.
pub enum AnimSource {
    Recorded(FileData),
    Live(Stream),
}

impl AnimSource {
    pub open spec fn wf(self) -> bool {
        match self {
            AnimSource::Recorded(fd) => fd.wf(),
            AnimSource::Live(st) => st.wf(),
        }
    }

    /// One poll tick: refresh the label. A recorded source advances
    /// playback and returns the fed sample's increments for the
    /// caller to compose; a live source integrates in its background
    /// reader and returns nothing here.
    pub fn think(&mut self, label: &mut String) -> (r: Option<Increments>)
        requires
            old(self).wf(),
        ensures
            final(self).wf(),
            r is Some <==> (*old(self)) is Recorded,
            match *old(self) {
                AnimSource::Live(_) => *final(self) == *old(self) && (final(label)@
                    == spec_offline_label() || exists|t: u64, p: u64|
                    p <= t && #[trigger] spec_live_label(t, p) == final(label)@),
                AnimSource::Recorded(fd) => match *final(self) {
                    AnimSource::Recorded(fd2) => {
                        let nf = (fd.frame + 1) % (fd.samples@.len() as int);
                        let s = fd.samples@[nf];
                        &&& fd2.samples@ == fd.samples@
                        &&& fd2.frame as int == nf
                        &&& r == Some(spec_increments(s.dt, s.gyro))
                        &&& fd2.intg@ == (if fd.frame == 0 {
                            Seq::<GyroSample>::empty()
                        } else {
                            fd.intg@
                        }).push(gyro_sample_of(s))
                        &&& final(label)@ == spec_frame_label(nf, fd.samples@.len() as int)
                    },
                    AnimSource::Live(_) => false,
                },
            },
    {
        match self {
            AnimSource::Recorded(fd) => Some(fd.think(label)),
            AnimSource::Live(st) => {
                st.think(label);
                None
            },
        }
    }

    /// The accumulated orientation estimate.
    pub fn get_gyro(&self) -> (r: glam::Quat)
        requires
            self.wf(),
        ensures
            (*self) matches AnimSource::Recorded(fd) ==> r == fd.intg.q,
            (*self) is Live ==> exists|d: StreamData| #[trigger] d.inv() && r == d.intg.q,
    {
        match self {
            AnimSource::Recorded(fd) => fd.get_gyro(),
            AnimSource::Live(st) => st.get_gyro(),
        }
    }

    /// The current record's reference orientation, in consumer order.
    pub fn get_quat(&self) -> (r: QuatVals)
        requires
            self.wf(),
        ensures
            (*self) matches AnimSource::Recorded(fd) ==> r == crate::record::quat_of(
                fd.samples@[fd.frame as int],
            ),
            (*self) is Live ==> exists|d: StreamData| #[trigger] d.inv() && r
                == crate::record::quat_of(d.sample),
    {
        match self {
            AnimSource::Recorded(fd) => fd.get_quat(),
            AnimSource::Live(st) => st.get_quat(),
        }
    }

    /// The current record's raw accelerometer and magnetometer vectors.
    pub fn get_arrows(&self) -> (r: (V3, V3))
        requires
            self.wf(),
        ensures
            (*self) matches AnimSource::Recorded(fd) ==> r == (
                fd.samples@[fd.frame as int].accel,
                fd.samples@[fd.frame as int].mag,
            ),
            (*self) is Live ==> exists|d: StreamData| #[trigger] d.inv() && r == (
                d.sample.accel,
                d.sample.mag,
            ),
    {
        match self {
            AnimSource::Recorded(fd) => fd.get_arrows(),
            AnimSource::Live(st) => st.get_arrows(),
        }
    }
}

} // verus!
