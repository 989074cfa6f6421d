use tiltcore::intg::Increments;
use tiltcore::live::Stream;
use tiltcore::num::Num;
use tiltcore::record::Sample;
use tiltcore::recorded::FileData;
use tiltcore::source::{
    AnimSource, FaultAction, ReadFault, classify_fault, default_input, is_device_path, BAUD_RATE,
    OPEN_RETRY_MS, READ_TIMEOUT_S,
};
use tiltcore::decode::decode_bytes;

fn num_to_f32(n: &Num) -> f32 {
    let v = n.mant as f32 * 10f32.powi(n.exp as i32);
    if n.neg { -v } else { v }
}

fn compose(q: glam::Quat, inc: &Increments) -> glam::Quat {
    q * glam::Quat::from_rotation_x(num_to_f32(&inc.ax))
        * glam::Quat::from_rotation_y(num_to_f32(&inc.ay))
        * glam::Quat::from_rotation_z(num_to_f32(&inc.az))
}

fn zero_gyro_line(dt: u32, tag: u32) -> Vec<u8> {
    format!(
        "{{\"dt\": {dt}, \"accel\": [0,0,0], \"gyro\": [0,0,0], \"mag\": [0,0,0], \"state\": [[{tag},0,0,0,0,0,0]]}}"
    )
    .into_bytes()
}

#[test]
fn two_record_playback_scenario() {
    // two records with dt 10 and zero angular velocity: after two
    // ticks the frame is back at 0, the label reads "0 / 2", and the
    // orientation estimate is still the identity
    let lines = vec![zero_gyro_line(10, 1), zero_gyro_line(10, 1)];
    let mut fd = FileData::load(&lines);
    let mut label = String::new();
    for _ in 0..2 {
        let inc = fd.think(&mut label);
        let q = compose(fd.get_gyro(), &inc);
        fd.intg.set_orientation(q);
    }
    assert_eq!(fd.frame, 0);
    assert_eq!(label, "0 / 2");
    assert_eq!(fd.get_gyro(), glam::Quat::IDENTITY);
}

#[test]
fn playback_labels_cycle() {
    let lines = vec![zero_gyro_line(10, 1), zero_gyro_line(10, 1), zero_gyro_line(10, 1)];
    let mut fd = FileData::load(&lines);
    let mut label = String::new();
    let mut seen = Vec::new();
    for _ in 0..4 {
        fd.think(&mut label);
        seen.push(label.clone());
    }
    assert_eq!(seen, vec!["1 / 3", "2 / 3", "0 / 3", "1 / 3"]);
    assert_eq!(fd.frame, 1);
}

#[test]
fn playback_getters_follow_current_frame() {
    let lines = vec![zero_gyro_line(10, 1), zero_gyro_line(20, 2)];
    let mut fd = FileData::load(&lines);
    let mut label = String::new();
    fd.think(&mut label);
    // frame 1 is current: its reference orientation has w = 2
    let q = fd.get_quat();
    assert_eq!(q.w, Num { neg: false, mant: 2, exp: 0 });
    assert_eq!(q.x, Num { neg: false, mant: 0, exp: 0 });
    let (accel, mag) = fd.get_arrows();
    assert_eq!(accel.x.mant, 0);
    assert_eq!(mag.z.mant, 0);
}

fn sample(dt: u32, tag: u32) -> Sample {
    decode_bytes(&zero_gyro_line(dt, tag)).expect("test line decodes")
}

#[test]
fn live_starts_offline() {
    let st = Stream::new();
    let mut label = String::new();
    st.think(&mut label);
    assert_eq!(label, "Offline");
    assert_eq!(st.get_gyro(), glam::Quat::IDENTITY);
}

#[test]
fn live_labels_show_time_and_delta() {
    let st = Stream::new();
    let mut label = String::new();
    st.on_record(sample(10, 1), glam::Quat::IDENTITY);
    st.think(&mut label);
    // total 10 ms -> 0.01 s, delta 10 ms since the previous poll
    assert_eq!(label, "Live 0.01 (10ms)");
    st.on_record(sample(20, 2), glam::Quat::IDENTITY);
    st.think(&mut label);
    // total 30 ms; 20 ms arrived since the last poll
    assert_eq!(label, "Live 0.03 (20ms)");
    st.think(&mut label);
    // nothing new: delta 0
    assert_eq!(label, "Live 0.03 (0ms)");
}

#[test]
fn disconnect_clears_state() {
    let st = Stream::new();
    let mut label = String::new();
    let q = glam::Quat::from_rotation_x(0.5);
    st.on_record(sample(10, 1), q);
    assert_eq!(st.get_gyro(), q);
    st.on_disconnect();
    // observed state: closed, zero times, identity orientation
    st.think(&mut label);
    assert_eq!(label, "Offline");
    assert_eq!(st.get_gyro(), glam::Quat::IDENTITY);
    // the next record starts a fresh epoch: its time stands alone
    st.on_record(sample(40, 2), glam::Quat::IDENTITY);
    st.think(&mut label);
    assert_eq!(label, "Live 0.04 (40ms)");
}

#[test]
fn time_and_record_move_together() {
    // records tagged 1, 2, 3 with dt equal to 10 * tag: after each
    // delivery the total time and the stored record's tag agree, so a
    // reader never sees fields from two different update cycles
    let st = Stream::new();
    let mut label = String::new();
    let mut total = 0u32;
    for tag in 1..=3u32 {
        let dt = 10 * tag;
        st.on_record(sample(dt, tag), glam::Quat::IDENTITY);
        total += dt;
        let q = st.get_quat();
        assert_eq!(q.w.mant, tag as u128);
        st.think(&mut label);
        let cs = (total as f64 / 1000.0 * 100.0).round() as u32;
        let expect = format!("Live {}.{:02} ({}ms)", cs / 100, cs % 100, dt);
        assert_eq!(label, expect);
    }
}

#[test]
fn designator_selects_the_source() {
    assert!(is_device_path("/dev/ttyUSB0"));
    assert!(is_device_path("/dev/"));
    assert!(!is_device_path("/de"));
    assert!(!is_device_path("tilt1.txt"));
    assert!(!is_device_path("dev/ttyUSB0"));
    assert_eq!(default_input(), "tilt1.txt");
}

#[test]
fn link_constants_are_fixed() {
    assert_eq!(BAUD_RATE, 460800);
    assert_eq!(READ_TIMEOUT_S, 60);
    assert_eq!(OPEN_RETRY_MS, 100);
}

#[test]
fn stream_faults_tear_the_connection_down() {
    assert_eq!(classify_fault(ReadFault::BrokenPipe), FaultAction::Reconnect);
    assert_eq!(classify_fault(ReadFault::TimedOut), FaultAction::Reconnect);
    assert_eq!(classify_fault(ReadFault::UnexpectedEof), FaultAction::Reconnect);
    assert_eq!(classify_fault(ReadFault::Other), FaultAction::KeepReading);
}

#[test]
fn polymorphic_dispatch_reaches_both_sources() {
    let lines = vec![zero_gyro_line(10, 1)];
    let mut rec = AnimSource::Recorded(FileData::load(&lines));
    let mut label = String::new();
    let inc = rec.think(&mut label);
    assert!(inc.is_some());
    assert_eq!(label, "0 / 1");
    assert_eq!(rec.get_gyro(), glam::Quat::IDENTITY);

    let mut live = AnimSource::Live(Stream::new());
    let inc = live.think(&mut label);
    assert!(inc.is_none());
    assert_eq!(label, "Offline");
    let q = live.get_quat();
    assert_eq!(q.w.mant, 0);
}
