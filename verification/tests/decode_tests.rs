use tiltcore::decode::decode_bytes;
use tiltcore::num::Num;
use tiltcore::recorded::FileData;

fn num(neg: bool, mant: u128, exp: i64) -> Num {
    Num { neg, mant, exp }
}

const LINE: &[u8] = b"{\"dt\": 10, \"accel\": [1,2,3], \"gyro\": [0.5,-1.5,2e1], \"mag\": [-1,-2,-3], \"state\": [[1,0,0,0,0,0,0]]}";

#[test]
fn decodes_canonical_line() {
    let s = decode_bytes(LINE).expect("line should decode");
    assert_eq!(s.dt, num(false, 10, 0));
    assert_eq!(s.accel.x, num(false, 1, 0));
    assert_eq!(s.accel.y, num(false, 2, 0));
    assert_eq!(s.accel.z, num(false, 3, 0));
    assert_eq!(s.gyro.x, num(false, 5, -1));
    assert_eq!(s.gyro.y, num(true, 15, -1));
    assert_eq!(s.gyro.z, num(false, 2, 1));
    assert_eq!(s.mag.x, num(true, 1, 0));
    assert_eq!(s.state.w, num(false, 1, 0));
    assert_eq!(s.state.x, num(false, 0, 0));
}

#[test]
fn decodes_without_blanks() {
    let line = b"{\"dt\":5,\"accel\":[0,0,1],\"gyro\":[0,0,0],\"mag\":[0,1,0],\"state\":[[0,0,1,0,9,9,9]]}";
    let s = decode_bytes(line).expect("line should decode");
    assert_eq!(s.dt, num(false, 5, 0));
    assert_eq!(s.state.y, num(false, 1, 0));
    assert_eq!(s.state.e4, num(false, 9, 0));
}

#[test]
fn number_forms() {
    let line = b"{\"dt\": 0.25, \"accel\": [1e-3,1E+2,0.001], \"gyro\": [12.50,-0,3], \"mag\": [0,0,0], \"state\": [[1,0,0,0,0,0,0]]}";
    let s = decode_bytes(line).expect("line should decode");
    assert_eq!(s.dt, num(false, 25, -2));
    assert_eq!(s.accel.x, num(false, 1, -3));
    assert_eq!(s.accel.y, num(false, 1, 2));
    assert_eq!(s.accel.z, num(false, 1, -3));
    assert_eq!(s.gyro.x, num(false, 1250, -2));
    // minus zero is normalised to unsigned zero
    assert_eq!(s.gyro.y, num(false, 0, 0));
}

#[test]
fn long_mantissa_is_truncated() {
    // 21 significant digits: the mantissa keeps the first 18, the
    // exponent absorbs the dropped tail
    let line = b"{\"dt\": 123456789012345678901, \"accel\": [0,0,0], \"gyro\": [0,0,0], \"mag\": [0,0,0], \"state\": [[1,0,0,0,0,0,0]]}";
    let s = decode_bytes(line).expect("line should decode");
    assert_eq!(s.dt, num(false, 123456789012345678, 3));
}

#[test]
fn rejects_malformed_lines() {
    // structurally broken
    assert!(decode_bytes(b"").is_none());
    assert!(decode_bytes(b"not json").is_none());
    assert!(decode_bytes(b"{\"dt\": 10}").is_none());
    // missing field
    assert!(decode_bytes(b"{\"dt\": 10, \"accel\": [1,2,3], \"gyro\": [0,0,0], \"mag\": [0,0,0]}").is_none());
    // misnamed field
    assert!(decode_bytes(b"{\"dt\": 10, \"accXl\": [1,2,3], \"gyro\": [0,0,0], \"mag\": [0,0,0], \"state\": [[1,0,0,0,0,0,0]]}").is_none());
    // trailing text
    let mut t = Vec::new();
    t.extend_from_slice(LINE);
    t.extend_from_slice(b" x");
    assert!(decode_bytes(&t).is_none());
    // bad numbers
    assert!(decode_bytes(b"{\"dt\": 01, \"accel\": [1,2,3], \"gyro\": [0,0,0], \"mag\": [0,0,0], \"state\": [[1,0,0,0,0,0,0]]}").is_none());
    assert!(decode_bytes(b"{\"dt\": 1., \"accel\": [1,2,3], \"gyro\": [0,0,0], \"mag\": [0,0,0], \"state\": [[1,0,0,0,0,0,0]]}").is_none());
    assert!(decode_bytes(b"{\"dt\": --1, \"accel\": [1,2,3], \"gyro\": [0,0,0], \"mag\": [0,0,0], \"state\": [[1,0,0,0,0,0,0]]}").is_none());
    assert!(decode_bytes(b"{\"dt\": 1e99999999, \"accel\": [1,2,3], \"gyro\": [0,0,0], \"mag\": [0,0,0], \"state\": [[1,0,0,0,0,0,0]]}").is_none());
    // a negative dt never reaches the data model
    assert!(decode_bytes(b"{\"dt\": -10, \"accel\": [1,2,3], \"gyro\": [0,0,0], \"mag\": [0,0,0], \"state\": [[1,0,0,0,0,0,0]]}").is_none());
    // a zero-magnitude reference orientation never reaches it either
    assert!(decode_bytes(b"{\"dt\": 10, \"accel\": [1,2,3], \"gyro\": [0,0,0], \"mag\": [0,0,0], \"state\": [[0,0,0,0,1,1,1]]}").is_none());
}

#[test]
fn mixed_lines_keep_valid_ones_in_order() {
    let lines: Vec<Vec<u8>> = vec![
        b"{\"dt\": 1, \"accel\": [0,0,0], \"gyro\": [0,0,0], \"mag\": [0,0,0], \"state\": [[1,0,0,0,0,0,0]]}".to_vec(),
        b"garbage".to_vec(),
        b"{\"dt\": 2, \"accel\": [0,0,0], \"gyro\": [0,0,0], \"mag\": [0,0,0], \"state\": [[2,0,0,0,0,0,0]]}".to_vec(),
        b"".to_vec(),
        b"{\"dt\": 3, \"accel\": [0,0,0], \"gyro\": [0,0,0], \"mag\": [0,0,0], \"state\": [[3,0,0,0,0,0,0]]}".to_vec(),
    ];
    let fd = FileData::load(&lines);
    assert_eq!(fd.samples.len(), 3);
    assert_eq!(fd.samples[0].dt, num(false, 1, 0));
    assert_eq!(fd.samples[1].dt, num(false, 2, 0));
    assert_eq!(fd.samples[2].dt, num(false, 3, 0));
    assert_eq!(fd.frame, 0);
}

fn num_to_f64(n: &Num) -> f64 {
    let v = n.mant as f64 * 10f64.powi(n.exp as i32);
    if n.neg { -v } else { v }
}

#[test]
fn agrees_with_reference_json_parser() {
    let text = std::str::from_utf8(LINE).unwrap();
    let v: serde_json::Value = serde_json::from_str(text).expect("reference parser accepts it");
    let s = decode_bytes(LINE).unwrap();
    assert_eq!(num_to_f64(&s.dt), v["dt"].as_f64().unwrap());
    for (i, n) in [&s.gyro.x, &s.gyro.y, &s.gyro.z].iter().enumerate() {
        assert_eq!(num_to_f64(n), v["gyro"][i].as_f64().unwrap());
    }
    for (i, n) in [&s.accel.x, &s.accel.y, &s.accel.z].iter().enumerate() {
        assert_eq!(num_to_f64(n), v["accel"][i].as_f64().unwrap());
    }
    assert_eq!(num_to_f64(&s.state.w), v["state"][0][0].as_f64().unwrap());
}
