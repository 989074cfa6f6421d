use tiltcore::intg::{Gyro, GyroSample, Increments, increments};
use tiltcore::num::Num;
use tiltcore::record::V3;

fn num(neg: bool, mant: u128, exp: i64) -> Num {
    Num { neg, mant, exp }
}

fn v3(x: Num, y: Num, z: Num) -> V3 {
    V3 { x, y, z }
}

fn num_to_f32(n: &Num) -> f32 {
    let v = n.mant as f32 * 10f32.powi(n.exp as i32);
    if n.neg { -v } else { v }
}

/// Composes one increment triple onto an orientation the way the
/// embedding program does: intrinsic rotations about the local X,
/// then Y, then Z axis.
fn compose(q: glam::Quat, inc: &Increments) -> glam::Quat {
    q * glam::Quat::from_rotation_x(num_to_f32(&inc.ax))
        * glam::Quat::from_rotation_y(num_to_f32(&inc.ay))
        * glam::Quat::from_rotation_z(num_to_f32(&inc.az))
}

#[test]
fn fresh_integrator_is_identity() {
    let g = Gyro::new();
    assert_eq!(g.q, glam::Quat::IDENTITY);
}

#[test]
fn increments_remap_axes_and_flip_sign() {
    // dt 10 ms -> dt = 0.01 s; w = (1, 2, 3) per second
    let inc = increments(num(false, 10, 0), v3(num(false, 1, 0), num(false, 2, 0), num(false, 3, 0)));
    // about local X: -w.x * dt = -0.01
    assert_eq!(inc.ax, num(true, 10, -3));
    // about local Y: +w.z * dt = 0.03
    assert_eq!(inc.ay, num(false, 30, -3));
    // about local Z: +w.y * dt = 0.02
    assert_eq!(inc.az, num(false, 20, -3));
}

#[test]
fn zero_rate_contributes_nothing() {
    let z = num(false, 0, 0);
    let inc = increments(num(false, 10, 0), v3(z, z, z));
    assert_eq!(num_to_f32(&inc.ax), 0.0);
    assert_eq!(num_to_f32(&inc.ay), 0.0);
    assert_eq!(num_to_f32(&inc.az), 0.0);
    let q = compose(glam::Quat::IDENTITY, &inc);
    assert_eq!(q, glam::Quat::IDENTITY);
}

#[test]
fn reset_returns_to_identity_regardless_of_state() {
    let mut g = Gyro::new();
    let inc = g.add_sample(num(false, 10, 0), v3(num(false, 1, 0), num(false, 0, 0), num(false, 0, 0)));
    let q = compose(g.q, &inc);
    g.set_orientation(q);
    assert_ne!(g.q, glam::Quat::IDENTITY);
    g.reset();
    assert_eq!(g.q, glam::Quat::IDENTITY);
    // a second reset changes nothing
    g.reset();
    assert_eq!(g.q, glam::Quat::IDENTITY);
}

#[test]
fn add_sample_keeps_orientation_untouched() {
    let mut g = Gyro::new();
    let before = g.q;
    let _ = g.add_sample(num(false, 5, 0), v3(num(false, 1, 0), num(false, 2, 0), num(false, 3, 0)));
    assert_eq!(g.q, before);
}

#[test]
fn feed_all_returns_one_increment_per_sample_in_order() {
    let mut g = Gyro::new();
    let samples = vec![
        GyroSample { dt_ms: num(false, 10, 0), w: v3(num(false, 1, 0), num(false, 0, 0), num(false, 0, 0)) },
        GyroSample { dt_ms: num(false, 20, 0), w: v3(num(false, 0, 0), num(false, 1, 0), num(false, 0, 0)) },
        GyroSample { dt_ms: num(false, 30, 0), w: v3(num(false, 0, 0), num(false, 0, 0), num(false, 1, 0)) },
    ];
    let incs = g.feed_all(&samples);
    assert_eq!(incs.len(), 3);
    assert_eq!(incs[0].ax, num(true, 10, -3));
    assert_eq!(incs[1].az, num(false, 20, -3));
    assert_eq!(incs[2].ay, num(false, 30, -3));
}

#[test]
fn integration_matches_direct_quaternion_composition() {
    // feeding a few samples and composing each increment in turn gives
    // the same quaternion as composing the rotations by hand
    let mut g = Gyro::new();
    let mut q = g.q;
    let w = v3(num(false, 5, -1), num(false, 25, -2), num(true, 1, 0));
    for _ in 0..4 {
        let inc = g.add_sample(num(false, 100, 0), w);
        q = compose(q, &inc);
        g.set_orientation(q);
    }
    let dt = 0.1f32;
    let mut expect = glam::Quat::IDENTITY;
    for _ in 0..4 {
        expect = expect
            * glam::Quat::from_rotation_x(-0.5 * dt)
            * glam::Quat::from_rotation_y(-1.0 * dt)
            * glam::Quat::from_rotation_z(0.25 * dt);
    }
    assert!(g.q.abs_diff_eq(expect, 1e-6));
}
