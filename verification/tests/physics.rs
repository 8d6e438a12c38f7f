//! Tests of the fixed-point physics: arithmetic helpers, the boundary
//! policies, damping, the coincidence fallback, and rescaling.

use dust::entity::{Entity, GravityCompute, GravityEntity, GravitySettings, Point2, Vel2};
use dust::math::{clamp_i64, isqrt, round_div, wrap_mod};
use dust::world::Settings;

fn quiet_settings() -> Settings {
    let mut s = Settings::default();
    s.energy_loss_milli = 0;
    s.gravity_power = 100;
    s.max_speed = 10_000;
    s.max_gravity_speed = 10_000;
    s.block = true;
    s
}

fn entity_at(x: i32, y: i32, vx: i64, vy: i64) -> Entity {
    Entity {
        position: Point2 { x, y },
        speed: Vel2 { x: vx, y: vy },
    }
}

fn linear_source(x: i32, y: i32, strength: i64, movable: bool) -> GravityEntity {
    GravityEntity {
        inner: entity_at(x, y, 0, 0),
        gravity: GravitySettings {
            compute: GravityCompute::Linear(strength),
        },
        movable,
    }
}

#[test]
fn isqrt_small_values() {
    assert_eq!(isqrt(0), 0);
    assert_eq!(isqrt(1), 1);
    assert_eq!(isqrt(2), 1);
    assert_eq!(isqrt(3), 1);
    assert_eq!(isqrt(4), 2);
    assert_eq!(isqrt(99), 9);
    assert_eq!(isqrt(100), 10);
    assert_eq!(isqrt(19602), 140);
}

#[test]
fn isqrt_large_values() {
    assert_eq!(isqrt(u64::MAX as u128), 0xFFFF_FFFF);
    assert_eq!(isqrt((1u128 << 126) - 1), (1u64 << 63) - 1);
    assert_eq!(isqrt(1u128 << 126), 1u64 << 63);
}

#[test]
fn wrap_mod_negative_operand() {
    assert_eq!(wrap_mod(-5, 1000), 995);
    assert_eq!(wrap_mod(5, 1000), 5);
    assert_eq!(wrap_mod(-1000, 1000), 0);
    assert_eq!(wrap_mod(-1001, 1000), 999);
    assert_eq!(wrap_mod(2500, 1000), 500);
    assert_eq!(wrap_mod(0, 7), 0);
}

#[test]
fn round_div_half_away_from_zero() {
    assert_eq!(round_div(5, 10), 1);
    assert_eq!(round_div(4, 10), 0);
    assert_eq!(round_div(14, 10), 1);
    assert_eq!(round_div(15, 10), 2);
    assert_eq!(round_div(-5, 10), -1);
    assert_eq!(round_div(-4, 10), 0);
    assert_eq!(round_div(-15, 10), -2);
    assert_eq!(round_div(0, 3), 0);
}

#[test]
fn clamp_values() {
    assert_eq!(clamp_i64(5, 0, 10), 5);
    assert_eq!(clamp_i64(-5, 0, 10), 0);
    assert_eq!(clamp_i64(15, 0, 10), 10);
}

#[test]
fn block_mode_lower_wall() {
    // A tick that drives the particle past the lower wall ends exactly on
    // it, with the velocity pointing back in.
    let mut e = entity_at(5, 500, -1_000_000, 0);
    let s = quiet_settings();
    e.update_position(&s, 1000, (1000, 1000));
    assert_eq!(e.position.x, 0);
    assert!(e.speed.x >= 0);
    assert_eq!(e.speed.x, 1_000_000);
}

#[test]
fn block_mode_upper_wall() {
    let mut e = entity_at(995, 500, 1_000_000, 0);
    let s = quiet_settings();
    e.update_position(&s, 1000, (1000, 1000));
    assert_eq!(e.position.x, 1000);
    assert!(e.speed.x <= 0);
}

#[test]
fn wrap_mode_negative_position() {
    // Extent 1000, raw updated position -5: the particle ends at 995.
    let mut e = entity_at(5, 500, -10, 0);
    let mut s = quiet_settings();
    s.block = false;
    e.update_position(&s, 1000, (1000, 1000));
    assert_eq!(e.position.x, 995);
    assert_eq!(e.speed.x, -10);
}

#[test]
fn wrap_mode_overflow_position() {
    let mut e = entity_at(995, 500, 10, 0);
    let mut s = quiet_settings();
    s.block = false;
    e.update_position(&s, 1000, (1000, 1000));
    assert_eq!(e.position.x, 5);
}

#[test]
fn damping_floor_keeps_a_tenth() {
    // An absurdly high damping rate over a one-second tick still keeps a
    // tenth of the velocity.
    let mut e = entity_at(500_000, 500_000, 1000, -500);
    let mut s = quiet_settings();
    s.energy_loss_milli = 1_000_000;
    e.update_position(&s, 1000, (1_000_000, 1_000_000));
    assert_eq!(e.speed.x, 100);
    assert_eq!(e.speed.y, -50);
}

#[test]
fn damping_ordinary_rate() {
    // The default rate, a tenth per second, over a one-second tick.
    let mut e = entity_at(500_000, 500_000, 1000, 0);
    let mut s = quiet_settings();
    s.energy_loss_milli = 100;
    e.update_position(&s, 1000, (1_000_000, 1_000_000));
    assert_eq!(e.speed.x, 900);
}

#[test]
fn speed_cap_rescales_vector() {
    let mut e = entity_at(500_000, 500_000, 30_000_000, 40_000_000);
    let mut s = quiet_settings();
    s.max_speed = 10_000;
    e.update_position(&s, 0, (1_000_000, 1_000_000));
    // magnitude 50_000_000 is rescaled onto the cap 10_000_000, keeping
    // the 3:4 direction
    assert_eq!(e.speed.x, 6_000_000);
    assert_eq!(e.speed.y, 8_000_000);
}

#[test]
fn coincident_positions_fall_back_to_nonzero_pull() {
    let mut e = entity_at(400, 400, 0, 0);
    let g = linear_source(400, 400, 10, false);
    let s = quiet_settings();
    e.apply_gravity(&g, &s, 1000, (1000, 1000));
    assert!(e.speed.x != 0);
    assert!(e.speed.y != 0);
    // the fallback never moves the position
    assert_eq!(e.position.x, 400);
    assert_eq!(e.position.y, 400);
}

#[test]
fn linear_pull_exact_value() {
    let mut e = entity_at(1000, 1000, 0, 0);
    let g = linear_source(2000, 1000, 10, false);
    let s = quiet_settings();
    e.apply_gravity(&g, &s, 1000, (1_000_000, 1_000_000));
    // magnitude: 1000^2 * 100 * 10 * 10 / 1000, capped at 10_000 * 1000
    assert_eq!(e.speed.x, 10_000_000);
    assert_eq!(e.speed.y, 0);
}

#[test]
fn square_pull_exact_value() {
    let mut e = entity_at(1000, 1000, 0, 0);
    let mut g = linear_source(2000, 1000, 0, false);
    g.gravity.compute = GravityCompute::Square(10);
    let mut s = quiet_settings();
    s.max_gravity_speed = 1_000_000;
    e.apply_gravity(&g, &s, 1000, (1_000_000, 1_000_000));
    // magnitude: 1000^2 * 100 * 10 * 1_000_000 / 1000^2 = 10^12, capped
    // at 1_000_000 * 1000 = 10^9
    assert_eq!(e.speed.x, 1_000_000_000);
}

#[test]
fn negative_strength_repels() {
    let mut e = entity_at(1000, 1000, 0, 0);
    let g = linear_source(2000, 1000, -10, false);
    let s = quiet_settings();
    e.apply_gravity(&g, &s, 1000, (1_000_000, 1_000_000));
    assert!(e.speed.x < 0);
}

#[test]
fn toroidal_fold_takes_shorter_path() {
    // Under wrapping, a source far to the right pulls through the left
    // edge: the folded offset points left.
    let mut e = entity_at(100_000, 500_000, 0, 0);
    let g = linear_source(900_000, 500_000, 10, false);
    let mut s = quiet_settings();
    s.block = false;
    e.apply_gravity(&g, &s, 1000, (1_000_000, 1_000_000));
    assert!(e.speed.x < 0);

    // under the blocking wall the same source pulls right, the direct way
    let mut e2 = entity_at(100_000, 500_000, 0, 0);
    let s2 = quiet_settings();
    e2.apply_gravity(&g, &s2, 1000, (1_000_000, 1_000_000));
    assert!(e2.speed.x > 0);
}

#[test]
fn rescale_maps_proportionally() {
    // Field (1000, 1000) resized to (2000, 500): a particle at (500, 500)
    // lands at (1000, 250).
    let mut e = entity_at(500, 500, 7, -3);
    e.update_position_new_size((1000, 1000), (2000, 500));
    assert_eq!(e.position.x, 1000);
    assert_eq!(e.position.y, 250);
    assert_eq!(e.speed.x, 7);
    assert_eq!(e.speed.y, -3);
}

#[test]
fn new_random_stays_in_field() {
    for _ in 0..100 {
        let e = Entity::new_random((5000, 3000));
        assert!(0 <= e.position.x && e.position.x < 5000);
        assert!(0 <= e.position.y && e.position.y < 3000);
        assert_eq!(e.speed.x, 0);
        assert_eq!(e.speed.y, 0);
    }
}

#[test]
fn force_accessors() {
    let mut c = GravityCompute::Linear(42);
    assert_eq!(c.get_force(), 42);
    c.set_force(-7);
    assert_eq!(c.get_force(), -7);
    assert!(matches!(c, GravityCompute::Linear(-7)));
    let mut d = GravityCompute::Square(3);
    d.set_force(9);
    assert!(matches!(d, GravityCompute::Square(9)));
    assert_eq!(GravityCompute::default().get_force(), 0);
}

#[test]
fn default_settings_values() {
    let s = Settings::default();
    assert_eq!(s.time_factor_milli, 1000);
    assert_eq!(s.gravity_power, 100);
    assert_eq!(s.energy_loss_milli, 100);
    assert_eq!(s.max_speed, 10_000);
    assert_eq!(s.max_gravity_speed, 10_000);
    assert!(s.block);
    assert!(!s.mouse_gravity_active);
    assert_eq!(s.mouse_gravity.gravity.compute.get_force(), 100);
}
