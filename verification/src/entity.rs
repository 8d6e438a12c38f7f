//! Particles and gravity sources, and the per-entity update law: accumulate
//! gravitational acceleration, integrate velocity and position, apply the
//! boundary policy. All arithmetic is fixed-point integer arithmetic, so a
//! tick is exactly reproducible.

use vstd::prelude::*;

use crate::PRECISION;
use crate::math::{
    clamp_i128_to_i64, clamp_spec, div_trunc, div_trunc_i128, iabs, isgn, isqrt, isqrt_spec,
    lemma_div_trunc_bound, lemma_isqrt_bounds, lemma_mul_bound, round_div, round_div_spec,
    wrap_mod,
};
use crate::world::Settings;

verus! {

/// A fixed-point position: world units scaled by `PRECISION`.
#[derive(Clone, Copy, PartialEq, Eq, Structural, Debug)]
pub struct Point2 {
    pub x: i32,
    pub y: i32,
}

/// A velocity in position steps per second.
#[derive(Clone, Copy, PartialEq, Eq, Structural, Debug)]
pub struct Vel2 {
    pub x: i64,
    pub y: i64,
}

/// A passive point mass: fixed-point position plus velocity.
#[derive(Clone, Copy, PartialEq, Eq, Structural, Debug)]
pub struct Entity {
    pub position: Point2,
    pub speed: Vel2,
}

/// The force law of a gravity source: the payload is the source strength.
#[derive(Clone, Copy, PartialEq, Eq, Structural, Debug)]
pub enum GravityCompute {
    Linear(i64),
    Square(i64),
}

/// The gravity parameters of one source.
#[derive(Clone, Copy, PartialEq, Eq, Structural, Debug)]
pub struct GravitySettings {
    pub compute: GravityCompute,
}

/// An attractor: an entity with a force law and an optional mobility flag.
/// Non-movable sources attract but never integrate their own motion.
#[derive(Clone, Copy, PartialEq, Eq, Structural, Debug)]
pub struct GravityEntity {
    pub inner: Entity,
    pub gravity: GravitySettings,
    pub movable: bool,
}

/// Salt distinguishing the horizontal axis in the coincidence fallback.
pub const SALT_X: u64 = 0x9E37_79B9_7F4A_7C15;

/// Salt distinguishing the vertical axis in the coincidence fallback.
pub const SALT_Y: u64 = 0xC2B2_AE3D_27D4_EB4F;

/// Largest velocity magnitude per axis the integrator keeps; gravity
/// accumulation saturates here instead of overflowing.
pub const SPEED_LIMIT: i64 = 1_000_000_000_000_000;

/// A xorshift-style bit mixer: the pseudo-random kernel of the coincidence
/// fallback. Deterministic, so a tick is reproducible.
pub open spec fn mix64_spec(seed: u64) -> u64 {
    let a = seed ^ (seed >> 33);
    let b = a ^ (a << 13);
    let c = b ^ (b >> 7);
    c ^ (c << 37)
}

/// Executable bit mixer.
pub fn mix64(seed: u64) -> (r: u64)
    ensures
        r == mix64_spec(seed),
{
    let a = seed ^ (seed >> 33);
    let b = a ^ (a << 13);
    let c = b ^ (b >> 7);
    c ^ (c << 37)
}

/// Mixer seed of an entity: both position coordinates, offset into the
/// non-negative range, on distinct halves of one word.
pub open spec fn fallback_seed_spec(e: Entity, salt: u64) -> u64 {
    let hx = (e.position.x + 0x8000_0000) as u64;
    let hy = (e.position.y + 0x8000_0000) as u64;
    (hx ^ (hy << 32)) ^ salt
}

/// One axis of the substitute direction used when a particle sits exactly on
/// a gravity source: a pseudo-random magnitude in `[1, 99]` with a
/// pseudo-random sign, never zero.
pub open spec fn fallback_component_spec(e: Entity, salt: u64) -> int {
    let h = mix64_spec(fallback_seed_spec(e, salt));
    let mag = ((h >> 8) % 99 + 1) as int;
    if h & 1 == 0 {
        mag
    } else {
        -mag
    }
}

/// Executable fallback axis.
pub fn fallback_component(e: &Entity, salt: u64) -> (r: i64)
    ensures
        r == fallback_component_spec(*e, salt),
        1 <= iabs(r as int) <= 99,
{
    let hx = ((e.position.x as i64) + 0x8000_0000) as u64;
    let hy = ((e.position.y as i64) + 0x8000_0000) as u64;
    let h = mix64((hx ^ (hy << 32)) ^ salt);
    let mag = ((h >> 8) % 99 + 1) as i64;
    if h & 1 == 0 {
        mag
    } else {
        -mag
    }
}

/// Fold one axis of a source-to-particle offset through the half extent, so
/// that under toroidal wrapping the shorter wrap-around path attracts: an
/// offset beyond half the extent is replaced by the complementary offset in
/// the other direction.
pub open spec fn fold_axis_spec(d: int, size: int) -> int
    recommends
        size >= 2,
{
    let half = size / 2;
    if iabs(d) > half {
        -isgn(d) * (half - iabs(d) % half)
    } else {
        d
    }
}

/// Executable axis fold.
pub fn fold_axis(d: i64, size: i32) -> (r: i64)
    requires
        2 <= size,
        iabs(d as int) < 0x1_0000_0000,
    ensures
        r == fold_axis_spec(d as int, size as int),
        iabs(r as int) <= iabs(d as int),
        d != 0 ==> r != 0,
{
    let half = (size / 2) as i64;
    let ad = if d < 0 {
        -d
    } else {
        d
    };
    if ad > half {
        let m = ad % half;
        proof {
            assert(half == size as int / 2);
            assert(ad == iabs(d as int));
            vstd::arithmetic::div_mod::lemma_mod_bound(ad as int, half as int);
            assert(m == iabs(d as int) % (size as int / 2));
        }
        let folded = half - m;
        if d > 0 {
            proof {
                assert(isgn(d as int) == 1);
                assert(fold_axis_spec(d as int, size as int) == -1 * (half - m));
            }
            -folded
        } else {
            proof {
                assert(isgn(d as int) == -1);
                assert(fold_axis_spec(d as int, size as int) == 1 * (half - m));
            }
            folded
        }
    } else {
        proof {
            assert(fold_axis_spec(d as int, size as int) == d as int);
        }
        d
    }
}

/// The offset along which one gravity source pulls a particle: the
/// coordinate difference, folded through the half extent under toroidal
/// wrapping, or the pseudo-random substitute when the positions coincide.
/// Never the zero vector.
pub open spec fn direction_spec(e: Entity, g: Entity, block: bool, field: (i32, i32)) -> (
    int,
    int,
) {
    if e.position == g.position {
        (fallback_component_spec(e, SALT_X), fallback_component_spec(e, SALT_Y))
    } else {
        let dx = g.position.x - e.position.x;
        let dy = g.position.y - e.position.y;
        if block {
            (dx, dy)
        } else {
            (fold_axis_spec(dx, field.0 as int), fold_axis_spec(dy, field.1 as int))
        }
    }
}

/// Executable direction, with the bounds the force arithmetic needs.
pub fn direction(e: &Entity, g: &Entity, block: bool, field: (i32, i32)) -> (d: (i64, i64))
    requires
        crate::world::valid_field(field),
    ensures
        (d.0 as int, d.1 as int) == direction_spec(*e, *g, block, field),
        iabs(d.0 as int) < 0x1_0000_0000,
        iabs(d.1 as int) < 0x1_0000_0000,
        !(d.0 == 0 && d.1 == 0),
{
    if e.position.x == g.position.x && e.position.y == g.position.y {
        proof {
            assert(e.position == g.position);
        }
        (fallback_component(e, SALT_X), fallback_component(e, SALT_Y))
    } else {
        let dx = (g.position.x as i64) - (e.position.x as i64);
        let dy = (g.position.y as i64) - (e.position.y as i64);
        proof {
            assert(e.position != g.position);
            assert(dx != 0 || dy != 0);
        }
        if block {
            (dx, dy)
        } else {
            (fold_axis(dx, field.0), fold_axis(dy, field.1))
        }
    }
}

impl GravityCompute {
    /// The strength carried by either force-law variant.
    pub open spec fn force_spec(self) -> i64 {
        match self {
            GravityCompute::Linear(f) => f,
            GravityCompute::Square(f) => f,
        }
    }

    /// Read the strength of the force law.
    pub fn get_force(&self) -> (r: i64)
        ensures
            r == self.force_spec(),
    {
        match self {
            GravityCompute::Linear(f) => *f,
            GravityCompute::Square(f) => *f,
        }
    }

    /// Replace the strength of the force law, keeping the variant.
    pub fn set_force(&mut self, force: i64)
        ensures
            final (self).force_spec() == force,
            *old(self) is Linear <==> *final (self) is Linear,
    {
        match self {
            GravityCompute::Linear(f) => {
                *f = force;
            },
            GravityCompute::Square(f) => {
                *f = force;
            },
        }
    }
}

/// Squared length of an offset.
pub open spec fn dist2_spec(dx: int, dy: int) -> int {
    dx * dx + dy * dy
}

/// The raw force magnitude of one source at a given distance, before the
/// per-source cap: `PRECISION^2 * gravity_power * f(distance)`, where `f` is
/// `strength * 10 / distance` for the linear law and
/// `strength * 1_000_000 / distance^2` for the square law.
pub open spec fn force_magnitude_spec(c: GravityCompute, power: int, dist: int, dist2: int) -> int
    recommends
        dist >= 1,
        dist2 >= 1,
{
    let prec2 = (PRECISION as int) * (PRECISION as int);
    match c {
        GravityCompute::Linear(p) => div_trunc(prec2 * power * p * 10, dist),
        GravityCompute::Square(p) => div_trunc(prec2 * power * p * 1_000_000, dist2),
    }
}

/// The per-source velocity contribution: the direction scaled to the capped
/// force magnitude. The cap is applied per source, before summing over
/// sources.
pub open spec fn accel_spec(e: Entity, g: GravityEntity, s: Settings, field: (i32, i32)) -> (
    int,
    int,
) {
    let (dx, dy) = direction_spec(e, g.inner, s.block, field);
    let dist2 = dist2_spec(dx, dy);
    let dist = isqrt_spec(dist2 as nat) as int;
    let m0 = force_magnitude_spec(g.gravity.compute, s.gravity_power as int, dist, dist2);
    let cap = (s.max_gravity_speed as int) * (PRECISION as int);
    let m = clamp_spec(m0, -cap, cap);
    (div_trunc(dx * m, dist), div_trunc(dy * m, dist))
}

/// One gravity application: the position is untouched; each velocity axis
/// gains the acceleration scaled by the elapsed time, saturating at
/// `SPEED_LIMIT`.
pub open spec fn apply_gravity_spec(
    e: Entity,
    g: GravityEntity,
    s: Settings,
    dt_ms: int,
    field: (i32, i32),
) -> Entity {
    let (ax, ay) = accel_spec(e, g, s, field);
    let nvx = clamp_spec(e.speed.x + div_trunc(ax * dt_ms, 1000), -SPEED_LIMIT as int, SPEED_LIMIT as int);
    let nvy = clamp_spec(e.speed.y + div_trunc(ay * dt_ms, 1000), -SPEED_LIMIT as int, SPEED_LIMIT as int);
    Entity { position: e.position, speed: Vel2 { x: nvx as i64, y: nvy as i64 } }
}

/// The velocity with its euclidean magnitude capped at `max_len`: a vector
/// longer than the cap is rescaled onto it, keeping its direction.
pub open spec fn limited_speed_spec(v: Vel2, max_len: int) -> (int, int)
    recommends
        max_len >= 1,
{
    let mag2 = v.x * v.x + v.y * v.y;
    let mag = isqrt_spec(mag2 as nat) as int;
    if mag > max_len {
        (div_trunc(v.x * max_len, mag), div_trunc(v.y * max_len, mag))
    } else {
        (v.x as int, v.y as int)
    }
}

/// The damping factor kept by one tick, in thousandths: `1 - dt *
/// energy_loss`, floored at one tenth so arbitrarily high loss can never
/// freeze all motion.
pub open spec fn damping_factor_spec(s: Settings, dt_ms: int) -> int {
    let reduction = dt_ms * (s.energy_loss_milli as int) / 1000;
    if 1000 - reduction < 100 {
        100
    } else {
        1000 - reduction
    }
}

/// The velocity after the speed cap and the damping of one tick.
pub open spec fn damped_speed_spec(e: Entity, s: Settings, dt_ms: int) -> (int, int) {
    let max_len = (s.max_speed as int) * (PRECISION as int);
    let (lx, ly) = limited_speed_spec(e.speed, max_len);
    let f = damping_factor_spec(s, dt_ms);
    (div_trunc(lx * f, 1000), div_trunc(ly * f, 1000))
}

/// The position after integrating the damped velocity, before the boundary
/// policy: the velocity times the elapsed time, rounded to the nearest
/// position step.
pub open spec fn raw_position_spec(e: Entity, s: Settings, dt_ms: int) -> (int, int) {
    let (vx, vy) = damped_speed_spec(e, s, dt_ms);
    (
        e.position.x + round_div_spec(vx * dt_ms, 1000),
        e.position.y + round_div_spec(vy * dt_ms, 1000),
    )
}

/// The reflect-and-clamp wall on one axis: at or past a wall the position
/// snaps onto it and the velocity's sign is forced back into the field.
pub open spec fn block_axis_spec(raw: int, v: int, size: int) -> (int, int) {
    let p1 = if raw <= 0 {
        0
    } else {
        raw
    };
    let v1 = if raw <= 0 {
        iabs(v)
    } else {
        v
    };
    if p1 >= size {
        (size, -iabs(v1))
    } else {
        (p1, v1)
    }
}

/// The entity after one full position update: speed cap, damping,
/// integration, boundary policy.
pub open spec fn update_position_spec(e: Entity, s: Settings, dt_ms: int, field: (i32, i32)) -> Entity {
    let (vx, vy) = damped_speed_spec(e, s, dt_ms);
    let (rx, ry) = raw_position_spec(e, s, dt_ms);
    if s.block {
        let (px, nvx) = block_axis_spec(rx, vx, field.0 as int);
        let (py, nvy) = block_axis_spec(ry, vy, field.1 as int);
        Entity {
            position: Point2 { x: px as i32, y: py as i32 },
            speed: Vel2 { x: nvx as i64, y: nvy as i64 },
        }
    } else {
        Entity {
            position: Point2 { x: (rx % (field.0 as int)) as i32, y: (ry % (field.1 as int)) as i32 },
            speed: Vel2 { x: vx as i64, y: vy as i64 },
        }
    }
}

/// The squared length of a nonzero bounded offset, its root, and the bounds
/// the force arithmetic needs.
pub proof fn lemma_dist_props(dx: int, dy: int)
    requires
        iabs(dx) < 0x1_0000_0000,
        iabs(dy) < 0x1_0000_0000,
        !(dx == 0 && dy == 0),
    ensures
        1 <= dist2_spec(dx, dy) < 0x2_0000_0000_0000_0000_0000,
        1 <= isqrt_spec(dist2_spec(dx, dy) as nat) <= 0x2_0000_0000,
        isqrt_spec(dist2_spec(dx, dy) as nat) >= iabs(dx),
        isqrt_spec(dist2_spec(dx, dy) as nat) >= iabs(dy),
{
    let n = dist2_spec(dx, dy);
    assert(1 <= n < 0x2_0000_0000_0000_0000_0000) by (nonlinear_arith)
        requires
            iabs(dx) < 0x1_0000_0000,
            iabs(dy) < 0x1_0000_0000,
            !(dx == 0 && dy == 0),
            n == dx * dx + dy * dy,
    ;
    lemma_isqrt_bounds(n as nat);
    let r = isqrt_spec(n as nat) as int;
    assert(r * r <= n);
    assert(n < (r + 1) * (r + 1));
    assert(r >= 1 && r <= 0x2_0000_0000 && r >= iabs(dx) && r >= iabs(dy)) by (nonlinear_arith)
        requires
            r >= 0,
            r * r <= n,
            n < (r + 1) * (r + 1),
            1 <= n < 0x2_0000_0000_0000_0000_0000,
            n == dx * dx + dy * dy,
            iabs(dx) < 0x1_0000_0000,
            iabs(dy) < 0x1_0000_0000,
    ;
}

/// The proportional remap of one coordinate when the field extent changes.
pub open spec fn rescale_spec(p: int, old_size: int, new_size: int) -> int
    recommends
        old_size >= 1,
{
    div_trunc(p * new_size, old_size)
}

impl Entity {
    /// A fresh particle: uniform-random position inside the field, at rest.
    pub fn new_random(size_field: (i32, i32)) -> (r: Entity)
        requires
            crate::world::valid_field(size_field),
        ensures
            0 <= r.position.x < size_field.0,
            0 <= r.position.y < size_field.1,
            r.speed == (Vel2 { x: 0i64, y: 0i64 }),
    {
        Entity {
            position: Point2 {
                x: crate::random::random_i32(0, size_field.0),
                y: crate::random::random_i32(0, size_field.1),
            },
            speed: Vel2 { x: 0, y: 0 },
        }
    }

    /// Remap this entity's position proportionally from one field extent to
    /// another; the velocity is untouched.
    pub fn update_position_new_size(&mut self, old_size: (i32, i32), new_size: (i32, i32))
        requires
            crate::world::valid_field(old_size),
            crate::world::valid_field(new_size),
            0 <= old(self).position.x <= old_size.0,
            0 <= old(self).position.y <= old_size.1,
        ensures
            final (self).position.x == rescale_spec(
                old(self).position.x as int,
                old_size.0 as int,
                new_size.0 as int,
            ),
            final (self).position.y == rescale_spec(
                old(self).position.y as int,
                old_size.1 as int,
                new_size.1 as int,
            ),
            0 <= final (self).position.x <= new_size.0,
            0 <= final (self).position.y <= new_size.1,
            final (self).speed == old(self).speed,
    {
        proof {
            lemma_mul_bound(self.position.x as int, new_size.0 as int, 0x8000_0000, 1_000_000_000);
            lemma_mul_bound(self.position.y as int, new_size.1 as int, 0x8000_0000, 1_000_000_000);
            assert((self.position.x as int) * (new_size.0 as int) <= (old_size.0 as int) * (
            new_size.0 as int)) by (nonlinear_arith)
                requires
                    0 <= self.position.x <= old_size.0,
                    new_size.0 >= 0,
            ;
            assert((self.position.y as int) * (new_size.1 as int) <= (old_size.1 as int) * (
            new_size.1 as int)) by (nonlinear_arith)
                requires
                    0 <= self.position.y <= old_size.1,
                    new_size.1 >= 0,
            ;
            crate::math::lemma_div_trunc_le(
                (self.position.x as int) * (new_size.0 as int),
                old_size.0 as int,
                new_size.0 as int,
            );
            crate::math::lemma_div_trunc_le(
                (self.position.y as int) * (new_size.1 as int),
                old_size.1 as int,
                new_size.1 as int,
            );
            lemma_div_trunc_bound((self.position.x as int) * (new_size.0 as int), old_size.0 as int);
            lemma_div_trunc_bound((self.position.y as int) * (new_size.1 as int), old_size.1 as int);
        }
        let nx = div_trunc_i128(
            (self.position.x as i128) * (new_size.0 as i128),
            old_size.0 as i128,
        );
        let ny = div_trunc_i128(
            (self.position.y as i128) * (new_size.1 as i128),
            old_size.1 as i128,
        );
        self.position = Point2 { x: nx as i32, y: ny as i32 };
    }

    /// Apply one gravity source to this entity for one tick: accumulate the
    /// capped, direction-scaled pull of `gravity` into the velocity. The
    /// position does not move here; `update_position` does that.
    pub fn apply_gravity(
        &mut self,
        gravity: &GravityEntity,
        settings: &Settings,
        dt_ms: u32,
        size_field: (i32, i32),
    )
        requires
            crate::world::valid_settings(*settings),
            crate::world::valid_strength(gravity.gravity.compute),
            crate::world::valid_field(size_field),
            dt_ms <= crate::world::MAX_DT_MS,
        ensures
            *final (self) == apply_gravity_spec(
                *old(self),
                *gravity,
                *settings,
                dt_ms as int,
                size_field,
            ),
            final (self).position == old(self).position,
    {
        let me = *self;
        let (dx, dy) = direction(&me, &gravity.inner, settings.block, size_field);
        proof {
            lemma_dist_props(dx as int, dy as int);
            lemma_mul_bound(dx as int, dx as int, 0xFFFF_FFFF, 0xFFFF_FFFF);
            lemma_mul_bound(dy as int, dy as int, 0xFFFF_FFFF, 0xFFFF_FFFF);
        }
        let dist2: i128 = (dx as i128) * (dx as i128) + (dy as i128) * (dy as i128);
        let dist: u64 = isqrt(dist2 as u128);
        proof {
            assert(dist2 == dist2_spec(dx as int, dy as int));
            assert(1 <= dist <= 0x2_0000_0000);
            assert(dist >= iabs(dx as int) && dist >= iabs(dy as int));
        }
        let prec2: i128 = (PRECISION as i128) * (PRECISION as i128);
        let power: i128 = settings.gravity_power as i128;
        let strength: i64 = gravity.gravity.compute.get_force();
        let n1: i128 = prec2 * power;
        proof {
            lemma_mul_bound(n1 as int, strength as int, 1_000_000_000_000, 1_000_000);
        }
        let n2: i128 = n1 * (strength as i128);
        let m0: i128 = match gravity.gravity.compute {
            GravityCompute::Linear(_) => div_trunc_i128(n2 * 10, dist as i128),
            GravityCompute::Square(_) => div_trunc_i128(n2 * 1_000_000, dist2),
        };
        proof {
            assert(m0 == force_magnitude_spec(
                gravity.gravity.compute,
                settings.gravity_power as int,
                dist as int,
                dist2 as int,
            ));
        }
        let cap: i64 = (settings.max_gravity_speed as i64) * 1000;
        proof {
            assert(cap == (settings.max_gravity_speed as int) * (PRECISION as int));
        }
        let m: i64 = clamp_i128_to_i64(m0, -cap, cap);
        proof {
            lemma_mul_bound(dx as int, m as int, 0xFFFF_FFFF, 1_000_000_000);
            lemma_mul_bound(dy as int, m as int, 0xFFFF_FFFF, 1_000_000_000);
            assert(iabs((dx as i128 * m as i128) as int) <= (dist as int) * (cap as int))
                by (nonlinear_arith)
                requires
                    iabs(dx as int) <= dist as int,
                    iabs(m as int) <= cap as int,
                    dist >= 1,
                    cap >= 0,
            ;
            assert(iabs((dy as i128 * m as i128) as int) <= (dist as int) * (cap as int))
                by (nonlinear_arith)
                requires
                    iabs(dy as int) <= dist as int,
                    iabs(m as int) <= cap as int,
                    dist >= 1,
                    cap >= 0,
            ;
            crate::math::lemma_div_trunc_le(
                (dx as i128 * m as i128) as int,
                dist as int,
                cap as int,
            );
            crate::math::lemma_div_trunc_le(
                (dy as i128 * m as i128) as int,
                dist as int,
                cap as int,
            );
        }
        let ax: i128 = div_trunc_i128((dx as i128) * (m as i128), dist as i128);
        let ay: i128 = div_trunc_i128((dy as i128) * (m as i128), dist as i128);
        proof {
            assert((ax as int, ay as int) == accel_spec(me, *gravity, *settings, size_field));
            lemma_mul_bound(ax as int, dt_ms as int, 1_000_000_000, 100_000);
            lemma_mul_bound(ay as int, dt_ms as int, 1_000_000_000, 100_000);
        }
        let dvx: i128 = div_trunc_i128(ax * (dt_ms as i128), 1000);
        let dvy: i128 = div_trunc_i128(ay * (dt_ms as i128), 1000);
        let nvx: i64 = clamp_i128_to_i64((me.speed.x as i128) + dvx, -SPEED_LIMIT, SPEED_LIMIT);
        let nvy: i64 = clamp_i128_to_i64((me.speed.y as i128) + dvy, -SPEED_LIMIT, SPEED_LIMIT);
        self.speed = Vel2 { x: nvx, y: nvy };
        proof {
            assert(*self == apply_gravity_spec(me, *gravity, *settings, dt_ms as int, size_field));
        }
    }

    /// Advance this entity by one tick: cap the speed, damp it, integrate
    /// the position, and apply the boundary policy. Afterwards the position
    /// lies inside the field: in `[0, extent]` under the reflecting wall,
    /// in `[0, extent)` under toroidal wrapping.
    pub fn update_position(&mut self, settings: &Settings, dt_ms: u32, size_field: (i32, i32))
        requires
            crate::world::valid_settings(*settings),
            crate::world::valid_field(size_field),
            dt_ms <= crate::world::MAX_DT_MS,
        ensures
            *final (self) == update_position_spec(
                *old(self),
                *settings,
                dt_ms as int,
                size_field,
            ),
            0 <= final (self).position.x <= size_field.0,
            0 <= final (self).position.y <= size_field.1,
            !settings.block ==> final (self).position.x < size_field.0,
            !settings.block ==> final (self).position.y < size_field.1,
    {
        let me = *self;
        let avx: u128 = if me.speed.x < 0 {
            (-(me.speed.x as i128)) as u128
        } else {
            me.speed.x as u128
        };
        let avy: u128 = if me.speed.y < 0 {
            (-(me.speed.y as i128)) as u128
        } else {
            me.speed.y as u128
        };
        proof {
            assert(avx == iabs(me.speed.x as int) && avy == iabs(me.speed.y as int));
            lemma_mul_bound(avx as int, avx as int, 0x8000_0000_0000_0000, 0x8000_0000_0000_0000);
            lemma_mul_bound(avy as int, avy as int, 0x8000_0000_0000_0000, 0x8000_0000_0000_0000);
            assert((avx as int) * (avx as int) == (me.speed.x as int) * (me.speed.x as int))
                by (nonlinear_arith)
                requires
                    avx == iabs(me.speed.x as int),
            ;
            assert((avy as int) * (avy as int) == (me.speed.y as int) * (me.speed.y as int))
                by (nonlinear_arith)
                requires
                    avy == iabs(me.speed.y as int),
            ;
        }
        let mag2: u128 = avx * avx + avy * avy;
        let mag: u64 = isqrt(mag2);
        let max_len: i64 = (settings.max_speed as i64) * 1000;
        proof {
            assert(max_len == (settings.max_speed as int) * (PRECISION as int));
            crate::math::lemma_isqrt_ge_component(me.speed.x as int, me.speed.y as int);
            assert(mag >= iabs(me.speed.x as int) && mag >= iabs(me.speed.y as int));
        }
        let (lx, ly): (i64, i64) = if (mag as i128) > (max_len as i128) {
            proof {
                lemma_mul_bound(
                    me.speed.x as int,
                    max_len as int,
                    0x8000_0000_0000_0000,
                    1_000_000_000,
                );
                lemma_mul_bound(
                    me.speed.y as int,
                    max_len as int,
                    0x8000_0000_0000_0000,
                    1_000_000_000,
                );
                assert(iabs((me.speed.x as int) * (max_len as int)) <= (mag as int) * (
                max_len as int)) by (nonlinear_arith)
                    requires
                        iabs(me.speed.x as int) <= mag as int,
                        max_len >= 0,
                ;
                assert(iabs((me.speed.y as int) * (max_len as int)) <= (mag as int) * (
                max_len as int)) by (nonlinear_arith)
                    requires
                        iabs(me.speed.y as int) <= mag as int,
                        max_len >= 0,
                ;
                crate::math::lemma_div_trunc_le(
                    (me.speed.x as int) * (max_len as int),
                    mag as int,
                    max_len as int,
                );
                crate::math::lemma_div_trunc_le(
                    (me.speed.y as int) * (max_len as int),
                    mag as int,
                    max_len as int,
                );
            }
            let sx = div_trunc_i128((me.speed.x as i128) * (max_len as i128), mag as i128);
            let sy = div_trunc_i128((me.speed.y as i128) * (max_len as i128), mag as i128);
            (sx as i64, sy as i64)
        } else {
            (me.speed.x, me.speed.y)
        };
        proof {
            assert((lx as int, ly as int) == limited_speed_spec(me.speed, max_len as int));
            assert(iabs(lx as int) <= max_len && iabs(ly as int) <= max_len);
        }
        proof {
            lemma_mul_bound(dt_ms as int, settings.energy_loss_milli as int, 100_000, 1_000_000);
        }
        let red: i64 = ((dt_ms as i64) * (settings.energy_loss_milli as i64)) / 1000;
        let f: i64 = if 1000 - red < 100 {
            100
        } else {
            1000 - red
        };
        proof {
            assert(f == damping_factor_spec(*settings, dt_ms as int));
            assert(100 <= f <= 1000);
            lemma_mul_bound(lx as int, f as int, 1_000_000_000, 1000);
            lemma_mul_bound(ly as int, f as int, 1_000_000_000, 1000);
            assert(iabs((lx as int) * (f as int)) <= 1000 * 1_000_000_000) by (nonlinear_arith)
                requires
                    iabs(lx as int) <= 1_000_000_000,
                    iabs(f as int) <= 1000,
            ;
            assert(iabs((ly as int) * (f as int)) <= 1000 * 1_000_000_000) by (nonlinear_arith)
                requires
                    iabs(ly as int) <= 1_000_000_000,
                    iabs(f as int) <= 1000,
            ;
            crate::math::lemma_div_trunc_le((lx as int) * (f as int), 1000, 1_000_000_000);
            crate::math::lemma_div_trunc_le((ly as int) * (f as int), 1000, 1_000_000_000);
        }
        let dvx: i64 = div_trunc_i128((lx as i128) * (f as i128), 1000) as i64;
        let dvy: i64 = div_trunc_i128((ly as i128) * (f as i128), 1000) as i64;
        proof {
            assert((dvx as int, dvy as int) == damped_speed_spec(me, *settings, dt_ms as int));
            lemma_mul_bound(dvx as int, dt_ms as int, 1_000_000_000, 100_000);
            lemma_mul_bound(dvy as int, dt_ms as int, 1_000_000_000, 100_000);
        }
        let deltax: i64 = round_div(dvx * (dt_ms as i64), 1000);
        let deltay: i64 = round_div(dvy * (dt_ms as i64), 1000);
        let rx: i64 = (me.position.x as i64) + deltax;
        let ry: i64 = (me.position.y as i64) + deltay;
        proof {
            assert((rx as int, ry as int) == raw_position_spec(me, *settings, dt_ms as int));
        }
        if settings.block {
            let size_x = size_field.0 as i64;
            let size_y = size_field.1 as i64;
            let mut px: i64 = rx;
            let mut nvx: i64 = dvx;
            if px <= 0 {
                px = 0;
                nvx = if dvx < 0 {
                    -dvx
                } else {
                    dvx
                };
            }
            if px >= size_x {
                px = size_x;
                nvx = if nvx < 0 {
                    nvx
                } else {
                    -nvx
                };
            }
            let mut py: i64 = ry;
            let mut nvy: i64 = dvy;
            if py <= 0 {
                py = 0;
                nvy = if dvy < 0 {
                    -dvy
                } else {
                    dvy
                };
            }
            if py >= size_y {
                py = size_y;
                nvy = if nvy < 0 {
                    nvy
                } else {
                    -nvy
                };
            }
            proof {
                assert((px as int, nvx as int) == block_axis_spec(
                    rx as int,
                    dvx as int,
                    size_field.0 as int,
                ));
                assert((py as int, nvy as int) == block_axis_spec(
                    ry as int,
                    dvy as int,
                    size_field.1 as int,
                ));
            }
            self.position = Point2 { x: px as i32, y: py as i32 };
            self.speed = Vel2 { x: nvx, y: nvy };
        } else {
            let px = wrap_mod(rx, size_field.0 as i64);
            let py = wrap_mod(ry, size_field.1 as i64);
            self.position = Point2 { x: px as i32, y: py as i32 };
            self.speed = Vel2 { x: dvx, y: dvy };
        }
        proof {
            assert(*self == update_position_spec(me, *settings, dt_ms as int, size_field));
        }
    }
}

/// Damping on one axis keeps at least a tenth of the velocity: the factor
/// is floored at one hundred thousandths, and division by a larger factor
/// shrinks the magnitude monotonically.
proof fn lemma_damp_axis_floor(l: int, f: int)
    requires
        100 <= f,
    ensures
        iabs(div_trunc(l * f, 1000)) >= iabs(l) / 10,
{
    crate::math::lemma_div_trunc_abs(l * f, 1000);
    assert(iabs(l * f) == iabs(l) * f) by (nonlinear_arith)
        requires
            f >= 0,
    ;
    assert(iabs(l) * f >= iabs(l) * 100) by (nonlinear_arith)
        requires
            f >= 100,
            iabs(l) >= 0,
    ;
    vstd::arithmetic::div_mod::lemma_div_is_ordered(iabs(l) * 100, iabs(l) * f, 1000);
    vstd::arithmetic::div_mod::lemma_div_denominator(iabs(l) * 100, 100, 10);
    vstd::arithmetic::div_mod::lemma_div_by_multiple(iabs(l), 100);
    assert(iabs(l) * 100 == 100 * iabs(l));
    assert((iabs(l) * 100) / 100 == iabs(l));
    assert((iabs(l) * 100) / 1000 == iabs(l) / 10);
}

/// However large the damping rate and however long the tick, the damping
/// factor of a tick never falls below one tenth: the floor that keeps high
/// loss from freezing all motion. For a forward-running tick it cannot
/// exceed one either.
pub proof fn lemma_damping_factor_floor(s: Settings, dt_ms: int)
    ensures
        damping_factor_spec(s, dt_ms) >= 100,
        0 <= dt_ms ==> damping_factor_spec(s, dt_ms) <= 1000,
{
    if 0 <= dt_ms {
        let reduction = dt_ms * (s.energy_loss_milli as int);
        assert(reduction >= 0) by (nonlinear_arith)
            requires
                reduction == dt_ms * (s.energy_loss_milli as int),
                dt_ms >= 0,
                s.energy_loss_milli >= 0,
        ;
        vstd::arithmetic::div_mod::lemma_div_pos_is_pos(reduction, 1000);
    }
}

/// The damping floor: after the speed cap, one tick's damping keeps at
/// least a tenth of each velocity axis, whatever the damping rate and the
/// elapsed time.
pub proof fn lemma_damping_floor(e: Entity, s: Settings, dt_ms: int)
    ensures
        ({
            let max_len = (s.max_speed as int) * (PRECISION as int);
            let (lx, ly) = limited_speed_spec(e.speed, max_len);
            let (dx, dy) = damped_speed_spec(e, s, dt_ms);
            iabs(dx) >= iabs(lx) / 10 && iabs(dy) >= iabs(ly) / 10
        }),
{
    let max_len = (s.max_speed as int) * (PRECISION as int);
    let (lx, ly) = limited_speed_spec(e.speed, max_len);
    let f = damping_factor_spec(s, dt_ms);
    lemma_damping_factor_floor(s, dt_ms);
    lemma_damp_axis_floor(lx, f);
    lemma_damp_axis_floor(ly, f);
}

/// Coincident positions still produce a pull: the substitute direction is
/// nonzero on both axes, and with a nonzero strength, a nonzero power and a
/// nonzero per-source cap, so is the resulting acceleration. Division by
/// zero cannot arise: the substitute offset keeps the distance positive.
pub proof fn lemma_coincident_fallback(e: Entity, g: GravityEntity, s: Settings, field: (
    i32,
    i32,
))
    requires
        e.position == g.inner.position,
        crate::world::valid_settings(s),
        crate::world::valid_strength(g.gravity.compute),
        g.gravity.compute.force_spec() != 0,
        s.gravity_power >= 1,
        s.max_gravity_speed >= 1,
    ensures
        accel_spec(e, g, s, field).0 != 0,
        accel_spec(e, g, s, field).1 != 0,
{
    let (dx, dy) = direction_spec(e, g.inner, s.block, field);
    assert(dx == fallback_component_spec(e, SALT_X) && dy == fallback_component_spec(e, SALT_Y));
    let hx = mix64_spec(fallback_seed_spec(e, SALT_X));
    let hy = mix64_spec(fallback_seed_spec(e, SALT_Y));
    vstd::arithmetic::div_mod::lemma_mod_bound((hx >> 8) as int, 99);
    vstd::arithmetic::div_mod::lemma_mod_bound((hy >> 8) as int, 99);
    assert(1 <= iabs(dx) <= 99 && 1 <= iabs(dy) <= 99);
    let dist2 = dist2_spec(dx, dy);
    assert(2 <= dist2 <= 19602) by (nonlinear_arith)
        requires
            dist2 == dx * dx + dy * dy,
            1 <= iabs(dx) <= 99,
            1 <= iabs(dy) <= 99,
    ;
    lemma_isqrt_bounds(dist2 as nat);
    let dist = isqrt_spec(dist2 as nat) as int;
    assert(1 <= dist <= 140) by (nonlinear_arith)
        requires
            dist >= 0,
            dist * dist <= dist2,
            dist2 < (dist + 1) * (dist + 1),
            2 <= dist2 <= 19602,
    ;
    let power = s.gravity_power as int;
    let p = g.gravity.compute.force_spec() as int;
    let prec2 = (PRECISION as int) * (PRECISION as int);
    let m0 = force_magnitude_spec(g.gravity.compute, power, dist, dist2);
    assert(iabs(m0) >= 141 && isgn(m0) == isgn(p)) by {
        match g.gravity.compute {
            GravityCompute::Linear(_) => {
                let num = prec2 * power * p * 10;
                assert(iabs(num) >= 10_000_000) by (nonlinear_arith)
                    requires
                        prec2 == 1_000_000,
                        power >= 1,
                        iabs(p) >= 1,
                        num == prec2 * power * p * 10,
                ;
                crate::math::lemma_div_trunc_abs(num, dist);
                assert(iabs(num) >= 141 * dist) by (nonlinear_arith)
                    requires
                        iabs(num) >= 10_000_000,
                        1 <= dist <= 140,
                ;
                vstd::arithmetic::div_mod::lemma_div_by_multiple(141, dist);
                vstd::arithmetic::div_mod::lemma_div_is_ordered(141 * dist, iabs(num), dist);
                assert((141 * dist) / dist == 141);
                assert(iabs(m0) == iabs(num) / dist);
                assert(iabs(m0) >= 141);
                crate::math::lemma_div_trunc_bound(num, dist);
                assert(isgn(m0) == isgn(p)) by (nonlinear_arith)
                    requires
                        m0 == div_trunc(num, dist),
                        num == prec2 * power * p * 10,
                        prec2 == 1_000_000,
                        power >= 1,
                        dist >= 1,
                        iabs(m0) >= 141,
                        iabs(num) / dist == iabs(m0),
                        num >= 0 ==> div_trunc(num, dist) >= 0,
                        num <= 0 ==> div_trunc(num, dist) <= 0,
                ;
            },
            GravityCompute::Square(_) => {
                let num = prec2 * power * p * 1_000_000;
                assert(iabs(num) >= 1_000_000_000_000 && iabs(num) >= 141 * dist2)
                    by (nonlinear_arith)
                    requires
                        prec2 == 1_000_000,
                        power >= 1,
                        iabs(p) >= 1,
                        num == prec2 * power * p * 1_000_000,
                        2 <= dist2 <= 19602,
                ;
                crate::math::lemma_div_trunc_abs(num, dist2);
                assert(141 * dist2 == dist2 * 141);
                vstd::arithmetic::div_mod::lemma_div_by_multiple(141, dist2);
                vstd::arithmetic::div_mod::lemma_div_is_ordered(141 * dist2, iabs(num), dist2);
                assert((141 * dist2) / dist2 == 141);
                assert(iabs(m0) == iabs(num) / dist2);
                assert(iabs(m0) >= 141);
                crate::math::lemma_div_trunc_bound(num, dist2);
                assert(isgn(m0) == isgn(p)) by (nonlinear_arith)
                    requires
                        m0 == div_trunc(num, dist2),
                        num == prec2 * power * p * 1_000_000,
                        prec2 == 1_000_000,
                        power >= 1,
                        dist2 >= 1,
                        iabs(m0) >= 141,
                        num >= 0 ==> div_trunc(num, dist2) >= 0,
                        num <= 0 ==> div_trunc(num, dist2) <= 0,
                ;
            },
        }
    }
    let cap = (s.max_gravity_speed as int) * (PRECISION as int);
    assert(cap >= 1000) by (nonlinear_arith)
        requires
            cap == (s.max_gravity_speed as int) * (PRECISION as int),
            s.max_gravity_speed >= 1,
            PRECISION == 1000,
    ;
    let m = clamp_spec(m0, -cap, cap);
    assert(iabs(m) >= 141 && m != 0);
    assert(iabs(dx * m) >= iabs(m) && iabs(dy * m) >= iabs(m)) by (nonlinear_arith)
        requires
            1 <= iabs(dx),
            1 <= iabs(dy),
    ;
    crate::math::lemma_div_trunc_abs(dx * m, dist);
    crate::math::lemma_div_trunc_abs(dy * m, dist);
    vstd::arithmetic::div_mod::lemma_div_is_ordered(dist, iabs(dx * m), dist);
    vstd::arithmetic::div_mod::lemma_div_is_ordered(dist, iabs(dy * m), dist);
    vstd::arithmetic::div_mod::lemma_div_by_self(dist);
    assert(iabs(div_trunc(dx * m, dist)) >= 1);
    assert(iabs(div_trunc(dy * m, dist)) >= 1);
}

/// Under the reflecting wall, a tick that drives a particle onto or past
/// the lower wall ends exactly on the wall, with the velocity pointing back
/// into the field.
pub proof fn lemma_block_wall_floor(e: Entity, s: Settings, dt_ms: int, field: (i32, i32))
    requires
        s.block,
        crate::world::valid_settings(s),
        crate::world::valid_field(field),
        0 <= dt_ms,
        raw_position_spec(e, s, dt_ms).0 <= 0,
    ensures
        update_position_spec(e, s, dt_ms, field).position.x == 0,
        update_position_spec(e, s, dt_ms, field).speed.x >= 0,
{
    let (vx, vy) = damped_speed_spec(e, s, dt_ms);
    let (rx, ry) = raw_position_spec(e, s, dt_ms);
    lemma_damped_speed_bounds(e, s, dt_ms);
    assert(block_axis_spec(rx, vx, field.0 as int) == (0int, iabs(vx)));
}

/// Under toroidal wrapping, the post-tick position is exactly the raw
/// integrated position reduced into `[0, extent)` by the euclidean
/// remainder.
pub proof fn lemma_wrap_position(e: Entity, s: Settings, dt_ms: int, field: (i32, i32))
    requires
        !s.block,
        crate::world::valid_settings(s),
        crate::world::valid_field(field),
    ensures
        update_position_spec(e, s, dt_ms, field).position.x == raw_position_spec(e, s, dt_ms).0 % (
        field.0 as int),
        update_position_spec(e, s, dt_ms, field).position.y == raw_position_spec(e, s, dt_ms).1 % (
        field.1 as int),
{
    vstd::arithmetic::div_mod::lemma_mod_bound(raw_position_spec(e, s, dt_ms).0, field.0 as int);
    vstd::arithmetic::div_mod::lemma_mod_bound(raw_position_spec(e, s, dt_ms).1, field.1 as int);
}

/// The speed cap really caps: after the cap and the damping of one tick,
/// each velocity axis is within `max_speed` world units per second.
pub proof fn lemma_damped_speed_bounds(e: Entity, s: Settings, dt_ms: int)
    requires
        crate::world::valid_settings(s),
        0 <= dt_ms,
    ensures
        iabs(damped_speed_spec(e, s, dt_ms).0) <= (s.max_speed as int) * (PRECISION as int),
        iabs(damped_speed_spec(e, s, dt_ms).1) <= (s.max_speed as int) * (PRECISION as int),
        iabs(damped_speed_spec(e, s, dt_ms).0) <= 1_000_000_000,
        iabs(damped_speed_spec(e, s, dt_ms).1) <= 1_000_000_000,
{
    let max_len = (s.max_speed as int) * (PRECISION as int);
    assert(0 <= max_len <= 1_000_000_000);
    let mag2 = e.speed.x * e.speed.x + e.speed.y * e.speed.y;
    let mag = isqrt_spec(mag2 as nat) as int;
    crate::math::lemma_isqrt_ge_component(e.speed.x as int, e.speed.y as int);
    let (lx, ly) = limited_speed_spec(e.speed, max_len);
    let f = damping_factor_spec(s, dt_ms);
    lemma_damping_factor_floor(s, dt_ms);
    if mag > max_len {
        assert(iabs(e.speed.x * max_len) <= mag * max_len) by (nonlinear_arith)
            requires
                iabs(e.speed.x as int) <= mag,
                max_len >= 0,
        ;
        assert(iabs(e.speed.y * max_len) <= mag * max_len) by (nonlinear_arith)
            requires
                iabs(e.speed.y as int) <= mag,
                max_len >= 0,
        ;
        crate::math::lemma_div_trunc_le(e.speed.x * max_len, mag, max_len);
        crate::math::lemma_div_trunc_le(e.speed.y * max_len, mag, max_len);
    }
    assert(iabs(lx) <= max_len && iabs(ly) <= max_len);
    assert(iabs(lx * f) <= 1000 * iabs(lx) && iabs(ly * f) <= 1000 * iabs(ly))
        by (nonlinear_arith)
        requires
            100 <= f <= 1000,
            iabs(lx) >= 0,
            iabs(ly) >= 0,
    ;
    crate::math::lemma_div_trunc_le(lx * f, 1000, iabs(lx));
    crate::math::lemma_div_trunc_le(ly * f, 1000, iabs(ly));
}

impl Default for GravityCompute {
    /// A linear law of strength zero.
    fn default() -> (r: GravityCompute)
        ensures
            r == GravityCompute::Linear(0i64),
    {
        GravityCompute::Linear(0)
    }
}

impl Default for GravitySettings {
    /// A linear law of strength zero.
    fn default() -> (r: GravitySettings)
        ensures
            r == (GravitySettings { compute: GravityCompute::Linear(0i64) }),
    {
        GravitySettings { compute: GravityCompute::Linear(0) }
    }
}

impl Default for Entity {
    /// At the origin, at rest.
    fn default() -> (r: Entity)
        ensures
            r == (Entity { position: Point2 { x: 0, y: 0 }, speed: Vel2 { x: 0, y: 0 } }),
    {
        Entity { position: Point2 { x: 0, y: 0 }, speed: Vel2 { x: 0, y: 0 } }
    }
}

impl Default for GravityEntity {
    /// A non-movable source at the origin with a zero-strength linear law.
    fn default() -> (r: GravityEntity)
        ensures
            r.inner == (Entity {
                position: Point2 { x: 0, y: 0 },
                speed: Vel2 { x: 0, y: 0 },
            }),
            r.gravity.compute == GravityCompute::Linear(0i64),
            !r.movable,
    {
        GravityEntity {
            inner: Entity { position: Point2 { x: 0, y: 0 }, speed: Vel2 { x: 0, y: 0 } },
            gravity: GravitySettings { compute: GravityCompute::Linear(0) },
            movable: false,
        }
    }
}

} // verus!
