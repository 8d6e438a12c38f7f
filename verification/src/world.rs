//! The simulation world: the tick-invariant settings snapshot, the particle
//! buffer, the gravity sources, and the tick itself.

use vstd::prelude::*;

use crate::PRECISION;
use crate::entity::{
    apply_gravity_spec, update_position_spec, Entity, GravityCompute, GravityEntity,
    GravitySettings, Point2, Vel2,
};
use crate::math::{clamp_spec, iabs};
use crate::partition::{
    chunk_ranges, chunk_size_spec, lemma_chunks_cover, lemma_partition_tiles, range_begin_spec,
    range_end_spec,
};
use crate::threadpool::{closures_of, ChunkJob, Threadpool};

verus! {

/// Largest accepted field extent along one axis, in position steps.
pub const MAX_EXTENT: i32 = 1_000_000_000;

/// Largest accepted elapsed time handed to one tick, in milliseconds.
pub const MAX_DT_MS: u32 = 100_000;

/// Largest accepted magnitude of a source strength.
pub const MAX_STRENGTH: i64 = 1_000_000;

/// Largest accepted gravity-power multiplier.
pub const MAX_POWER: u32 = 1_000_000;

/// Largest accepted damping rate, in thousandths per second.
pub const MAX_ENERGY_LOSS_MILLI: u32 = 1_000_000;

/// Largest accepted speed cap, in world units per second.
pub const MAX_SPEED_SETTING: u32 = 1_000_000;

/// Largest accepted time-scale factor, in thousandths.
pub const MAX_TIME_FACTOR_MILLI: u32 = 100_000;

/// The tick-invariant snapshot consumed by every worker in a tick.
/// Rates and factors are fixed-point thousandths (`1000` is `1.0`).
#[derive(Clone, Copy, PartialEq, Eq, Structural, Debug)]
pub struct Settings {
    /// Time-scale factor applied to the raw elapsed time, in thousandths.
    pub time_factor_milli: u32,
    /// The synthetic pointer-driven gravity source.
    pub mouse_gravity: GravityEntity,
    /// Whether the pointer-driven source joins the snapshot this tick.
    pub mouse_gravity_active: bool,
    /// Global gravity-power multiplier.
    pub gravity_power: u32,
    /// Damping rate, in thousandths of the velocity lost per second.
    pub energy_loss_milli: u32,
    /// Particle speed cap, in world units per second.
    pub max_speed: u32,
    /// Per-source acceleration cap, in world units per second.
    pub max_gravity_speed: u32,
    /// Boundary policy: `true` clamps and reflects at the walls, `false`
    /// wraps toroidally.
    pub block: bool,
}

/// A force-law strength the fixed-point arithmetic accepts.
pub open spec fn valid_strength(c: GravityCompute) -> bool {
    -MAX_STRENGTH <= c.force_spec() <= MAX_STRENGTH
}

/// A settings snapshot whose magnitudes the fixed-point arithmetic accepts.
pub open spec fn valid_settings(s: Settings) -> bool {
    &&& s.gravity_power <= MAX_POWER
    &&& s.energy_loss_milli <= MAX_ENERGY_LOSS_MILLI
    &&& s.max_speed <= MAX_SPEED_SETTING
    &&& s.max_gravity_speed <= MAX_SPEED_SETTING
    &&& s.time_factor_milli <= MAX_TIME_FACTOR_MILLI
    &&& valid_strength(s.mouse_gravity.gravity.compute)
}

/// A field extent the fixed-point arithmetic accepts: at least two position
/// steps on each axis (so a half extent exists), at most `MAX_EXTENT`.
pub open spec fn valid_field(field: (i32, i32)) -> bool {
    &&& 2 <= field.0 <= MAX_EXTENT
    &&& 2 <= field.1 <= MAX_EXTENT
}

/// Largest accepted worker count.
pub const MAX_WORKERS: usize = 0x1_0000;

/// Largest accepted particle count.
pub const MAX_PARTICLES: i32 = 0x4000_0000;

/// The index given to the pointer-driven source in a tick's snapshot, so
/// that no real source index collides with it.
pub const MOUSE_SOURCE_INDEX: usize = usize::MAX;

/// Every strength in a snapshot is within what the arithmetic accepts.
pub open spec fn cache_wf(cache: Seq<(usize, GravityEntity)>) -> bool {
    forall|k: int|
        0 <= k < cache.len() ==> valid_strength((#[trigger] cache[k]).1.gravity.compute)
}

/// An entity after every source of a tick's snapshot, oldest first, has
/// pulled on it.
pub open spec fn fold_gravity_spec(
    e: Entity,
    cache: Seq<(usize, GravityEntity)>,
    s: Settings,
    dt_ms: int,
    field: (i32, i32),
) -> Entity
    decreases cache.len(),
{
    if cache.len() == 0 {
        e
    } else {
        apply_gravity_spec(
            fold_gravity_spec(e, cache.drop_last(), s, dt_ms, field),
            cache.last().1,
            s,
            dt_ms,
            field,
        )
    }
}

/// One particle's whole tick: every snapshot source pulls on it, then its
/// position integrates under the boundary policy.
pub open spec fn step_entity_spec(
    e: Entity,
    cache: Seq<(usize, GravityEntity)>,
    s: Settings,
    dt_ms: int,
    field: (i32, i32),
) -> Entity {
    update_position_spec(fold_gravity_spec(e, cache, s, dt_ms, field), s, dt_ms, field)
}

/// The whole particle buffer after one tick: each particle stepped
/// independently against the same snapshot. No worker count appears here:
/// this is the reference any schedule must reproduce.
pub open spec fn tick_particles_spec(
    particles: Seq<Entity>,
    cache: Seq<(usize, GravityEntity)>,
    s: Settings,
    dt_ms: int,
    field: (i32, i32),
) -> Seq<Entity> {
    Seq::new(particles.len(), |i: int| step_entity_spec(particles[i], cache, s, dt_ms, field))
}

/// One chunk job's effect: the indices in `[begin, end)` stepped, every
/// other particle untouched.
pub open spec fn step_range_spec(
    particles: Seq<Entity>,
    begin: int,
    end: int,
    cache: Seq<(usize, GravityEntity)>,
    s: Settings,
    dt_ms: int,
    field: (i32, i32),
) -> Seq<Entity> {
    Seq::new(
        particles.len(),
        |i: int|
            if begin <= i < end {
                step_entity_spec(particles[i], cache, s, dt_ms, field)
            } else {
                particles[i]
            },
    )
}

/// An entity after every snapshot source but the one at index `skip` has
/// pulled on it: a movable gravity source never attracts itself.
pub open spec fn fold_gravity_except_spec(
    e: Entity,
    cache: Seq<(usize, GravityEntity)>,
    skip: usize,
    s: Settings,
    dt_ms: int,
    field: (i32, i32),
) -> Entity
    decreases cache.len(),
{
    if cache.len() == 0 {
        e
    } else {
        let prev = fold_gravity_except_spec(e, cache.drop_last(), skip, s, dt_ms, field);
        if cache.last().0 == skip {
            prev
        } else {
            apply_gravity_spec(prev, cache.last().1, s, dt_ms, field)
        }
    }
}

/// One gravity source's tick, run strictly after all particle jobs: a
/// movable source is pulled by every other snapshot source and integrates;
/// a non-movable source does not move at all.
pub open spec fn step_source_spec(
    i: int,
    g: GravityEntity,
    cache: Seq<(usize, GravityEntity)>,
    s: Settings,
    dt_ms: int,
    field: (i32, i32),
) -> GravityEntity {
    if g.movable {
        GravityEntity {
            inner: update_position_spec(
                fold_gravity_except_spec(g.inner, cache, i as usize, s, dt_ms, field),
                s,
                dt_ms,
                field,
            ),
            gravity: g.gravity,
            movable: g.movable,
        }
    } else {
        g
    }
}

/// All gravity sources after their single-threaded integration phase.
pub open spec fn tick_sources_spec(
    sources: Seq<GravityEntity>,
    cache: Seq<(usize, GravityEntity)>,
    s: Settings,
    dt_ms: int,
    field: (i32, i32),
) -> Seq<GravityEntity> {
    Seq::new(sources.len(), |i: int| step_source_spec(i, sources[i], cache, s, dt_ms, field))
}

/// The snapshot a tick consumes: every gravity source paired with its
/// index, and the pointer-driven source appended while it is active.
pub open spec fn snapshot_spec(sources: Seq<GravityEntity>, s: Settings) -> Seq<
    (usize, GravityEntity),
>
    recommends
        sources.len() < usize::MAX,
{
    let indexed = Seq::new(sources.len(), |i: int| (i as usize, sources[i]));
    if s.mouse_gravity_active {
        indexed.push((MOUSE_SOURCE_INDEX, s.mouse_gravity))
    } else {
        indexed
    }
}

/// The effective elapsed time of one tick: the raw elapsed time, capped at
/// twenty milliseconds, scaled by the time factor.
pub open spec fn effective_dt_spec(s: Settings, raw_ms: int) -> int {
    let capped = if raw_ms < 20 {
        raw_ms
    } else {
        20
    };
    capped * (s.time_factor_milli as int) / 1000
}

/// Step every particle of `entities` whose index lies in `[begin, end)`
/// against the snapshot: the body one worker runs for one chunk job. The
/// job writes only its own range, so jobs of one tick touch disjoint
/// particles.
pub fn step_range(
    entities: &mut Vec<Entity>,
    begin: usize,
    end: usize,
    cache: &Vec<(usize, GravityEntity)>,
    settings: &Settings,
    dt_ms: u32,
    field: (i32, i32),
)
    requires
        begin <= end <= old(entities)@.len(),
        valid_settings(*settings),
        valid_field(field),
        dt_ms <= MAX_DT_MS,
        cache_wf(cache@),
    ensures
        final (entities)@ == step_range_spec(
            old(entities)@,
            begin as int,
            end as int,
            cache@,
            *settings,
            dt_ms as int,
            field,
        ),
        final (entities)@.len() == old(entities)@.len(),
        forall|k: int|
            begin <= k < end ==> entity_in_field(#[trigger] final (entities)@[k], field),
{
    let mut i: usize = begin;
    while i < end
        invariant
            begin <= i <= end <= entities@.len(),
            entities@.len() == old(entities)@.len(),
            valid_settings(*settings),
            valid_field(field),
            dt_ms <= MAX_DT_MS,
            cache_wf(cache@),
            forall|k: int|
                begin <= k < i ==> entities@[k] == step_entity_spec(
                    old(entities)@[k],
                    cache@,
                    *settings,
                    dt_ms as int,
                    field,
                ),
            forall|k: int|
                begin <= k < i ==> entity_in_field(#[trigger] entities@[k], field),
            forall|k: int|
                (0 <= k < begin || i <= k < entities@.len()) ==> entities@[k] == old(entities)@[k],
        decreases end - i,
    {
        let mut e = entities[i];
        let ghost e0 = e;
        let mut j: usize = 0;
        while j < cache.len()
            invariant
                0 <= j <= cache@.len(),
                valid_settings(*settings),
                valid_field(field),
                dt_ms <= MAX_DT_MS,
                cache_wf(cache@),
                e == fold_gravity_spec(
                    e0,
                    cache@.subrange(0, j as int),
                    *settings,
                    dt_ms as int,
                    field,
                ),
            decreases cache@.len() - j,
        {
            proof {
                assert(cache@.subrange(0, j as int + 1).drop_last() =~= cache@.subrange(
                    0,
                    j as int,
                ));
                assert(cache@.subrange(0, j as int + 1).last() == cache@[j as int]);
            }
            e.apply_gravity(&cache[j].1, settings, dt_ms, field);
            j = j + 1;
        }
        proof {
            assert(cache@.subrange(0, cache@.len() as int) =~= cache@);
        }
        e.update_position(settings, dt_ms, field);
        entities.set(i, e);
        i = i + 1;
    }
    proof {
        assert(entities@ =~= step_range_spec(
            old(entities)@,
            begin as int,
            end as int,
            cache@,
            *settings,
            dt_ms as int,
            field,
        ));
    }
}

/// The buffer after the first `k` chunk jobs of a `w`-worker tick have run,
/// in submission order.
pub open spec fn run_chunks_spec(
    particles: Seq<Entity>,
    cache: Seq<(usize, GravityEntity)>,
    s: Settings,
    dt_ms: int,
    field: (i32, i32),
    w: int,
    k: int,
) -> Seq<Entity>
    decreases k,
{
    if k <= 0 {
        particles
    } else {
        let prev = run_chunks_spec(particles, cache, s, dt_ms, field, w, k - 1);
        step_range_spec(
            prev,
            range_begin_spec(particles.len() as int, w, k - 1),
            range_end_spec(particles.len() as int, w, k - 1),
            cache,
            s,
            dt_ms,
            field,
        )
    }
}

/// After the first `k` chunk jobs, exactly the prefix up to the `k`-th
/// range boundary has been stepped, and nothing else.
proof fn lemma_run_chunks_prefix(
    particles: Seq<Entity>,
    cache: Seq<(usize, GravityEntity)>,
    s: Settings,
    dt_ms: int,
    field: (i32, i32),
    w: int,
    k: int,
)
    requires
        w >= 1,
        0 <= k <= w,
    ensures
        run_chunks_spec(particles, cache, s, dt_ms, field, w, k) == step_range_spec(
            particles,
            0,
            range_begin_spec(particles.len() as int, w, k),
            cache,
            s,
            dt_ms,
            field,
        ),
    decreases k,
{
    let len = particles.len() as int;
    let c = chunk_size_spec(len, w);
    lemma_chunks_cover(len, w);
    if k == 0 {
        assert((0int) * c == 0) by (nonlinear_arith);
        assert(run_chunks_spec(particles, cache, s, dt_ms, field, w, 0) =~= step_range_spec(
            particles,
            0,
            range_begin_spec(len, w, 0),
            cache,
            s,
            dt_ms,
            field,
        ));
    } else {
        lemma_run_chunks_prefix(particles, cache, s, dt_ms, field, w, k - 1);
        let b_prev = range_begin_spec(len, w, k - 1);
        let b_new = range_begin_spec(len, w, k);
        assert((k - 1) * c <= k * c) by (nonlinear_arith)
            requires
                c >= 0,
        ;
        assert(0 <= b_prev <= b_new <= len);
        let prev = run_chunks_spec(particles, cache, s, dt_ms, field, w, k - 1);
        assert(run_chunks_spec(particles, cache, s, dt_ms, field, w, k) =~= step_range_spec(
            particles,
            0,
            b_new,
            cache,
            s,
            dt_ms,
            field,
        ));
    }
}

/// Determinism of the schedule: for every worker count, running the chunk
/// jobs yields exactly the one-pass reference, so two runs of one tick
/// under different worker counts produce identical particle buffers.
/// Partitioning changes which job updates a particle, never the result.
pub proof fn lemma_schedule_determinism(
    particles: Seq<Entity>,
    cache: Seq<(usize, GravityEntity)>,
    s: Settings,
    dt_ms: int,
    field: (i32, i32),
    w1: int,
    w2: int,
)
    requires
        w1 >= 1,
        w2 >= 1,
    ensures
        run_chunks_spec(particles, cache, s, dt_ms, field, w1, w1) == tick_particles_spec(
            particles,
            cache,
            s,
            dt_ms,
            field,
        ),
        run_chunks_spec(particles, cache, s, dt_ms, field, w1, w1) == run_chunks_spec(
            particles,
            cache,
            s,
            dt_ms,
            field,
            w2,
            w2,
        ),
{
    lemma_run_chunks_all(particles, cache, s, dt_ms, field, w1);
    lemma_run_chunks_all(particles, cache, s, dt_ms, field, w2);
}

/// Running all `w` chunk jobs steps the whole buffer.
proof fn lemma_run_chunks_all(
    particles: Seq<Entity>,
    cache: Seq<(usize, GravityEntity)>,
    s: Settings,
    dt_ms: int,
    field: (i32, i32),
    w: int,
)
    requires
        w >= 1,
    ensures
        run_chunks_spec(particles, cache, s, dt_ms, field, w, w) == tick_particles_spec(
            particles,
            cache,
            s,
            dt_ms,
            field,
        ),
{
    let len = particles.len() as int;
    lemma_run_chunks_prefix(particles, cache, s, dt_ms, field, w, w);
    lemma_chunks_cover(len, w);
    assert(range_begin_spec(len, w, w) == len);
    assert(step_range_spec(particles, 0, len, cache, s, dt_ms, field) =~= tick_particles_spec(
        particles,
        cache,
        s,
        dt_ms,
        field,
    ));
}

impl Default for Settings {
    /// The documented startup configuration.
    fn default() -> (r: Settings)
        ensures
            r.time_factor_milli == 1000,
            r.mouse_gravity.gravity.compute == GravityCompute::Linear(100i64),
            !r.mouse_gravity.movable,
            r.mouse_gravity.inner == (Entity {
                position: Point2 { x: 0, y: 0 },
                speed: Vel2 { x: 0, y: 0 },
            }),
            !r.mouse_gravity_active,
            r.gravity_power == 100,
            r.energy_loss_milli == 100,
            r.max_speed == 10_000,
            r.max_gravity_speed == 10_000,
            r.block,
            valid_settings(r),
    {
        Settings {
            time_factor_milli: 1000,
            mouse_gravity: GravityEntity {
                inner: Entity { position: Point2 { x: 0, y: 0 }, speed: Vel2 { x: 0, y: 0 } },
                gravity: GravitySettings { compute: GravityCompute::Linear(100) },
                movable: false,
            },
            mouse_gravity_active: false,
            gravity_power: 100,
            energy_loss_milli: 100,
            max_speed: 10_000,
            max_gravity_speed: 10_000,
            block: true,
        }
    }
}

/// The simulation: the field, the particle buffer, the gravity sources, the
/// settings, and the worker pool that splits each tick's work.
pub struct World {
    /// The field extent in position steps, both axes.
    pub size_field: (i32, i32),
    /// Diagnostic overlay toggle.
    pub debug: bool,
    /// The particle buffer. Exactly one chunk job mutates a given index per
    /// tick.
    pub entities: Vec<Entity>,
    /// The gravity sources, mutated only between ticks and in the
    /// single-threaded phase after the barrier.
    pub entities_gravity: Vec<GravityEntity>,
    /// The live settings; a tick reads them as a snapshot.
    pub settings: Settings,
    /// The particle count the buffer is kept at.
    pub num_particles: i32,
    /// The worker pool.
    pub threadpool: Threadpool,
}

/// An entity that lies inside the field.
pub open spec fn entity_in_field(e: Entity, field: (i32, i32)) -> bool {
    &&& 0 <= e.position.x <= field.0
    &&& 0 <= e.position.y <= field.1
}

impl World {
    /// The well-formedness every method keeps: bounded field and settings,
    /// every entity inside the field, every strength within range, a
    /// bounded pool with nothing left queued between ticks.
    pub open spec fn wf(self) -> bool {
        &&& valid_field(self.size_field)
        &&& valid_settings(self.settings)
        &&& 0 <= self.num_particles <= MAX_PARTICLES
        &&& self.entities@.len() <= MAX_PARTICLES
        &&& forall|i: int|
            0 <= i < self.entities@.len() ==> entity_in_field(
                #[trigger] self.entities@[i],
                self.size_field,
            )
        &&& self.entities_gravity@.len() < MAX_WORKERS
        &&& forall|i: int|
            0 <= i < self.entities_gravity@.len() ==> entity_in_field(
                (#[trigger] self.entities_gravity@[i]).inner,
                self.size_field,
            ) && valid_strength(self.entities_gravity@[i].gravity.compute)
        &&& self.threadpool.threads <= MAX_WORKERS
        &&& self.threadpool.queue@.len() == 0
    }

    /// A world over the given field, in window units, with the default
    /// settings, an empty buffer at the given target count, and `workers`
    /// pool workers.
    pub fn new(window_size: (i32, i32), num_particles: i32, workers: usize) -> (r: World)
        requires
            1 <= window_size.0 <= 1_000_000,
            1 <= window_size.1 <= 1_000_000,
            0 <= num_particles <= MAX_PARTICLES,
            workers <= MAX_WORKERS,
        ensures
            r.wf(),
            r.size_field.0 == window_size.0 * PRECISION && r.size_field.1 == window_size.1 * PRECISION,
            r.entities@.len() == 0,
            r.entities_gravity@.len() == 0,
            r.num_particles == num_particles,
            r.threadpool.threads == workers,
    {
        World {
            size_field: (window_size.0 * 1000, window_size.1 * 1000),
            debug: false,
            entities: Vec::new(),
            entities_gravity: Vec::new(),
            settings: Settings::default(),
            num_particles,
            threadpool: Threadpool::new_with_threads(workers),
        }
    }

    /// Toggle the diagnostic overlay.
    pub fn change_debug(&mut self)
        ensures
            final (self).debug == !old(self).debug,
            *final (self) == (World { debug: !old(self).debug, ..*old(self) }),
    {
        self.debug = !self.debug;
    }

    /// How many entities the world holds, particles and sources together.
    pub fn num_entities(&self) -> (r: usize)
        requires
            self.wf(),
        ensures
            r == self.entities@.len() + self.entities_gravity@.len(),
    {
        self.entities.len() + self.entities_gravity.len()
    }

    /// Add one worker to the pool.
    pub fn add_worker(&mut self)
        requires
            old(self).wf(),
            old(self).threadpool.threads < MAX_WORKERS,
        ensures
            final (self).wf(),
            final (self).threadpool.threads == old(self).threadpool.threads + 1,
            final (self).entities == old(self).entities,
            final (self).entities_gravity == old(self).entities_gravity,
            final (self).settings == old(self).settings,
            final (self).debug == old(self).debug,
    {
        self.threadpool.new_thread();
    }

    /// Remove one worker from the pool, reporting whether one was running.
    /// The world removes workers only between ticks, when nothing is
    /// queued, so the only possible refusal is an empty pool.
    pub fn remove_worker(&mut self) -> (removed: bool)
        requires
            old(self).wf(),
        ensures
            final (self).wf(),
            removed <==> old(self).threadpool.threads > 0,
            removed ==> final (self).threadpool.threads == old(self).threadpool.threads - 1,
            !removed ==> *final (self) == *old(self),
            final (self).entities == old(self).entities,
            final (self).debug == old(self).debug,
    {
        match self.threadpool.delete_thread() {
            Result::Ok(()) => true,
            Result::Err(_) => false,
        }
    }

    /// Grow or shrink the buffer to the target count: new particles appear
    /// at uniform-random positions, shrinking truncates from the tail and
    /// keeps the survivors untouched.
    pub fn apply_particles_number(&mut self)
        requires
            old(self).wf(),
        ensures
            final (self).wf(),
            final (self).entities@.len() == old(self).num_particles,
            forall|i: int|
                0 <= i < old(self).entities@.len() && i < final (self).entities@.len()
                    ==> #[trigger] final (self).entities@[i] == old(self).entities@[i],
            forall|i: int|
                old(self).entities@.len() <= i < final (self).entities@.len() ==> {
                    let e = #[trigger] final (self).entities@[i];
                    &&& e.speed == (Vel2 { x: 0i64, y: 0i64 })
                    &&& 0 <= e.position.x < old(self).size_field.0
                    &&& 0 <= e.position.y < old(self).size_field.1
                },
            final (self).entities_gravity == old(self).entities_gravity,
            final (self).settings == old(self).settings,
            final (self).size_field == old(self).size_field,
            final (self).num_particles == old(self).num_particles,
            final (self).threadpool == old(self).threadpool,
            final (self).debug == old(self).debug,
    {
        let target = self.num_particles as usize;
        while self.entities.len() > target
            invariant
                self.wf(),
                target == self.num_particles as usize,
                forall|i: int|
                    0 <= i < self.entities@.len() ==> self.entities@[i] == old(self).entities@[i],
                self.entities@.len() <= old(self).entities@.len(),
                self.entities@.len() >= target || self.entities@.len() == old(
                    self,
                ).entities@.len(),
                self.entities_gravity == old(self).entities_gravity,
                self.settings == old(self).settings,
                self.size_field == old(self).size_field,
                self.num_particles == old(self).num_particles,
                self.threadpool == old(self).threadpool,
                self.debug == old(self).debug,
            decreases self.entities@.len(),
        {
            let _ = self.entities.pop();
        }
        while self.entities.len() < target
            invariant
                self.wf(),
                target == self.num_particles as usize,
                self.entities@.len() <= target,
                self.entities@.len() >= old(self).entities@.len() || self.entities@.len()
                    >= target,
                forall|i: int|
                    0 <= i < old(self).entities@.len() && i < self.entities@.len() ==> self.entities@[i]
                        == old(self).entities@[i],
                forall|i: int|
                    old(self).entities@.len() <= i < self.entities@.len() ==> {
                        let e = #[trigger] self.entities@[i];
                        &&& e.speed == (Vel2 { x: 0i64, y: 0i64 })
                        &&& 0 <= e.position.x < old(self).size_field.0
                        &&& 0 <= e.position.y < old(self).size_field.1
                    },
                self.entities_gravity == old(self).entities_gravity,
                self.settings == old(self).settings,
                self.size_field == old(self).size_field,
                self.num_particles == old(self).num_particles,
                self.threadpool == old(self).threadpool,
                self.debug == old(self).debug,
            decreases target - self.entities@.len(),
        {
            let e = Entity::new_random(self.size_field);
            self.entities.push(e);
        }
    }

    /// Set the target particle count and bring the buffer to it at once.
    pub fn set_target_count(&mut self, n: i32)
        requires
            old(self).wf(),
            0 <= n <= MAX_PARTICLES,
        ensures
            final (self).wf(),
            final (self).num_particles == n,
            final (self).entities@.len() == n,
            forall|i: int|
                0 <= i < old(self).entities@.len() && i < final (self).entities@.len()
                    ==> #[trigger] final (self).entities@[i] == old(self).entities@[i],
            forall|i: int|
                old(self).entities@.len() <= i < final (self).entities@.len() ==> {
                    let e = #[trigger] final (self).entities@[i];
                    &&& e.speed == (Vel2 { x: 0i64, y: 0i64 })
                    &&& 0 <= e.position.x < old(self).size_field.0
                    &&& 0 <= e.position.y < old(self).size_field.1
                },
            final (self).entities_gravity == old(self).entities_gravity,
            final (self).settings == old(self).settings,
            final (self).size_field == old(self).size_field,
            final (self).threadpool == old(self).threadpool,
            final (self).debug == old(self).debug,
    {
        self.num_particles = n;
        self.apply_particles_number();
    }

    /// Reseed the buffer with uniform-random particles at the target count
    /// and clear the gravity sources.
    pub fn reset(&mut self)
        requires
            old(self).wf(),
        ensures
            final (self).wf(),
            final (self).entities@.len() == old(self).num_particles,
            final (self).entities_gravity@.len() == 0,
            forall|i: int|
                0 <= i < final (self).entities@.len() ==> {
                    let e = #[trigger] final (self).entities@[i];
                    &&& e.speed == (Vel2 { x: 0i64, y: 0i64 })
                    &&& 0 <= e.position.x < old(self).size_field.0
                    &&& 0 <= e.position.y < old(self).size_field.1
                },
            final (self).settings == old(self).settings,
            final (self).size_field == old(self).size_field,
            final (self).num_particles == old(self).num_particles,
            final (self).threadpool == old(self).threadpool,
            final (self).debug == old(self).debug,
    {
        self.entities.clear();
        self.entities_gravity.clear();
        let target = self.num_particles as usize;
        while self.entities.len() < target
            invariant
                self.wf(),
                target == self.num_particles as usize,
                self.entities@.len() <= target,
                self.entities_gravity@.len() == 0,
                forall|i: int|
                    0 <= i < self.entities@.len() ==> {
                        let e = #[trigger] self.entities@[i];
                        &&& e.speed == (Vel2 { x: 0i64, y: 0i64 })
                        &&& 0 <= e.position.x < old(self).size_field.0
                        &&& 0 <= e.position.y < old(self).size_field.1
                    },
                self.settings == old(self).settings,
                self.size_field == old(self).size_field,
                self.num_particles == old(self).num_particles,
                self.threadpool == old(self).threadpool,
                self.debug == old(self).debug,
            decreases target - self.entities@.len(),
        {
            let e = Entity::new_random(self.size_field);
            self.entities.push(e);
        }
    }

    /// Rescale every position proportionally onto a new field extent, given
    /// in window units.
    pub fn resize(&mut self, new_size: (i32, i32))
        requires
            old(self).wf(),
            1 <= new_size.0 <= 1_000_000,
            1 <= new_size.1 <= 1_000_000,
        ensures
            final (self).wf(),
            final (self).size_field.0 == new_size.0 * PRECISION && final (self).size_field.1 == new_size.1 * PRECISION,
            final (self).entities@.len() == old(self).entities@.len(),
            forall|i: int|
                0 <= i < old(self).entities@.len() ==> {
                    let e = old(self).entities@[i];
                    (#[trigger] final (self).entities@[i]) == (Entity {
                        position: Point2 {
                            x: crate::entity::rescale_spec(
                                e.position.x as int,
                                old(self).size_field.0 as int,
                                new_size.0 * PRECISION,
                            ) as i32,
                            y: crate::entity::rescale_spec(
                                e.position.y as int,
                                old(self).size_field.1 as int,
                                new_size.1 * PRECISION,
                            ) as i32,
                        },
                        speed: e.speed,
                    })
                },
            final (self).entities_gravity@.len() == old(self).entities_gravity@.len(),
            forall|i: int|
                0 <= i < old(self).entities_gravity@.len() ==> {
                    let g = old(self).entities_gravity@[i];
                    (#[trigger] final (self).entities_gravity@[i]) == (GravityEntity {
                        inner: Entity {
                            position: Point2 {
                                x: crate::entity::rescale_spec(
                                    g.inner.position.x as int,
                                    old(self).size_field.0 as int,
                                    new_size.0 * PRECISION,
                                ) as i32,
                                y: crate::entity::rescale_spec(
                                    g.inner.position.y as int,
                                    old(self).size_field.1 as int,
                                    new_size.1 * PRECISION,
                                ) as i32,
                            },
                            speed: g.inner.speed,
                        },
                        gravity: g.gravity,
                        movable: g.movable,
                    })
                },
            final (self).settings == old(self).settings,
            final (self).num_particles == old(self).num_particles,
            final (self).threadpool == old(self).threadpool,
            final (self).debug == old(self).debug,
    {
        let old_field = self.size_field;
        let new_field = (new_size.0 * 1000, new_size.1 * 1000);
        proof {
            assert(new_field.0 == new_size.0 * PRECISION && new_field.1 == new_size.1 * PRECISION);
        }
        self.size_field = new_field;
        let mut i: usize = 0;
        while i < self.entities.len()
            invariant
                0 <= i <= self.entities@.len(),
                valid_field(old_field),
                valid_field(self.size_field),
                self.size_field == new_field,
                new_field.0 == new_size.0 * PRECISION && new_field.1 == new_size.1 * PRECISION,
                self.entities@.len() == old(self).entities@.len(),
                self.entities@.len() <= MAX_PARTICLES,
                forall|k: int|
                    i <= k < self.entities@.len() ==> #[trigger] self.entities@[k] == old(
                        self,
                    ).entities@[k] && entity_in_field(self.entities@[k], old_field),
                forall|k: int|
                    0 <= k < i ==> {
                        let e = old(self).entities@[k];
                        (#[trigger] self.entities@[k]) == (Entity {
                            position: Point2 {
                                x: crate::entity::rescale_spec(
                                    e.position.x as int,
                                    old_field.0 as int,
                                    new_field.0 as int,
                                ) as i32,
                                y: crate::entity::rescale_spec(
                                    e.position.y as int,
                                    old_field.1 as int,
                                    new_field.1 as int,
                                ) as i32,
                            },
                            speed: e.speed,
                        }) && entity_in_field(self.entities@[k], new_field)
                    },
                self.entities_gravity == old(self).entities_gravity,
                self.settings == old(self).settings,
                self.num_particles == old(self).num_particles,
                self.threadpool == old(self).threadpool,
                self.debug == old(self).debug,
            decreases self.entities@.len() - i,
        {
            let mut e = self.entities[i];
            e.update_position_new_size(old_field, new_field);
            self.entities.set(i, e);
            i = i + 1;
        }
        let mut j: usize = 0;
        while j < self.entities_gravity.len()
            invariant
                0 <= j <= self.entities_gravity@.len(),
                valid_field(old_field),
                valid_field(self.size_field),
                self.size_field == new_field,
                self.entities_gravity@.len() == old(self).entities_gravity@.len(),
                self.entities_gravity@.len() < MAX_WORKERS,
                forall|k: int|
                    j <= k < self.entities_gravity@.len() ==> #[trigger] self.entities_gravity@[k]
                        == old(self).entities_gravity@[k] && entity_in_field(
                        self.entities_gravity@[k].inner,
                        old_field,
                    ) && valid_strength(self.entities_gravity@[k].gravity.compute),
                forall|k: int|
                    0 <= k < j ==> {
                        let g = old(self).entities_gravity@[k];
                        (#[trigger] self.entities_gravity@[k]) == (GravityEntity {
                            inner: Entity {
                                position: Point2 {
                                    x: crate::entity::rescale_spec(
                                        g.inner.position.x as int,
                                        old_field.0 as int,
                                        new_field.0 as int,
                                    ) as i32,
                                    y: crate::entity::rescale_spec(
                                        g.inner.position.y as int,
                                        old_field.1 as int,
                                        new_field.1 as int,
                                    ) as i32,
                                },
                                speed: g.inner.speed,
                            },
                            gravity: g.gravity,
                            movable: g.movable,
                        }) && entity_in_field(self.entities_gravity@[k].inner, new_field)
                            && valid_strength(self.entities_gravity@[k].gravity.compute)
                    },
                self.entities@.len() == old(self).entities@.len(),
                self.entities@.len() <= MAX_PARTICLES,
                forall|k: int|
                    0 <= k < old(self).entities@.len() ==> {
                        let e = old(self).entities@[k];
                        (#[trigger] self.entities@[k]) == (Entity {
                            position: Point2 {
                                x: crate::entity::rescale_spec(
                                    e.position.x as int,
                                    old_field.0 as int,
                                    new_field.0 as int,
                                ) as i32,
                                y: crate::entity::rescale_spec(
                                    e.position.y as int,
                                    old_field.1 as int,
                                    new_field.1 as int,
                                ) as i32,
                            },
                            speed: e.speed,
                        }) && entity_in_field(self.entities@[k], new_field)
                    },
                new_field.0 == new_size.0 * PRECISION && new_field.1 == new_size.1 * PRECISION,
                self.settings == old(self).settings,
                self.num_particles == old(self).num_particles,
                self.threadpool == old(self).threadpool,
                self.debug == old(self).debug,
            decreases self.entities_gravity@.len() - j,
        {
            let mut g = self.entities_gravity[j];
            g.inner.update_position_new_size(old_field, new_field);
            self.entities_gravity.set(j, g);
            j = j + 1;
        }
    }

    /// Nudge every entity by a uniform-random offset under one world unit
    /// on each axis, clamped into the field; velocities are untouched.
    pub fn tilt(&mut self)
        requires
            old(self).wf(),
        ensures
            final (self).wf(),
            final (self).entities@.len() == old(self).entities@.len(),
            forall|i: int|
                0 <= i < old(self).entities@.len() ==> iabs(
                    (#[trigger] final (self).entities@[i]).position.x - old(
                        self,
                    ).entities@[i].position.x,
                ) < PRECISION && iabs(
                    final (self).entities@[i].position.y - old(self).entities@[i].position.y,
                ) < PRECISION && final (self).entities@[i].speed == old(self).entities@[i].speed,
            final (self).entities_gravity@.len() == old(self).entities_gravity@.len(),
            forall|i: int|
                0 <= i < old(self).entities_gravity@.len() ==> {
                    let g0 = old(self).entities_gravity@[i];
                    let g1 = #[trigger] final (self).entities_gravity@[i];
                    &&& iabs(g1.inner.position.x - g0.inner.position.x) < PRECISION
                    &&& iabs(g1.inner.position.y - g0.inner.position.y) < PRECISION
                    &&& g1.inner.speed == g0.inner.speed
                    &&& g1.gravity == g0.gravity
                    &&& g1.movable == g0.movable
                },
            final (self).settings == old(self).settings,
            final (self).size_field == old(self).size_field,
            final (self).num_particles == old(self).num_particles,
            final (self).threadpool == old(self).threadpool,
            final (self).debug == old(self).debug,
    {
        let field = self.size_field;
        let mut i: usize = 0;
        while i < self.entities.len()
            invariant
                0 <= i <= self.entities@.len(),
                valid_field(field),
                field == self.size_field,
                self.entities@.len() == old(self).entities@.len(),
                self.entities@.len() <= MAX_PARTICLES,
                forall|k: int|
                    i <= k < self.entities@.len() ==> #[trigger] self.entities@[k] == old(
                        self,
                    ).entities@[k] && entity_in_field(self.entities@[k], field),
                forall|k: int|
                    0 <= k < i ==> entity_in_field(#[trigger] self.entities@[k], field) && iabs(
                        self.entities@[k].position.x - old(self).entities@[k].position.x,
                    ) < PRECISION && iabs(
                        self.entities@[k].position.y - old(self).entities@[k].position.y,
                    ) < PRECISION && self.entities@[k].speed == old(self).entities@[k].speed,
                self.entities_gravity == old(self).entities_gravity,
                self.settings == old(self).settings,
                self.size_field == old(self).size_field,
                self.num_particles == old(self).num_particles,
                self.threadpool == old(self).threadpool,
                self.debug == old(self).debug,
            decreases self.entities@.len() - i,
        {
            let mut e = self.entities[i];
            let dx = crate::random::random_i32(-(1000 - 1), 1000);
            let dy = crate::random::random_i32(-(1000 - 1), 1000);
            let nx = crate::math::clamp_i64((e.position.x as i64) + (dx as i64), 0, field.0 as i64);
            let ny = crate::math::clamp_i64((e.position.y as i64) + (dy as i64), 0, field.1 as i64);
            e.position = Point2 { x: nx as i32, y: ny as i32 };
            self.entities.set(i, e);
            i = i + 1;
        }
        let mut j: usize = 0;
        while j < self.entities_gravity.len()
            invariant
                0 <= j <= self.entities_gravity@.len(),
                valid_field(field),
                field == self.size_field,
                self.entities@.len() == old(self).entities@.len(),
                forall|k: int|
                    0 <= k < self.entities@.len() ==> entity_in_field(
                        #[trigger] self.entities@[k],
                        field,
                    ) && iabs(self.entities@[k].position.x - old(self).entities@[k].position.x)
                        < PRECISION && iabs(
                        self.entities@[k].position.y - old(self).entities@[k].position.y,
                    ) < PRECISION && self.entities@[k].speed == old(self).entities@[k].speed,
                self.entities_gravity@.len() == old(self).entities_gravity@.len(),
                self.entities_gravity@.len() < MAX_WORKERS,
                forall|k: int|
                    j <= k < self.entities_gravity@.len() ==> #[trigger] self.entities_gravity@[k]
                        == old(self).entities_gravity@[k] && entity_in_field(
                        self.entities_gravity@[k].inner,
                        field,
                    ) && valid_strength(self.entities_gravity@[k].gravity.compute),
                forall|k: int|
                    0 <= k < j ==> {
                        let g0 = old(self).entities_gravity@[k];
                        let g1 = #[trigger] self.entities_gravity@[k];
                        &&& entity_in_field(g1.inner, field)
                        &&& valid_strength(g1.gravity.compute)
                        &&& iabs(g1.inner.position.x - g0.inner.position.x) < PRECISION
                        &&& iabs(g1.inner.position.y - g0.inner.position.y) < PRECISION
                        &&& g1.inner.speed == g0.inner.speed
                        &&& g1.gravity == g0.gravity
                        &&& g1.movable == g0.movable
                    },
                self.settings == old(self).settings,
                self.size_field == old(self).size_field,
                self.num_particles == old(self).num_particles,
                self.threadpool == old(self).threadpool,
                self.debug == old(self).debug,
            decreases self.entities_gravity@.len() - j,
        {
            let mut g = self.entities_gravity[j];
            let dx = crate::random::random_i32(-(1000 - 1), 1000);
            let dy = crate::random::random_i32(-(1000 - 1), 1000);
            let nx = crate::math::clamp_i64(
                (g.inner.position.x as i64) + (dx as i64),
                0,
                field.0 as i64,
            );
            let ny = crate::math::clamp_i64(
                (g.inner.position.y as i64) + (dy as i64),
                0,
                field.1 as i64,
            );
            g.inner.position = Point2 { x: nx as i32, y: ny as i32 };
            self.entities_gravity.set(j, g);
            j = j + 1;
        }
    }

    /// Bring every entity to rest; positions are untouched.
    pub fn stop_speed(&mut self)
        requires
            old(self).wf(),
        ensures
            final (self).wf(),
            final (self).entities@.len() == old(self).entities@.len(),
            forall|i: int|
                0 <= i < old(self).entities@.len() ==> (#[trigger] final (self).entities@[i])
                    == (Entity {
                    position: old(self).entities@[i].position,
                    speed: Vel2 { x: 0i64, y: 0i64 },
                }),
            final (self).entities_gravity@.len() == old(self).entities_gravity@.len(),
            forall|i: int|
                0 <= i < old(self).entities_gravity@.len() ==> (#[trigger] final (self).entities_gravity@[i]) == (GravityEntity {
                    inner: Entity {
                        position: old(self).entities_gravity@[i].inner.position,
                        speed: Vel2 { x: 0i64, y: 0i64 },
                    },
                    gravity: old(self).entities_gravity@[i].gravity,
                    movable: old(self).entities_gravity@[i].movable,
                }),
            final (self).settings == old(self).settings,
            final (self).size_field == old(self).size_field,
            final (self).num_particles == old(self).num_particles,
            final (self).threadpool == old(self).threadpool,
            final (self).debug == old(self).debug,
    {
        let mut i: usize = 0;
        while i < self.entities.len()
            invariant
                0 <= i <= self.entities@.len(),
                self.entities@.len() == old(self).entities@.len(),
                self.entities@.len() <= MAX_PARTICLES,
                valid_field(self.size_field),
                self.size_field == old(self).size_field,
                forall|k: int|
                    i <= k < self.entities@.len() ==> #[trigger] self.entities@[k] == old(
                        self,
                    ).entities@[k] && entity_in_field(self.entities@[k], self.size_field),
                forall|k: int|
                    0 <= k < i ==> (#[trigger] self.entities@[k]) == (Entity {
                        position: old(self).entities@[k].position,
                        speed: Vel2 { x: 0i64, y: 0i64 },
                    }) && entity_in_field(self.entities@[k], self.size_field),
                self.entities_gravity == old(self).entities_gravity,
                self.settings == old(self).settings,
                self.num_particles == old(self).num_particles,
                self.threadpool == old(self).threadpool,
                self.debug == old(self).debug,
            decreases self.entities@.len() - i,
        {
            let mut e = self.entities[i];
            e.speed = Vel2 { x: 0, y: 0 };
            self.entities.set(i, e);
            i = i + 1;
        }
        let mut j: usize = 0;
        while j < self.entities_gravity.len()
            invariant
                0 <= j <= self.entities_gravity@.len(),
                self.entities@.len() == old(self).entities@.len(),
                valid_field(self.size_field),
                self.size_field == old(self).size_field,
                forall|k: int|
                    0 <= k < self.entities@.len() ==> (#[trigger] self.entities@[k]) == (Entity {
                        position: old(self).entities@[k].position,
                        speed: Vel2 { x: 0i64, y: 0i64 },
                    }) && entity_in_field(self.entities@[k], self.size_field),
                self.entities@.len() <= MAX_PARTICLES,
                self.entities_gravity@.len() == old(self).entities_gravity@.len(),
                self.entities_gravity@.len() < MAX_WORKERS,
                forall|k: int|
                    j <= k < self.entities_gravity@.len() ==> #[trigger] self.entities_gravity@[k]
                        == old(self).entities_gravity@[k] && entity_in_field(
                        self.entities_gravity@[k].inner,
                        self.size_field,
                    ) && valid_strength(self.entities_gravity@[k].gravity.compute),
                forall|k: int|
                    0 <= k < j ==> (#[trigger] self.entities_gravity@[k]) == (GravityEntity {
                        inner: Entity {
                            position: old(self).entities_gravity@[k].inner.position,
                            speed: Vel2 { x: 0i64, y: 0i64 },
                        },
                        gravity: old(self).entities_gravity@[k].gravity,
                        movable: old(self).entities_gravity@[k].movable,
                    }) && entity_in_field(self.entities_gravity@[k].inner, self.size_field)
                        && valid_strength(self.entities_gravity@[k].gravity.compute),
                self.settings == old(self).settings,
                self.num_particles == old(self).num_particles,
                self.threadpool == old(self).threadpool,
                self.debug == old(self).debug,
            decreases self.entities_gravity@.len() - j,
        {
            let mut g = self.entities_gravity[j];
            g.inner.speed = Vel2 { x: 0, y: 0 };
            self.entities_gravity.set(j, g);
            j = j + 1;
        }
    }

    /// Move the pointer-driven gravity source to a world-space position,
    /// clamped into the field, at rest.
    pub fn update_mouse_gravity_info(&mut self, world_x: i64, world_y: i64)
        requires
            old(self).wf(),
        ensures
            final (self).wf(),
            final (self).settings.mouse_gravity.inner.position.x == clamp_spec(
                world_x as int,
                0,
                old(self).size_field.0 as int,
            ),
            final (self).settings.mouse_gravity.inner.position.y == clamp_spec(
                world_y as int,
                0,
                old(self).size_field.1 as int,
            ),
            final (self).settings.mouse_gravity.inner.speed == (Vel2 { x: 0i64, y: 0i64 }),
            final (self).settings.mouse_gravity.gravity == old(self).settings.mouse_gravity.gravity,
            final (self).settings.mouse_gravity.movable == old(self).settings.mouse_gravity.movable,
            final (self).settings == (Settings {
                mouse_gravity: final (self).settings.mouse_gravity,
                ..old(self).settings
            }),
            final (self).entities == old(self).entities,
            final (self).entities_gravity == old(self).entities_gravity,
            final (self).size_field == old(self).size_field,
            final (self).num_particles == old(self).num_particles,
            final (self).threadpool == old(self).threadpool,
            final (self).debug == old(self).debug,
    {
        let x = crate::math::clamp_i64(world_x, 0, self.size_field.0 as i64);
        let y = crate::math::clamp_i64(world_y, 0, self.size_field.1 as i64);
        self.settings.mouse_gravity.inner = Entity {
            position: Point2 { x: x as i32, y: y as i32 },
            speed: Vel2 { x: 0, y: 0 },
        };
    }

    /// Add a movable gravity source at a uniform-random position, with a
    /// linear law of strength ten, at rest.
    pub fn add_gravity_entity(&mut self)
        requires
            old(self).wf(),
            old(self).entities_gravity@.len() + 1 < MAX_WORKERS,
        ensures
            final (self).wf(),
            final (self).entities_gravity@.len() == old(self).entities_gravity@.len() + 1,
            forall|i: int|
                0 <= i < old(self).entities_gravity@.len() ==> #[trigger] final (self).entities_gravity@[i] == old(self).entities_gravity@[i],
            final (self).entities_gravity@.last().gravity.compute == GravityCompute::Linear(10i64),
            final (self).entities_gravity@.last().movable,
            final (self).entities_gravity@.last().inner.speed == (Vel2 { x: 0i64, y: 0i64 }),
            final (self).entities == old(self).entities,
            final (self).settings == old(self).settings,
            final (self).size_field == old(self).size_field,
            final (self).num_particles == old(self).num_particles,
            final (self).threadpool == old(self).threadpool,
            final (self).debug == old(self).debug,
    {
        let inner = Entity::new_random(self.size_field);
        let g = GravityEntity {
            inner,
            gravity: GravitySettings { compute: GravityCompute::Linear(10) },
            movable: true,
        };
        self.entities_gravity.push(g);
    }

    /// Delete the gravity source at `index`; the others keep their order.
    /// Deletions happen only between ticks, never while a snapshot is in
    /// flight.
    pub fn remove_gravity_entity(&mut self, index: usize)
        requires
            old(self).wf(),
            index < old(self).entities_gravity@.len(),
        ensures
            final (self).wf(),
            final (self).entities_gravity@ == old(self).entities_gravity@.remove(index as int),
            final (self).entities == old(self).entities,
            final (self).settings == old(self).settings,
            final (self).size_field == old(self).size_field,
            final (self).num_particles == old(self).num_particles,
            final (self).threadpool == old(self).threadpool,
            final (self).debug == old(self).debug,
    {
        let _ = self.entities_gravity.remove(index);
    }

    /// Advance every particle one tick, split across the pool: one chunk
    /// job per active worker goes into the queue, and the barrier hands
    /// every job back to run exactly once. The result is the one-pass
    /// reference, whatever the worker count; with no workers the scheduler
    /// runs the single whole-buffer job itself.
    pub fn update_cpu_multithread(&mut self, cache: &Vec<(usize, GravityEntity)>, dt_ms: u32)
        requires
            old(self).wf(),
            cache_wf(cache@),
            dt_ms <= MAX_DT_MS,
        ensures
            final (self).wf(),
            final (self).entities@ == tick_particles_spec(
                old(self).entities@,
                cache@,
                old(self).settings,
                dt_ms as int,
                old(self).size_field,
            ),
            final (self).entities_gravity == old(self).entities_gravity,
            final (self).settings == old(self).settings,
            final (self).size_field == old(self).size_field,
            final (self).num_particles == old(self).num_particles,
            final (self).threadpool.threads == old(self).threadpool.threads,
            final (self).threadpool.queue@ == old(self).threadpool.queue@,
            final (self).debug == old(self).debug,
    {
        let len = self.entities.len();
        let nthreads = self.threadpool.num_threads();
        let w: usize = if nthreads == 0 {
            1
        } else {
            nthreads
        };
        let ranges = chunk_ranges(len, w);
        proof {
            lemma_partition_tiles(len as int, w as int);
            lemma_chunks_cover(len as int, w as int);
        }
        let mut k: usize = 0;
        while k < w
            invariant
                0 <= k <= w,
                1 <= w <= MAX_WORKERS,
                ranges@.len() == w,
                forall|j: int|
                    0 <= j < w ==> (#[trigger] ranges@[j]).0 == range_begin_spec(
                        len as int,
                        w as int,
                        j,
                    ) && ranges@[j].1 == range_end_spec(len as int, w as int, j),
                self.threadpool.threads == old(self).threadpool.threads,
                self.threadpool.queue@.len() == k,
                closures_of(self.threadpool.queue@) == Seq::new(
                    k as nat,
                    |j: int| ChunkJob { begin: ranges@[j].0, end: ranges@[j].1 },
                ),
                self.entities == old(self).entities,
                self.entities_gravity == old(self).entities_gravity,
                self.settings == old(self).settings,
                self.size_field == old(self).size_field,
                self.num_particles == old(self).num_particles,
                self.debug == old(self).debug,
            decreases w - k,
        {
            let r = ranges[k];
            self.threadpool.send_work(ChunkJob { begin: r.0, end: r.1 });
            proof {
                assert(closures_of(self.threadpool.queue@) =~= Seq::new(
                    (k + 1) as nat,
                    |j: int| ChunkJob { begin: ranges@[j].0, end: ranges@[j].1 },
                ));
            }
            k = k + 1;
        }
        let jobs = self.threadpool.wait();
        let s = self.settings;
        let field = self.size_field;
        let ghost orig = self.entities@;
        let mut k2: usize = 0;
        while k2 < jobs.len()
            invariant
                0 <= k2 <= w,
                1 <= w <= MAX_WORKERS,
                jobs@.len() == w,
                forall|j: int|
                    0 <= j < w ==> #[trigger] jobs@[j] == (ChunkJob {
                        begin: range_begin_spec(len as int, w as int, j) as usize,
                        end: range_end_spec(len as int, w as int, j) as usize,
                    }),
                forall|j: int|
                    0 <= j < w ==> #[trigger] range_begin_spec(len as int, w as int, j)
                        <= range_end_spec(len as int, w as int, j) <= len,
                valid_settings(s),
                valid_field(field),
                dt_ms <= MAX_DT_MS,
                cache_wf(cache@),
                s == old(self).settings,
                field == old(self).size_field,
                orig == old(self).entities@,
                len == orig.len(),
                len <= MAX_PARTICLES,
                self.entities@.len() == len,
                forall|i: int|
                    0 <= i < range_begin_spec(len as int, w as int, k2 as int)
                        ==> #[trigger] self.entities@[i] == step_entity_spec(
                        orig[i],
                        cache@,
                        s,
                        dt_ms as int,
                        field,
                    ) && entity_in_field(self.entities@[i], field),
                forall|i: int|
                    range_begin_spec(len as int, w as int, k2 as int) <= i < len
                        ==> #[trigger] self.entities@[i] == orig[i] && entity_in_field(
                        orig[i],
                        field,
                    ),
                self.entities_gravity == old(self).entities_gravity,
                self.settings == old(self).settings,
                self.size_field == old(self).size_field,
                self.num_particles == old(self).num_particles,
                self.threadpool.threads == old(self).threadpool.threads,
                self.threadpool.queue@.len() == 0,
                self.debug == old(self).debug,
            decreases w - k2,
        {
            let job = jobs[k2];
            proof {
                assert(job.begin == range_begin_spec(len as int, w as int, k2 as int));
                assert(job.end == range_end_spec(len as int, w as int, k2 as int));
            }
            step_range(&mut self.entities, job.begin, job.end, cache, &s, dt_ms, field);
            k2 = k2 + 1;
        }
        proof {
            assert(range_begin_spec(len as int, w as int, w as int) == len);
            assert(self.entities@ =~= tick_particles_spec(
                orig,
                cache@,
                s,
                dt_ms as int,
                field,
            ));
        }
    }

    /// Advance every particle one tick in a single synchronous pass: the
    /// reference the partitioned path provably equals.
    pub fn update_cpu_singlethread(&mut self, cache: &Vec<(usize, GravityEntity)>, dt_ms: u32)
        requires
            old(self).wf(),
            cache_wf(cache@),
            dt_ms <= MAX_DT_MS,
        ensures
            final (self).wf(),
            final (self).entities@ == tick_particles_spec(
                old(self).entities@,
                cache@,
                old(self).settings,
                dt_ms as int,
                old(self).size_field,
            ),
            final (self).entities_gravity == old(self).entities_gravity,
            final (self).settings == old(self).settings,
            final (self).size_field == old(self).size_field,
            final (self).num_particles == old(self).num_particles,
            final (self).threadpool == old(self).threadpool,
            final (self).debug == old(self).debug,
    {
        let len = self.entities.len();
        let s = self.settings;
        let field = self.size_field;
        let ghost orig = self.entities@;
        step_range(&mut self.entities, 0, len, cache, &s, dt_ms, field);
        proof {
            assert(self.entities@ =~= tick_particles_spec(
                orig,
                cache@,
                s,
                dt_ms as int,
                field,
            ));
        }
    }

    /// One whole tick at a given effective elapsed time: snapshot the
    /// gravity sources and the settings, advance every particle against the
    /// snapshot across the pool, then — strictly after the barrier —
    /// integrate each movable gravity source against every other snapshot
    /// source, single-threaded.
    pub fn update_cpu(&mut self, dt_ms: u32)
        requires
            old(self).wf(),
            dt_ms <= MAX_DT_MS,
        ensures
            final (self).wf(),
            final (self).entities@ == tick_particles_spec(
                old(self).entities@,
                snapshot_spec(old(self).entities_gravity@, old(self).settings),
                old(self).settings,
                dt_ms as int,
                old(self).size_field,
            ),
            final (self).entities_gravity@ == tick_sources_spec(
                old(self).entities_gravity@,
                snapshot_spec(old(self).entities_gravity@, old(self).settings),
                old(self).settings,
                dt_ms as int,
                old(self).size_field,
            ),
            final (self).settings == old(self).settings,
            final (self).size_field == old(self).size_field,
            final (self).num_particles == old(self).num_particles,
            final (self).threadpool.threads == old(self).threadpool.threads,
            final (self).threadpool.queue@ == old(self).threadpool.queue@,
            final (self).debug == old(self).debug,
    {
        let cache = self.build_snapshot();
        self.update_cpu_multithread(&cache, dt_ms);
        self.integrate_sources(&cache, dt_ms);
    }

    /// The snapshot a tick consumes: each source paired with its index, and
    /// the pointer-driven source appended while it is active. Copied once
    /// before dispatch, so no job observes a torn read.
    pub fn build_snapshot(&self) -> (cache: Vec<(usize, GravityEntity)>)
        requires
            self.wf(),
        ensures
            cache@ == snapshot_spec(self.entities_gravity@, self.settings),
            cache_wf(cache@),
    {
        let mut cache: Vec<(usize, GravityEntity)> = Vec::new();
        let mut i: usize = 0;
        while i < self.entities_gravity.len()
            invariant
                self.wf(),
                0 <= i <= self.entities_gravity@.len(),
                self.entities_gravity@.len() < MAX_WORKERS,
                cache@.len() == i,
                forall|k: int|
                    0 <= k < i ==> #[trigger] cache@[k] == (k as usize, self.entities_gravity@[k]),
            decreases self.entities_gravity@.len() - i,
        {
            let g = self.entities_gravity[i];
            cache.push((i, g));
            i = i + 1;
        }
        if self.settings.mouse_gravity_active {
            cache.push((MOUSE_SOURCE_INDEX, self.settings.mouse_gravity));
        }
        proof {
            assert(cache@ =~= snapshot_spec(self.entities_gravity@, self.settings));
            assert(cache_wf(cache@));
        }
        cache
    }

    /// The single-threaded phase after the barrier: integrate every movable
    /// gravity source against every other snapshot source. Deferred past the
    /// barrier so it can never race with particle jobs reading the snapshot.
    pub fn integrate_sources(&mut self, cache: &Vec<(usize, GravityEntity)>, dt_ms: u32)
        requires
            old(self).wf(),
            cache_wf(cache@),
            dt_ms <= MAX_DT_MS,
        ensures
            final (self).wf(),
            final (self).entities_gravity@ == tick_sources_spec(
                old(self).entities_gravity@,
                cache@,
                old(self).settings,
                dt_ms as int,
                old(self).size_field,
            ),
            final (self).entities@ == old(self).entities@,
            final (self).settings == old(self).settings,
            final (self).size_field == old(self).size_field,
            final (self).num_particles == old(self).num_particles,
            final (self).threadpool.threads == old(self).threadpool.threads,
            final (self).threadpool.queue@ == old(self).threadpool.queue@,
            final (self).debug == old(self).debug,
    {
        let ghost sources0 = self.entities_gravity@;
        let ghost particles_after = self.entities@;
        let s = self.settings;
        let field = self.size_field;
        let mut idx: usize = 0;
        while idx < self.entities_gravity.len()
            invariant
                0 <= idx <= self.entities_gravity@.len(),
                self.entities_gravity@.len() == sources0.len(),
                self.entities_gravity@.len() < MAX_WORKERS,
                valid_settings(s),
                valid_field(field),
                dt_ms <= MAX_DT_MS,
                cache_wf(cache@),
                s == old(self).settings,
                field == old(self).size_field,
                forall|k: int|
                    0 <= k < sources0.len() ==> entity_in_field(
                        (#[trigger] sources0[k]).inner,
                        field,
                    ) && valid_strength(sources0[k].gravity.compute),
                forall|k: int|
                    idx <= k < sources0.len() ==> #[trigger] self.entities_gravity@[k]
                        == sources0[k],
                forall|k: int|
                    0 <= k < idx ==> #[trigger] self.entities_gravity@[k] == step_source_spec(
                        k,
                        sources0[k],
                        cache@,
                        s,
                        dt_ms as int,
                        field,
                    ) && entity_in_field(self.entities_gravity@[k].inner, field) && valid_strength(
                        self.entities_gravity@[k].gravity.compute,
                    ),
                self.entities@ == particles_after,
                self.entities@.len() <= MAX_PARTICLES,
                forall|k: int|
                    0 <= k < self.entities@.len() ==> entity_in_field(
                        #[trigger] self.entities@[k],
                        field,
                    ),
                self.settings == old(self).settings,
                self.size_field == old(self).size_field,
                self.num_particles == old(self).num_particles,
                self.threadpool.threads == old(self).threadpool.threads,
                self.threadpool.queue@.len() == 0,
                self.debug == old(self).debug,
            decreases self.entities_gravity@.len() - idx,
        {
            let mut g = self.entities_gravity[idx];
            if g.movable {
                let ghost g0 = g.inner;
                let mut j: usize = 0;
                #[verifier::loop_isolation(false)]
                while j < cache.len()
                    invariant
                        0 <= j <= cache@.len(),
                        valid_settings(s),
                        valid_field(field),
                        dt_ms <= MAX_DT_MS,
                        cache_wf(cache@),
                        g.gravity == self.entities_gravity@[idx as int].gravity,
                        g.movable == self.entities_gravity@[idx as int].movable,
                        idx < self.entities_gravity@.len(),
                        g.inner == fold_gravity_except_spec(
                            g0,
                            cache@.subrange(0, j as int),
                            idx as usize,
                            s,
                            dt_ms as int,
                            field,
                        ),
                    decreases cache@.len() - j,
                {
                    proof {
                        assert(cache@.subrange(0, j as int + 1).drop_last() =~= cache@.subrange(
                            0,
                            j as int,
                        ));
                        assert(cache@.subrange(0, j as int + 1).last() == cache@[j as int]);
                    }
                    let (src_index, src) = cache[j];
                    if src_index != idx {
                        g.inner.apply_gravity(&src, &s, dt_ms, field);
                    }
                    j = j + 1;
                }
                proof {
                    assert(cache@.subrange(0, cache@.len() as int) =~= cache@);
                }
                g.inner.update_position(&s, dt_ms, field);
            }
            self.entities_gravity.set(idx, g);
            proof {
                assert forall|k: int| idx + 1 <= k < sources0.len() implies #[trigger] self.entities_gravity@[k]
                    == sources0[k] by {
                    assert(self.entities_gravity@[k] == sources0[k]);
                }
                assert(g == step_source_spec(idx as int, sources0[idx as int], cache@, s, dt_ms as int, field));
                assert(entity_in_field(g.inner, field));
            }
            idx = idx + 1;
        }
        proof {
            assert(self.entities_gravity@ =~= tick_sources_spec(
                sources0,
                cache@,
                s,
                dt_ms as int,
                field,
            ));
        }
    }

    /// Advance exactly one tick from a raw elapsed time in milliseconds:
    /// bring the buffer to the target count, cap the raw time at twenty
    /// milliseconds, scale it by the time factor, and run the tick.
    pub fn update(&mut self, raw_dt_ms: u32)
        requires
            old(self).wf(),
        ensures
            final (self).wf(),
            final (self).entities@.len() == old(self).num_particles,
            old(self).entities@.len() == old(self).num_particles ==> final (self).entities@
                == tick_particles_spec(
                old(self).entities@,
                snapshot_spec(old(self).entities_gravity@, old(self).settings),
                old(self).settings,
                effective_dt_spec(old(self).settings, raw_dt_ms as int),
                old(self).size_field,
            ),
            final (self).entities_gravity@ == tick_sources_spec(
                old(self).entities_gravity@,
                snapshot_spec(old(self).entities_gravity@, old(self).settings),
                old(self).settings,
                effective_dt_spec(old(self).settings, raw_dt_ms as int),
                old(self).size_field,
            ),
            forall|i: int|
                0 <= i < final (self).entities@.len() && i < old(self).entities@.len()
                    ==> #[trigger] final (self).entities@[i] == step_entity_spec(
                    old(self).entities@[i],
                    snapshot_spec(old(self).entities_gravity@, old(self).settings),
                    old(self).settings,
                    effective_dt_spec(old(self).settings, raw_dt_ms as int),
                    old(self).size_field,
                ),
            exists|seeded: Seq<Entity>|
                {
                    &&& seeded.len() == final (self).entities@.len()
                    &&& (forall|i: int|
                        0 <= i < seeded.len() && i < old(self).entities@.len()
                            ==> #[trigger] seeded[i] == old(self).entities@[i])
                    &&& (forall|i: int|
                        old(self).entities@.len() <= i < seeded.len() ==> (#[trigger] seeded[i]).speed
                            == (Vel2 { x: 0i64, y: 0i64 }) && 0 <= seeded[i].position.x < old(
                            self,
                        ).size_field.0 && 0 <= seeded[i].position.y < old(self).size_field.1)
                    &&& final (self).entities@ == #[trigger] tick_particles_spec(
                        seeded,
                        snapshot_spec(old(self).entities_gravity@, old(self).settings),
                        old(self).settings,
                        effective_dt_spec(old(self).settings, raw_dt_ms as int),
                        old(self).size_field,
                    )
                },
            final (self).settings == old(self).settings,
            final (self).size_field == old(self).size_field,
            final (self).num_particles == old(self).num_particles,
            final (self).threadpool.threads == old(self).threadpool.threads,
            final (self).threadpool.queue@ == old(self).threadpool.queue@,
            final (self).debug == old(self).debug,
    {
        let dt_eff = self.effective_dt(raw_dt_ms);
        self.apply_particles_number();
        let ghost adjusted = self.entities@;
        self.update_cpu(dt_eff);
        proof {
            let s0 = old(self).settings;
            let dt = effective_dt_spec(s0, raw_dt_ms as int);
            let field = old(self).size_field;
            let snap = snapshot_spec(old(self).entities_gravity@, s0);
            // the resized buffer witnesses the seeded-then-ticked shape
            assert(self.entities@ == tick_particles_spec(adjusted, snap, s0, dt, field));
        }
    }

    /// The effective elapsed time of one tick: the raw elapsed time capped
    /// at twenty milliseconds, scaled by the time factor.
    pub fn effective_dt(&self, raw_dt_ms: u32) -> (dt: u32)
        requires
            valid_settings(self.settings),
        ensures
            dt == effective_dt_spec(self.settings, raw_dt_ms as int),
            dt <= 2000,
    {
        let capped: u32 = if raw_dt_ms < 20 {
            raw_dt_ms
        } else {
            20
        };
        proof {
            assert((capped as int) * (self.settings.time_factor_milli as int) <= 2_000_000)
                by (nonlinear_arith)
                requires
                    0 <= capped <= 20,
                    0 <= self.settings.time_factor_milli <= 100_000,
            ;
        }
        let dt_wide: u64 = (capped as u64) * (self.settings.time_factor_milli as u64) / 1000;
        proof {
            vstd::arithmetic::div_mod::lemma_div_pos_is_pos(
                (capped as int) * (self.settings.time_factor_milli as int),
                1000,
            );
            vstd::arithmetic::div_mod::lemma_div_is_ordered(
                (capped as int) * (self.settings.time_factor_milli as int),
                2_000_000int,
                1000,
            );
            assert(dt_wide == effective_dt_spec(self.settings, raw_dt_ms as int));
            assert(dt_wide <= 2000);
        }
        dt_wide as u32
    }
}

} // verus!
