//! Tests of the scheduler and the world: partitioning, the worker pool's
//! queue semantics, the determinism of a tick under different worker
//! counts, and the world's lifecycle operations.

use dust::entity::{Entity, GravityCompute, GravityEntity, GravitySettings, Point2, Vel2};
use dust::partition::chunk_ranges;
use dust::threadpool::{ChunkJob, PoolError, Threadpool};
use dust::world::{Settings, World};

fn entity_at(x: i32, y: i32, vx: i64, vy: i64) -> Entity {
    Entity {
        position: Point2 { x, y },
        speed: Vel2 { x: vx, y: vy },
    }
}

fn linear_source(x: i32, y: i32, strength: i64, movable: bool) -> GravityEntity {
    GravityEntity {
        inner: entity_at(x, y, 0, 0),
        gravity: GravitySettings {
            compute: GravityCompute::Linear(strength),
        },
        movable,
    }
}

/// A world with a hand-built, fully deterministic state.
fn fixed_world(workers: usize) -> World {
    let mut w = World::new((1000, 1000), 6, workers);
    w.settings.energy_loss_milli = 0;
    w.entities = vec![
        entity_at(100_000, 100_000, 0, 0),
        entity_at(900_000, 100_000, 500, -500),
        entity_at(500_000, 500_000, 0, 0),
        entity_at(123_456, 654_321, 1000, 2000),
        entity_at(1, 999_999, -50, 3),
        entity_at(700_000, 300_000, 0, 0),
    ];
    w.entities_gravity = vec![
        linear_source(500_000, 500_000, 100, false),
        linear_source(200_000, 800_000, 50, true),
    ];
    w
}

#[test]
fn partition_small_cases() {
    assert_eq!(chunk_ranges(10, 3), vec![(0, 4), (4, 8), (8, 10)]);
    assert_eq!(chunk_ranges(8, 4), vec![(0, 2), (2, 4), (4, 6), (6, 8)]);
    assert_eq!(chunk_ranges(0, 4), vec![(0, 0), (0, 0), (0, 0), (0, 0)]);
    assert_eq!(chunk_ranges(1, 1), vec![(0, 1)]);
    assert_eq!(
        chunk_ranges(3, 5),
        vec![(0, 1), (1, 2), (2, 3), (3, 3), (3, 3)]
    );
}

#[test]
fn partition_covers_exactly() {
    // For a spread of lengths and worker counts: contiguous, non-overlapping,
    // and a total cover of [0, len).
    for len in [0usize, 1, 2, 7, 64, 1000, 1001] {
        for workers in [1usize, 2, 3, 8, 13, 64] {
            let ranges = chunk_ranges(len, workers);
            assert_eq!(ranges.len(), workers);
            let mut next = 0usize;
            for &(begin, end) in ranges.iter() {
                assert_eq!(begin, next);
                assert!(begin <= end);
                assert!(end <= len);
                next = end;
            }
            assert_eq!(next, len);
        }
    }
}

#[test]
fn pool_grow_then_shrink_restores_count() {
    let mut pool = Threadpool::new_with_threads(2);
    assert_eq!(pool.num_threads(), 2);
    pool.new_thread();
    assert_eq!(pool.num_threads(), 3);
    assert_eq!(pool.delete_thread(), Ok(()));
    assert_eq!(pool.num_threads(), 2);
}

#[test]
fn pool_delete_without_workers_reports_it() {
    let mut pool = Threadpool::new();
    assert_eq!(pool.num_threads(), 0);
    assert_eq!(pool.delete_thread(), Err(PoolError::NoWorkers));
    assert_eq!(pool.num_threads(), 0);
}

#[test]
fn pool_delete_with_outstanding_jobs_fails_fast() {
    // Removing a worker while work is queued is a lifecycle violation:
    // it is refused explicitly and nobody is removed.
    let mut pool = Threadpool::new_with_threads(3);
    pool.send_work(ChunkJob { begin: 0, end: 5 });
    assert_eq!(pool.delete_thread(), Err(PoolError::JobsOutstanding));
    assert_eq!(pool.num_threads(), 3);
    let jobs = pool.wait();
    assert_eq!(jobs.len(), 1);
    // with the queue drained the removal goes through
    assert_eq!(pool.delete_thread(), Ok(()));
    assert_eq!(pool.num_threads(), 2);
}

#[test]
fn pool_delivers_every_job_exactly_once() {
    let mut pool = Threadpool::new_with_threads(4);
    let n = 25usize;
    for k in 0..n {
        pool.send_work(ChunkJob { begin: k, end: k + 1 });
    }
    let jobs = pool.wait();
    assert_eq!(jobs.len(), n);
    let mut counter = 0usize;
    for (k, job) in jobs.iter().enumerate() {
        assert_eq!(job.begin, k);
        assert_eq!(job.end, k + 1);
        counter += 1;
    }
    assert_eq!(counter, n);
    // the barrier leaves nothing queued
    let again = pool.wait();
    assert_eq!(again.len(), 0);
}

#[test]
fn tick_is_deterministic_across_worker_counts() {
    // Identical initial state run at one worker and at eight produces
    // bit-identical post-tick positions and velocities for every particle.
    let mut w1 = fixed_world(1);
    let mut w8 = fixed_world(8);
    for _ in 0..5 {
        w1.update_cpu(16);
        w8.update_cpu(16);
    }
    assert_eq!(w1.entities.len(), w8.entities.len());
    for i in 0..w1.entities.len() {
        assert_eq!(w1.entities[i], w8.entities[i]);
    }
    assert_eq!(w1.entities_gravity.len(), w8.entities_gravity.len());
    for i in 0..w1.entities_gravity.len() {
        assert_eq!(w1.entities_gravity[i], w8.entities_gravity[i]);
    }
}

#[test]
fn tick_with_no_workers_still_runs() {
    let mut w0 = fixed_world(0);
    let mut w1 = fixed_world(1);
    w0.update_cpu(16);
    w1.update_cpu(16);
    for i in 0..w0.entities.len() {
        assert_eq!(w0.entities[i], w1.entities[i]);
    }
}

#[test]
fn multithread_path_matches_single_pass() {
    let mut wa = fixed_world(7);
    let mut wb = fixed_world(7);
    let cache: Vec<(usize, GravityEntity)> = wa
        .entities_gravity
        .iter()
        .cloned()
        .enumerate()
        .collect();
    wa.update_cpu_multithread(&cache, 16);
    wb.update_cpu_singlethread(&cache, 16);
    for i in 0..wa.entities.len() {
        assert_eq!(wa.entities[i], wb.entities[i]);
    }
}

#[test]
fn empty_buffer_tick_is_a_no_op() {
    let mut w = World::new((1000, 1000), 0, 3);
    w.update_cpu(16);
    assert_eq!(w.entities.len(), 0);
}

#[test]
fn sources_integrate_after_particles() {
    // A movable source is pulled by the other source; a non-movable one
    // never moves.
    let mut w = fixed_world(2);
    let fixed_before = w.entities_gravity[0];
    let movable_before = w.entities_gravity[1];
    w.update_cpu(16);
    assert_eq!(w.entities_gravity[0], fixed_before);
    let movable_after = w.entities_gravity[1];
    assert!(movable_after.inner.speed.x != 0 || movable_after.inner.speed.y != 0);
    assert!(movable_after != movable_before);
}

#[test]
fn mouse_source_joins_snapshot_only_while_active() {
    let mut on = fixed_world(2);
    let mut off = fixed_world(2);
    on.update_mouse_gravity_info(800_000, 800_000);
    off.update_mouse_gravity_info(800_000, 800_000);
    on.settings.mouse_gravity_active = true;
    on.update_cpu(16);
    off.update_cpu(16);
    assert!(on.entities != off.entities);
}

#[test]
fn mouse_position_clamps_into_field() {
    let mut w = fixed_world(1);
    w.update_mouse_gravity_info(-50, 2_000_000);
    assert_eq!(w.settings.mouse_gravity.inner.position.x, 0);
    assert_eq!(w.settings.mouse_gravity.inner.position.y, 1_000_000);
    w.update_mouse_gravity_info(300_000, 400_000);
    assert_eq!(w.settings.mouse_gravity.inner.position.x, 300_000);
    assert_eq!(w.settings.mouse_gravity.inner.position.y, 400_000);
}

#[test]
fn apply_particles_number_grows_and_shrinks() {
    let mut w = fixed_world(1);
    let first = w.entities[0];
    w.num_particles = 10;
    w.apply_particles_number();
    assert_eq!(w.entities.len(), 10);
    assert_eq!(w.entities[0], first);
    w.num_particles = 3;
    w.apply_particles_number();
    assert_eq!(w.entities.len(), 3);
    assert_eq!(w.entities[0], first);
}

#[test]
fn set_target_count_resizes_buffer() {
    let mut w = fixed_world(1);
    let first = w.entities[0];
    w.set_target_count(9);
    assert_eq!(w.num_particles, 9);
    assert_eq!(w.entities.len(), 9);
    assert_eq!(w.entities[0], first);
    w.set_target_count(2);
    assert_eq!(w.entities.len(), 2);
    assert_eq!(w.entities[0], first);
}

#[test]
fn reset_reseeds_and_clears_sources() {
    let mut w = fixed_world(1);
    w.num_particles = 20;
    w.reset();
    assert_eq!(w.entities.len(), 20);
    assert_eq!(w.entities_gravity.len(), 0);
    for e in w.entities.iter() {
        assert!(0 <= e.position.x && e.position.x < 1_000_000);
        assert!(0 <= e.position.y && e.position.y < 1_000_000);
        assert_eq!(e.speed.x, 0);
        assert_eq!(e.speed.y, 0);
    }
}

#[test]
fn world_resize_rescales_positions() {
    let mut w = World::new((1000, 1000), 1, 1);
    w.entities = vec![entity_at(500_000, 500_000, 9, 9)];
    w.entities_gravity = vec![GravityEntity {
        inner: entity_at(250_000, 750_000, 4, -4),
        gravity: GravitySettings {
            compute: GravityCompute::Square(7),
        },
        movable: true,
    }];
    w.resize((2000, 500));
    assert_eq!(w.size_field, (2_000_000, 500_000));
    assert_eq!(w.entities[0].position.x, 1_000_000);
    assert_eq!(w.entities[0].position.y, 250_000);
    assert_eq!(w.entities[0].speed, Vel2 { x: 9, y: 9 });
    let g = w.entities_gravity[0];
    assert_eq!(g.inner.position.x, 500_000);
    assert_eq!(g.inner.position.y, 375_000);
    assert_eq!(g.inner.speed, Vel2 { x: 4, y: -4 });
    assert!(matches!(g.gravity.compute, GravityCompute::Square(7)));
    assert!(g.movable);
}

#[test]
fn stop_speed_rests_everything() {
    let mut w = fixed_world(1);
    w.stop_speed();
    for e in w.entities.iter() {
        assert_eq!(e.speed, Vel2 { x: 0, y: 0 });
    }
    for g in w.entities_gravity.iter() {
        assert_eq!(g.inner.speed, Vel2 { x: 0, y: 0 });
    }
}

#[test]
fn tilt_moves_less_than_one_unit() {
    let mut w = fixed_world(1);
    let before: Vec<Entity> = w.entities.clone();
    let sources_before: Vec<GravityEntity> = w.entities_gravity.clone();
    w.tilt();
    for (e, b) in w.entities.iter().zip(before.iter()) {
        assert!((e.position.x - b.position.x).abs() < 1000);
        assert!((e.position.y - b.position.y).abs() < 1000);
        assert!(0 <= e.position.x && e.position.x <= 1_000_000);
        assert_eq!(e.speed, b.speed);
    }
    for (g, b) in w.entities_gravity.iter().zip(sources_before.iter()) {
        assert!((g.inner.position.x - b.inner.position.x).abs() < 1000);
        assert!((g.inner.position.y - b.inner.position.y).abs() < 1000);
        assert_eq!(g.inner.speed, b.inner.speed);
        assert_eq!(g.gravity, b.gravity);
        assert_eq!(g.movable, b.movable);
    }
}

#[test]
fn gravity_entity_lifecycle() {
    let mut w = fixed_world(1);
    assert_eq!(w.entities_gravity.len(), 2);
    w.add_gravity_entity();
    assert_eq!(w.entities_gravity.len(), 3);
    let added = w.entities_gravity[2];
    assert!(added.movable);
    assert_eq!(added.gravity.compute.get_force(), 10);
    assert!(matches!(added.gravity.compute, GravityCompute::Linear(10)));
    w.remove_gravity_entity(0);
    assert_eq!(w.entities_gravity.len(), 2);
    assert_eq!(w.entities_gravity[1], added);
}

#[test]
fn world_worker_lifecycle() {
    let mut w = fixed_world(2);
    w.add_worker();
    assert_eq!(w.threadpool.num_threads(), 3);
    assert!(w.remove_worker());
    assert_eq!(w.threadpool.num_threads(), 2);
}

#[test]
fn update_applies_target_count_and_time_factor() {
    let mut w = fixed_world(3);
    w.num_particles = 4;
    w.update(16);
    assert_eq!(w.entities.len(), 4);

    // a zero time factor freezes the tick entirely
    let mut frozen = fixed_world(3);
    let before = frozen.entities.clone();
    frozen.settings.time_factor_milli = 0;
    frozen.settings.block = true;
    frozen.update(16);
    assert_eq!(frozen.entities, before);
}

#[test]
fn num_entities_counts_both_kinds() {
    let w = fixed_world(1);
    assert_eq!(w.num_entities(), 8);
}

#[test]
fn change_debug_toggles() {
    let mut w = fixed_world(1);
    assert!(!w.debug);
    w.change_debug();
    assert!(w.debug);
    w.change_debug();
    assert!(!w.debug);
}
