use game::castles::CastleBundle;
use game::common::{Vec2i, Vec3i};
use game::health::Health;
use game::racks::{destroy, spawn_minions, Rack, RackBundle, RackVitals, RACK_GOLD_VALUE};
use game::teams::{Color, Team};
use game::timer::{Timer, TimerMode};

fn team(id: &str) -> Team {
    Team { id: id.to_string(), color: Color { r: 300, g: 300, b: 800 } }
}

#[test]
fn burst_of_five_completes_then_stops() {
    let bundle = RackBundle::new(team("b"), Vec3i::new(200_000, 200_000, 0));
    let mut rack = bundle.rack;
    let position = bundle.position;
    let extents = Some(bundle.collider_half_extents);
    let t = team("b");

    let mut spawned = 0u32;
    // 19 ticks of 100 ms: the preset repeat timer (1 s of 1.5 s elapsed)
    // triggers the burst at 0.5 s; the 0.2 s intra-burst timer then lets
    // one minion out per completion until five are out.
    for _ in 0..19 {
        if spawn_minions(&mut rack, &position, &t, extents, 100).is_some() {
            spawned += 1;
        }
        assert!(rack.minion_spawned_count <= rack.minion_spawn_count);
    }
    assert_eq!(spawned, 5);
    assert!(!rack.minion_spawning);
    assert_eq!(rack.minion_spawned_count, 5);
}

#[test]
fn overlapping_burst_trigger_never_overruns_burst_size() {
    // a repeat period shorter than a full burst: the trigger restarts the
    // burst mid-flight, and the counter still never passes the size
    let mut rack = Rack {
        minion_spawn_timer: Timer::from_millis(300, TimerMode::Repeating),
        minion_spawn_timer_q: Timer::from_millis(200, TimerMode::Repeating),
        minion_spawn_count: 5,
        minion_spawned_count: 0,
        minion_spawning: false,
    };
    let position = Vec3i::new(0, 0, 0);
    let t = team("b");
    for _ in 0..50 {
        let _ = spawn_minions(&mut rack, &position, &t, Some(Vec2i::new(9_800, 9_800)), 100);
        assert!(rack.minion_spawned_count <= rack.minion_spawn_count);
    }
}

#[test]
fn spawn_skips_without_collider_extents_and_keeps_counters() {
    let mut rack = Rack {
        minion_spawn_timer: Timer::from_millis(300, TimerMode::Repeating),
        minion_spawn_timer_q: Timer::from_millis(200, TimerMode::Repeating),
        minion_spawn_count: 5,
        minion_spawned_count: 0,
        minion_spawning: false,
    };
    let position = Vec3i::new(0, 0, 0);
    let t = team("b");
    for _ in 0..20 {
        let spawned = spawn_minions(&mut rack, &position, &t, None, 100);
        assert!(spawned.is_none());
        assert_eq!(rack.minion_spawned_count, 0);
    }
}

#[test]
fn spawned_minion_sits_one_jitter_past_the_collider_edge() {
    let bundle = RackBundle::new(team("b"), Vec3i::new(200_000, 150_000, 0));
    let mut rack = bundle.rack;
    let t = team("b");
    let extents = bundle.collider_half_extents;
    let mut seen = 0;
    for _ in 0..200 {
        if let Some(m) = spawn_minions(&mut rack, &bundle.position, &t, Some(extents), 100) {
            seen += 1;
            let dx = (m.position.x - bundle.position.x).abs();
            let dy = (m.position.y - bundle.position.y).abs();
            assert!(extents.x + 2_000 <= dx && dx < extents.x + 10_000);
            assert!(extents.y + 2_000 <= dy && dy < extents.y + 10_000);
            assert_eq!(m.position.z, bundle.position.z);
            assert_eq!(m.team.id, "b");
            assert_eq!(m.health.value, 20_000);
            assert_eq!(m.rewards.gold, 1_000);
            assert!(!m.minion.had_exploded);
        }
    }
    assert!(seen > 0);
}

#[test]
fn rack_bundle_carries_the_rack_tuning() {
    let b = RackBundle::new(team("c"), Vec3i::new(100_000, -100_000, 0));
    assert_eq!(b.rack.minion_spawn_count, 5);
    assert_eq!(b.rack.minion_spawn_timer.duration_ms, 1_500);
    assert_eq!(b.rack.minion_spawn_timer.elapsed_ms, 1_000);
    assert_eq!(b.rack.minion_spawn_timer_q.duration_ms, 200);
    assert!(!b.rack.minion_spawning);
    assert_eq!(b.health.value, 220_000);
    assert_eq!(b.rewards.gold, 100_000);
    assert_eq!(b.collider_half_extents, Vec2i { x: 9_800, y: 9_800 });
    assert_eq!(RACK_GOLD_VALUE, 10_000);
}

#[test]
fn castle_bundle_carries_the_castle_tuning() {
    let b = CastleBundle::new(team("a"), Vec3i::new(-200_000, -300_000, 0));
    assert_eq!(b.rack.minion_spawn_count, 5);
    assert_eq!(b.rack.minion_spawn_timer.duration_ms, 3_000);
    assert_eq!(b.rack.minion_spawn_timer.elapsed_ms, 0);
    assert_eq!(b.health.value, 300_000);
    assert_eq!(b.rewards.gold, 500_000);
    assert_eq!(b.collider_half_extents, Vec2i { x: 40_000, y: 40_000 });
}

#[test]
fn dead_structures_are_culled() {
    let mut dead = Health::new(220_000);
    dead.hit(220_000);
    let racks = vec![
        RackVitals { id: 1, health: Health::new(220_000) },
        RackVitals { id: 2, health: dead },
    ];
    assert_eq!(destroy(&racks), vec![2u64]);
}
