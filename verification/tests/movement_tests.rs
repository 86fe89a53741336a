use game::common::Vec3i;
use game::health::Health;
use game::minions::{
    destroy_after_timer, destroy_minions, select_target, should_despawn_minion,
    update_move_minions, Actor, MinionVitals, TimedEntity, DESTROY_MINIONS_AFTER_MS,
};
use game::timer::{Timer, TimerMode};

fn actor(id: u64, x: i64, y: i64, team_id: &str, is_minion: bool) -> Actor {
    Actor { id, position: Vec3i::new(x, y, 0), team_id: team_id.to_string(), is_minion }
}

#[test]
fn minion_targets_nearest_opposing_not_nearest_ally() {
    // minion at the origin on team a; an ally sits closer than the enemy
    let actors = vec![
        actor(1, 0, 0, "a", true),
        actor(2, 10_000, 0, "b", false),
        actor(3, 5_000, 0, "a", false),
    ];
    assert_eq!(select_target(&actors, 0), Some(1));
}

#[test]
fn equal_distances_resolve_to_the_first_found() {
    let actors = vec![
        actor(1, 0, 0, "a", true),
        actor(2, 10_000, 0, "b", false),
        actor(3, -10_000, 0, "c", false),
    ];
    assert_eq!(select_target(&actors, 0), Some(1));
}

#[test]
fn no_opposing_team_means_no_target() {
    let actors = vec![actor(1, 0, 0, "a", true), actor(2, 5_000, 5_000, "a", false)];
    assert_eq!(select_target(&actors, 0), None);
}

#[test]
fn minion_walks_its_speed_toward_the_target() {
    // enemy due east: a one-second tick covers exactly the minion speed
    let mut actors = vec![actor(1, 0, 0, "a", true), actor(2, 1_000_000, 0, "b", false)];
    update_move_minions(&mut actors, 1_000);
    assert_eq!(actors[0].position, Vec3i { x: 190_000, y: 0, z: 0 });
    // the non-minion target does not move
    assert_eq!(actors[1].position, Vec3i { x: 1_000_000, y: 0, z: 0 });
}

#[test]
fn minion_without_enemies_stands_still() {
    let mut actors = vec![actor(1, 7_000, -3_000, "a", true)];
    update_move_minions(&mut actors, 1_000);
    assert_eq!(actors[0].position, Vec3i { x: 7_000, y: -3_000, z: 0 });
}

#[test]
fn coincident_positions_do_not_move() {
    // the direction would be the zero vector: guarded, not propagated
    let mut actors = vec![actor(1, 4_000, 4_000, "a", true), actor(2, 4_000, 4_000, "b", false)];
    update_move_minions(&mut actors, 1_000);
    assert_eq!(actors[0].position, Vec3i { x: 4_000, y: 4_000, z: 0 });
}

#[test]
fn both_minions_approach_each_other() {
    let mut actors = vec![actor(1, 0, 0, "a", true), actor(2, 1_000_000, 0, "b", true)];
    update_move_minions(&mut actors, 1_000);
    assert_eq!(actors[0].position.x, 190_000);
    assert_eq!(actors[1].position.x, 810_000);
}

#[test]
fn culling_at_exactly_half_the_world_width() {
    let vitals = vec![
        MinionVitals { id: 1, position: Vec3i::new(1_000_000, 0, 0), health: Health::new(20_000) },
        MinionVitals { id: 2, position: Vec3i::new(999_999, 0, 0), health: Health::new(20_000) },
        MinionVitals { id: 3, position: Vec3i::new(0, -1_000_000, 0), health: Health::new(20_000) },
    ];
    assert_eq!(destroy_minions(&vitals), vec![1u64, 3u64]);
    assert!(should_despawn_minion(&Vec3i::new(1_000_000, 0, 0), &Health::new(1)));
    assert!(!should_despawn_minion(&Vec3i::new(999_999, 0, 0), &Health::new(1)));
}

#[test]
fn dead_minions_are_culled() {
    let mut dead = Health::new(20_000);
    dead.hit(20_000);
    let vitals = vec![
        MinionVitals { id: 1, position: Vec3i::new(0, 0, 0), health: dead },
        MinionVitals { id: 2, position: Vec3i::new(0, 0, 0), health: Health::new(20_000) },
    ];
    assert_eq!(destroy_minions(&vitals), vec![1u64]);
}

#[test]
fn expired_countdowns_despawn_their_entities() {
    let mut items = vec![
        TimedEntity { id: 1, timer: Timer::from_millis(DESTROY_MINIONS_AFTER_MS, TimerMode::Once) },
        TimedEntity { id: 2, timer: Timer::from_millis(200, TimerMode::Once) },
    ];
    assert_eq!(destroy_after_timer(&mut items, 200), vec![2u64]);
    // an already-finished countdown does not fire again
    assert!(destroy_after_timer(&mut items, 200).is_empty());
}
