use game::common::Vec3i;
use game::health::Health;
use game::minions::{
    check_collisions_minions, decay_life, explosion_damage, CombatMinion, ExplosionRef,
    HealthTarget, TeamedEntity, EXPLOSION_DAMAGE,
};
use game::physics::CollisionEvent;
use game::player::{
    check_collisions_sword, keyboard_movements, try_buy_rack, try_swing_sword, update_cooldowns,
    update_sword, Player, PlayerCombat, SwordEntity, SwordRef, SwordVictim, SWORD_DAMAGE,
};
use game::teams::{Color, Team};

fn team(id: &str) -> Team {
    Team { id: id.to_string(), color: Color { r: 0, g: 0, b: 0 } }
}

fn minion(id: u64, x: i64, team_id: &str) -> CombatMinion {
    CombatMinion {
        id,
        position: Vec3i::new(x, 0, 0),
        team: team(team_id),
        had_exploded: false,
    }
}

#[test]
fn same_team_started_event_changes_nothing() {
    let events = vec![CollisionEvent::Started(1, 2)];
    let mut minions = vec![minion(1, 0, "a"), minion(2, 10, "a")];
    let others: Vec<TeamedEntity> = Vec::new();
    let spawned = check_collisions_minions(&events, &mut minions, &others);
    assert!(spawned.is_empty());
    assert!(!minions[0].had_exploded && !minions[1].had_exploded);
}

#[test]
fn opposing_minions_detonate_the_first_unspent_side_once() {
    let events = vec![CollisionEvent::Started(1, 2)];
    let mut minions = vec![minion(1, 0, "a"), minion(2, 10, "b")];
    let others: Vec<TeamedEntity> = Vec::new();
    let spawned = check_collisions_minions(&events, &mut minions, &others);
    assert_eq!(spawned.len(), 1);
    assert_eq!(spawned[0].explosion.damage, EXPLOSION_DAMAGE);
    assert_eq!(spawned[0].team.id, "a");
    assert_eq!(spawned[0].position, Vec3i { x: 0, y: 0, z: 10_000 });
    assert!(minions[0].had_exploded && !minions[1].had_exploded);

    // the same pair starting again: the spent side stays spent, the
    // other side detonates, and after that nothing re-triggers
    let spawned = check_collisions_minions(&events, &mut minions, &others);
    assert_eq!(spawned.len(), 1);
    assert_eq!(spawned[0].team.id, "b");
    assert!(minions[1].had_exploded);
    let spawned = check_collisions_minions(&events, &mut minions, &others);
    assert!(spawned.is_empty());
}

#[test]
fn minion_detonates_against_opposing_structure() {
    let events = vec![CollisionEvent::Started(7, 1)];
    let mut minions = vec![minion(1, 5, "a")];
    let others = vec![TeamedEntity { id: 7, team_id: "b".to_string() }];
    let spawned = check_collisions_minions(&events, &mut minions, &others);
    assert_eq!(spawned.len(), 1);
    assert_eq!(spawned[0].team.id, "a");
    assert!(minions[0].had_exploded);
}

#[test]
fn minion_ignores_teamless_contact() {
    let events = vec![CollisionEvent::Started(9, 1)];
    let mut minions = vec![minion(1, 5, "a")];
    let others: Vec<TeamedEntity> = Vec::new();
    let spawned = check_collisions_minions(&events, &mut minions, &others);
    assert!(spawned.is_empty());
    assert!(!minions[0].had_exploded);
}

#[test]
fn explosion_hurts_whatever_overlaps_once_per_event() {
    let explosions = vec![ExplosionRef { id: 5, damage: EXPLOSION_DAMAGE }];
    let mut victims = vec![HealthTarget { id: 2, health: Health::new(100_000) }];
    let one = vec![CollisionEvent::Started(5, 2)];
    explosion_damage(&one, &explosions, &mut victims);
    assert_eq!(victims[0].health.value, 70_000);
    let two = vec![CollisionEvent::Started(5, 2), CollisionEvent::Started(2, 5)];
    explosion_damage(&two, &explosions, &mut victims);
    assert_eq!(victims[0].health.value, 10_000);
}

#[test]
fn stopped_events_carry_no_damage() {
    let explosions = vec![ExplosionRef { id: 5, damage: EXPLOSION_DAMAGE }];
    let mut victims = vec![HealthTarget { id: 2, health: Health::new(100_000) }];
    let events = vec![CollisionEvent::Stopped(5, 2)];
    explosion_damage(&events, &explosions, &mut victims);
    assert_eq!(victims[0].health.value, 100_000);
}

#[test]
fn sword_kill_credits_the_wielder_exactly_once() {
    let swords = vec![SwordRef { id: 10, owner: 1 }];
    let mut players = vec![PlayerCombat { id: 1, team_id: "a".to_string(), gold: 0 }];
    let mut victims = vec![SwordVictim {
        id: 2,
        team_id: "b".to_string(),
        health: Health::new(20_000),
        rewards: Some(1_000),
    }];
    let events = vec![CollisionEvent::Started(10, 2)];
    check_collisions_sword(&events, &swords, &mut players, &mut victims);
    assert!(victims[0].health.value == 0);
    assert_eq!(players[0].gold, 1_000);

    // a started event against the already-dead victim must not pay again
    check_collisions_sword(&events, &swords, &mut players, &mut victims);
    assert_eq!(players[0].gold, 1_000);
}

#[test]
fn same_team_sword_contact_is_a_no_op() {
    let swords = vec![SwordRef { id: 10, owner: 1 }];
    let mut players = vec![PlayerCombat { id: 1, team_id: "a".to_string(), gold: 500 }];
    let mut victims = vec![SwordVictim {
        id: 2,
        team_id: "a".to_string(),
        health: Health::new(20_000),
        rewards: Some(1_000),
    }];
    let events = vec![CollisionEvent::Started(10, 2)];
    check_collisions_sword(&events, &swords, &mut players, &mut victims);
    // the team check comes before any damage: zero health mutation
    assert_eq!(victims[0].health.value, 20_000);
    assert_eq!(players[0].gold, 500);
}

#[test]
fn ownerless_sword_still_hurts_but_pays_nobody() {
    // the wielder has despawned: no team to match, so the blow lands,
    // and there is nobody left to pay
    let swords = vec![SwordRef { id: 10, owner: 99 }];
    let mut players = vec![PlayerCombat { id: 1, team_id: "a".to_string(), gold: 0 }];
    let mut victims = vec![SwordVictim {
        id: 2,
        team_id: "b".to_string(),
        health: Health::new(20_000),
        rewards: Some(1_000),
    }];
    let events = vec![CollisionEvent::Started(10, 2)];
    check_collisions_sword(&events, &swords, &mut players, &mut victims);
    assert_eq!(victims[0].health.value, 20_000 - SWORD_DAMAGE);
    assert_eq!(players[0].gold, 0);
}

#[test]
fn sword_kill_without_bounty_pays_nothing() {
    let swords = vec![SwordRef { id: 10, owner: 1 }];
    let mut players = vec![PlayerCombat { id: 1, team_id: "a".to_string(), gold: 0 }];
    let mut victims = vec![SwordVictim {
        id: 2,
        team_id: "b".to_string(),
        health: Health::new(10_000),
        rewards: None,
    }];
    let events = vec![CollisionEvent::Started(10, 2)];
    check_collisions_sword(&events, &swords, &mut players, &mut victims);
    assert!(victims[0].health.value == 0);
    assert_eq!(players[0].gold, 0);
}

#[test]
fn non_killing_blow_pays_nothing() {
    let swords = vec![SwordRef { id: 10, owner: 1 }];
    let mut players = vec![PlayerCombat { id: 1, team_id: "a".to_string(), gold: 0 }];
    let mut victims = vec![SwordVictim {
        id: 2,
        team_id: "b".to_string(),
        health: Health::new(100_000),
        rewards: Some(1_000),
    }];
    let events = vec![CollisionEvent::Started(10, 2)];
    check_collisions_sword(&events, &swords, &mut players, &mut victims);
    assert_eq!(victims[0].health.value, 80_000);
    assert_eq!(players[0].gold, 0);
}

#[test]
fn decay_wears_minions_down() {
    let mut healths = vec![Health::new(20_000), Health::new(5_000)];
    decay_life(&mut healths, 1_000);
    assert_eq!(healths[0].value, 10_000);
    assert_eq!(healths[1].value, 0);
}

#[test]
fn swing_respects_the_cooldown() {
    let mut p = Player::new();
    let first = try_swing_sword(&mut p, 42);
    assert!(first.is_some());
    assert_eq!(first.unwrap().sword.entity, 42);
    // the cooldown was just reset: an immediate second swing is refused
    assert!(try_swing_sword(&mut p, 42).is_none());
    let mut players = vec![p];
    update_cooldowns(&mut players, 300);
    let mut p = players.pop().unwrap();
    assert!(try_swing_sword(&mut p, 42).is_some());
}

#[test]
fn buying_racks_spends_gold_until_it_runs_out() {
    let mut p = Player::new();
    assert_eq!(p.gold, 20_000);
    let t = team("a");
    let pos = Vec3i::new(0, 0, 0);
    assert!(try_buy_rack(&mut p, &t, &pos).is_some());
    assert_eq!(p.gold, 10_000);
    assert!(try_buy_rack(&mut p, &t, &pos).is_some());
    assert_eq!(p.gold, 0);
    assert!(try_buy_rack(&mut p, &t, &pos).is_none());
    assert_eq!(p.gold, 0);
}

#[test]
fn held_keys_move_the_player_and_opposites_cancel() {
    let mut pos = Vec3i::new(0, 0, 5);
    // a full second of holding right and up: one JOYSTICK_SCALE each way
    keyboard_movements(&mut pos, false, true, false, true, 1_000);
    assert_eq!(pos, Vec3i { x: 200_000, y: 200_000, z: 5 });
    keyboard_movements(&mut pos, true, true, true, false, 1_000);
    assert_eq!(pos, Vec3i { x: 200_000, y: 0, z: 5 });
    keyboard_movements(&mut pos, false, false, false, false, 1_000);
    assert_eq!(pos, Vec3i { x: 200_000, y: 0, z: 5 });
}

#[test]
fn swords_expire_after_their_lifetime() {
    let bundle = game::player::SwordBundle::new(1);
    let mut swords = vec![SwordEntity { id: 50, sword: bundle.sword }];
    assert!(update_sword(&mut swords, 100).is_empty());
    assert_eq!(update_sword(&mut swords, 100), vec![50u64]);
    assert!(update_sword(&mut swords, 100).is_empty());
}
