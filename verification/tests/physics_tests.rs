use game::physics::{CollisionEvent, Collisions, EntityPair};
use game::rng::rng_seed;
use game::teams::Teams;

#[test]
fn entity_pair_normalizes_its_order() {
    let p = EntityPair::new(5, 3);
    assert_eq!(p.entity1, 3);
    assert_eq!(p.entity2, 5);
}

#[test]
fn entity_pairs_compare_as_unordered() {
    let a = EntityPair { entity1: 1, entity2: 2 };
    let b = EntityPair { entity1: 2, entity2: 1 };
    assert!(a == b);
    let c = EntityPair { entity1: 1, entity2: 3 };
    assert!(a != c);
}

#[test]
fn collisions_track_pairs_as_a_set() {
    let mut c = Collisions::new();
    let p = EntityPair::new(1, 2);
    assert!(!c.contains(&p));
    c.add(p);
    assert!(c.contains(&p));
    assert!(c.contains(&EntityPair { entity1: 2, entity2: 1 }));
    // adding the same unordered pair again keeps the set a set
    c.add(EntityPair::new(2, 1));
    assert_eq!(c.pairs.len(), 1);
    c.remove(&p);
    assert!(!c.contains(&p));
    assert_eq!(c.pairs.len(), 0);
}

#[test]
fn collision_events_compare_by_role_and_pair() {
    assert_eq!(CollisionEvent::Started(1, 2), CollisionEvent::Started(1, 2));
    assert_ne!(CollisionEvent::Started(1, 2), CollisionEvent::Stopped(1, 2));
}

#[test]
fn teams_register_and_look_up_by_id() {
    let teams = Teams::new();
    assert!(teams.get("a".to_string()).is_some());
    assert_eq!(teams.get("b".to_string()).unwrap().id, "b");
    assert!(teams.get("zz".to_string()).is_none());
    let t = teams.get_expect("c".to_string());
    assert_eq!(t.id, "c");
}

#[test]
fn added_teams_are_found() {
    let mut teams = Teams::new();
    let d = game::teams::Team {
        id: "d".to_string(),
        color: game::teams::Color { r: 1, g: 2, b: 3 },
    };
    teams.add(d);
    assert_eq!(teams.get("d".to_string()).unwrap().color.r, 1);
}

#[test]
fn re_adding_a_team_overwrites_it() {
    let mut teams = Teams::new();
    teams.add(game::teams::Team {
        id: "a".to_string(),
        color: game::teams::Color { r: 7, g: 8, b: 9 },
    });
    // the id now looks up the new team, and the others are untouched
    assert_eq!(teams.get("a".to_string()).unwrap().color.r, 7);
    assert_eq!(teams.get("b".to_string()).unwrap().color.r, 800);
    assert_eq!(teams.teams.len(), 3);
}

#[test]
fn rng_seed_is_the_digest_of_the_seed_phrase() {
    assert_eq!(rng_seed(), xxhash_rust::xxh3::xxh3_64(b"13U2x"));
    // and in particular not something trivially derived from the bytes
    assert_ne!(rng_seed(), 0);
}
