use game::common::{Vec2i, Vec3i};
use game::health::{
    add_health_bars, clear_orphans_healthbars, update_health_bar_position,
    update_health_bar_visual, BarEntity, Health, HealthBar, HealthBarBundle, HealthOwner,
};

#[test]
fn hit_sequence_is_monotone_and_clamped() {
    let mut h = Health::new(100_000);
    let mut prev = h.value;
    for amount in [5_000i64, 0, 70_000, 40_000, 3_000] {
        h.hit(amount);
        assert!(h.value <= prev);
        assert!(0 <= h.value && h.value <= h.max);
        prev = h.value;
    }
    assert_eq!(h.value, 0);
}

#[test]
fn negative_hit_is_a_no_op() {
    let mut h = Health::new(50_000);
    h.hit(-5);
    assert_eq!(h.value, 50_000);
    h.hit(-1_000_000);
    assert_eq!(h.value, 50_000);
}

#[test]
fn hit_clamps_at_zero_not_below() {
    let mut h = Health::new(10_000);
    h.hit(25_000);
    assert_eq!(h.value, 0);
    h.hit(5_000);
    assert_eq!(h.value, 0);
}

#[test]
fn is_dead_iff_value_at_zero() {
    let mut h = Health::new(20_000);
    assert!(!h.is_dead());
    h.hit(19_999);
    assert!(!h.is_dead());
    h.hit(1);
    assert!(h.is_dead());
}

#[test]
fn health_builders_record_bar_layout() {
    let h = Health::new(100)
        .with_health_bar_position(Vec3i::new(0, 40_000, 100))
        .with_health_bar_size(Vec2i::new(50_000, 5_000));
    assert_eq!(h.health_bar_position, Some(Vec3i { x: 0, y: 40_000, z: 100 }));
    assert_eq!(h.health_bar_size, Some(Vec2i { x: 50_000, y: 5_000 }));
    assert!(h.add_health_bar);
}

#[test]
fn add_health_bars_spawns_once_per_owner() {
    let mut owners = vec![
        HealthOwner {
            id: 1,
            health: Health::new(100_000)
                .with_health_bar_position(Vec3i::new(0, 40_000, 100))
                .with_health_bar_size(Vec2i::new(50_000, 5_000)),
        },
        HealthOwner { id: 2, health: Health::new(20_000) },
    ];
    let bars = add_health_bars(&mut owners);
    assert_eq!(bars.len(), 2);
    assert_eq!(bars[0].health_bar.entity, 1);
    assert_eq!(bars[0].health_bar.translation, Vec3i { x: 0, y: 40_000, z: 100 });
    assert_eq!(bars[0].health_bar.size, Vec2i { x: 50_000, y: 5_000 });
    // the second owner recorded no layout, so it gets the stock one
    assert_eq!(bars[1].health_bar.translation, Vec3i { x: 0, y: 15_000, z: 100 });
    assert_eq!(bars[1].health_bar.size, Vec2i { x: 10_000, y: 5_000 });
    assert!(!bars[0].visible && !bars[1].visible);
    // flags are cleared: a second pass spawns nothing
    let again = add_health_bars(&mut owners);
    assert!(again.is_empty());
}

#[test]
fn orphan_bars_are_collected() {
    let bars = vec![
        BarEntity {
            id: 9,
            health_bar: HealthBar {
                entity: 2,
                translation: Vec3i::new(0, 0, 0),
                size: Vec2i::new(1, 1),
            },
        },
        BarEntity {
            id: 10,
            health_bar: HealthBar {
                entity: 3,
                translation: Vec3i::new(0, 0, 0),
                size: Vec2i::new(1, 1),
            },
        },
    ];
    let owner_ids = vec![3u64];
    let orphans = clear_orphans_healthbars(&bars, &owner_ids);
    assert_eq!(orphans, vec![9u64]);
    let none = clear_orphans_healthbars(&bars, &vec![2u64, 3u64]);
    assert!(none.is_empty());
}

#[test]
fn bar_follows_owner_and_shows() {
    let bar = HealthBar {
        entity: 1,
        translation: Vec3i::new(0, 15_000, 100),
        size: Vec2i::new(10_000, 5_000),
    };
    let mut pos = Vec3i::new(0, 0, 0);
    let mut visible = false;
    let owner_pos = Vec3i::new(7_000, -2_000, 0);
    update_health_bar_position(&bar, Some(&owner_pos), &mut pos, &mut visible);
    assert_eq!(pos, Vec3i { x: 7_000, y: 13_000, z: 100 });
    assert!(visible);
    // a missing owner leaves the bar alone
    let before = pos;
    update_health_bar_position(&bar, None, &mut pos, &mut visible);
    assert_eq!(pos, before);
}

#[test]
fn bar_width_scales_with_health_left() {
    let mut h = Health::new(20_000);
    h.hit(10_000);
    let size = update_health_bar_visual(&h, &Vec2i::new(10_000, 5_000));
    assert_eq!(size, Vec2i { x: 5_000, y: 5_000 });
    h.hit(10_000);
    let size = update_health_bar_visual(&h, &Vec2i::new(10_000, 5_000));
    assert_eq!(size, Vec2i { x: 0, y: 5_000 });
}

#[test]
fn new_bundle_starts_hidden() {
    let b = HealthBarBundle::new(4, Vec3i::new(0, 1, 2), Vec2i::new(3, 4));
    assert_eq!(b.health_bar.entity, 4);
    assert!(!b.visible);
}
