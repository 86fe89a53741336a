use game::camera::{cameraman, center, Camera};
use game::common::{Vec2i, Vec3i};

#[test]
fn center_snaps_camera_onto_its_target() {
    let mut cam = Camera::new_default(7);
    let mut pos = Vec3i::new(100_000, 100_000, 999);
    center(&mut cam, &mut pos, 7, &Vec3i::new(-150_000, 0, 0));
    assert_eq!(pos, Vec3i { x: -150_000, y: 0, z: 999 });
    assert_eq!(cam.target_prev_translation, Vec3i { x: -150_000, y: 0, z: 0 });
    assert_eq!(cam.look_at, Vec3i { x: -150_000, y: 0, z: 0 });
}

#[test]
fn center_ignores_other_entities() {
    let mut cam = Camera::new_default(7);
    let mut pos = Vec3i::new(1, 2, 3);
    center(&mut cam, &mut pos, 8, &Vec3i::new(-150_000, 0, 0));
    assert_eq!(pos, Vec3i { x: 1, y: 2, z: 3 });
}

#[test]
fn dead_zone_keeps_the_camera_still_then_minimally_corrects() {
    // dead-zone of (30, 15) world units; target and camera at the origin
    let mut cam = Camera::new(7, Vec2i::new(30_000, 15_000));
    let mut pos = Vec3i::new(0, 0, 0);

    // inside the dead-zone: no camera motion
    cameraman(&mut cam, &mut pos, 7, &Vec3i::new(20_000, 0, 0), 16);
    assert_eq!(pos, Vec3i { x: 0, y: 0, z: 0 });

    // outside: the camera moves so the target sits on the dead-zone edge
    cameraman(&mut cam, &mut pos, 7, &Vec3i::new(50_000, 0, 0), 16);
    assert_eq!(pos, Vec3i { x: 20_000, y: 0, z: 0 });

    // the vertical dead-zone is the narrower one
    cameraman(&mut cam, &mut pos, 7, &Vec3i::new(50_000, 40_000, 0), 16);
    assert_eq!(pos, Vec3i { x: 20_000, y: 25_000, z: 0 });
}

#[test]
fn lookahead_leads_by_one_second_of_velocity() {
    let mut cam = Camera::new_default(7);
    let mut pos = Vec3i::new(0, 0, 0);
    cameraman(&mut cam, &mut pos, 7, &Vec3i::new(1_000, 0, 0), 100);
    // velocity estimate: 1000 milli-units over 0.1 s = 10_000 per second
    assert_eq!(cam.look_at, Vec3i { x: 11_000, y: 0, z: 0 });
    assert_eq!(cam.target_prev_translation, Vec3i { x: 1_000, y: 0, z: 0 });
}

#[test]
fn zero_elapsed_time_skips_the_velocity_estimate() {
    let mut cam = Camera::new_default(7);
    let mut pos = Vec3i::new(0, 0, 0);
    cameraman(&mut cam, &mut pos, 7, &Vec3i::new(5_000, 0, 0), 0);
    // the look-at point is untouched; the bookkeeping still advances
    assert_eq!(cam.look_at, Vec3i { x: 0, y: 0, z: 0 });
    assert_eq!(cam.target_prev_translation, Vec3i { x: 5_000, y: 0, z: 0 });
}

#[test]
fn cameraman_ignores_other_entities() {
    let mut cam = Camera::new_default(7);
    let mut pos = Vec3i::new(0, 0, 0);
    cameraman(&mut cam, &mut pos, 8, &Vec3i::new(900_000, 900_000, 0), 16);
    assert_eq!(pos, Vec3i { x: 0, y: 0, z: 0 });
    assert_eq!(cam.target_prev_translation, Vec3i { x: 0, y: 0, z: 0 });
}
