//! The camera-follow controller.
//!
//! A camera is bound to one target entity. On the target's entry the
//! camera snaps onto it once; afterwards, each tick, the camera stands
//! still while the target stays inside a dead-zone rectangle around it,
//! and otherwise moves just far enough that the target sits on the
//! dead-zone's edge — minimal correction, not full tracking. The camera
//! also keeps a `look_at` point one second of target velocity ahead, for
//! consumers such as a debug overlay; the base controller itself never
//! steers by it.

use vstd::prelude::*;
use crate::common::{in_world, in_world_z, Vec2i, Vec3i, GAME_MAX_HEIGHT, GAME_MAX_WIDTH};
use crate::timer::MAX_TICK_MS;

verus! {

/// Marks an entity a camera may follow.
pub struct Target;

/// Marks the camera subsystem for an engine shell to install.
pub struct CameraPlugin;

/// Marks the camera debug overlay for an engine shell to install.
pub struct CameraDebugPlugin;

/// The debug overlay marker: points at the camera it draws for.
pub struct CameraDebug(pub u64);

/// One camera and its follow state.
pub struct Camera {
    /// The entity this camera follows.
    pub target: u64,
    /// Half-extents of the dead-zone rectangle around the camera.
    pub dead_zone: Vec2i,
    /// Where the target stood last tick, for the velocity estimate.
    pub target_prev_translation: Vec3i,
    /// The target's position plus one second of its velocity.
    pub look_at: Vec3i,
}

impl Camera {
    pub fn new(target: u64, dead_zone: Vec2i) -> (r: Camera)
        ensures
            r.target == target,
            r.dead_zone == dead_zone,
            r.target_prev_translation == (Vec3i { x: 0, y: 0, z: 0 }),
            r.look_at == (Vec3i { x: 0, y: 0, z: 0 }),
    {
        Camera {
            target,
            dead_zone,
            target_prev_translation: Vec3i::new(0, 0, 0),
            look_at: Vec3i::new(0, 0, 0),
        }
    }

    /// A camera with the stock dead-zone of 30 by 15 world units.
    pub fn new_default(target: u64) -> (r: Camera)
        ensures
            r.target == target,
            r.dead_zone == (Vec2i { x: 30_000, y: 15_000 }),
            r.target_prev_translation == (Vec3i { x: 0, y: 0, z: 0 }),
            r.look_at == (Vec3i { x: 0, y: 0, z: 0 }),
    {
        Camera::new(target, Vec2i::new(30_000, 15_000))
    }
}

/// Snap the camera straight onto its target, with no smoothing: runs
/// once, when the target enters. A camera bound to some other entity
/// ignores the call.
pub fn center(camera: &mut Camera, camera_pos: &mut Vec3i, target_id: u64, target_pos: &Vec3i)
    ensures
        old(camera).target != target_id ==> *final(camera) == *old(camera) && *final(camera_pos)
            == *old(camera_pos),
        old(camera).target == target_id ==> {
            &&& *final(camera_pos) == (Vec3i { x: target_pos.x, y: target_pos.y, ..*old(
                camera_pos,
            ) })
            &&& *final(camera) == (Camera {
                target_prev_translation: *target_pos,
                look_at: *target_pos,
                ..*old(camera)
            })
        },
{
    if camera.target == target_id {
        camera_pos.x = target_pos.x;
        camera_pos.y = target_pos.y;
        camera.target_prev_translation = *target_pos;
        camera.look_at = *target_pos;
    }
}

/// One axis of target velocity, in milli-units per second: the position
/// difference scaled to a full second, rounded toward zero.
pub open spec fn spec_velocity_axis(cur: int, prev: int, delta_ms: int) -> int {
    let d = cur - prev;
    if d >= 0 {
        d * 1000 / delta_ms
    } else {
        -((-d) * 1000 / delta_ms)
    }
}

/// The look-at point: the target's position plus one second of its
/// estimated velocity, per axis.
pub open spec fn spec_look_at(cur: Vec3i, prev: Vec3i, delta_ms: int) -> Vec3i {
    Vec3i {
        x: (cur.x + spec_velocity_axis(cur.x as int, prev.x as int, delta_ms)) as i64,
        y: (cur.y + spec_velocity_axis(cur.y as int, prev.y as int, delta_ms)) as i64,
        z: (cur.z + spec_velocity_axis(cur.z as int, prev.z as int, delta_ms)) as i64,
    }
}

/// One axis of the dead-zone correction: inside the dead-zone the camera
/// stays; outside it moves so the target sits exactly on the dead-zone
/// edge it left through.
pub open spec fn spec_follow_axis(cam: int, tgt: int, dz: int) -> int {
    let diff = cam - tgt;
    if diff > dz {
        tgt + dz
    } else if -diff > dz {
        tgt - dz
    } else {
        cam
    }
}

fn velocity_axis(cur: i64, prev: i64, delta_ms: u64) -> (r: i64)
    requires
        -GAME_MAX_WIDTH <= cur <= GAME_MAX_WIDTH,
        -GAME_MAX_WIDTH <= prev <= GAME_MAX_WIDTH,
        0 < delta_ms,
    ensures
        r == spec_velocity_axis(cur as int, prev as int, delta_ms as int),
        -4_000_000_000 <= r <= 4_000_000_000,
{
    let d = cur - prev;
    let du: u64 = if d >= 0 { d as u64 } else { (-d) as u64 };
    let scaled = du * 1000;
    let q = scaled / delta_ms;
    proof {
        assert(q <= scaled) by (nonlinear_arith)
            requires
                q == scaled / delta_ms,
                delta_ms >= 1u64,
        ;
    }
    if d >= 0 { q as i64 } else { -(q as i64) }
}

/// One follow tick for one camera against its target's current position.
/// The camera corrects per axis only past the dead-zone; the velocity
/// estimate is skipped when no time has passed; and the previous-position
/// bookkeeping always advances. A camera bound to another entity ignores
/// the call.
pub fn cameraman(
    camera: &mut Camera,
    camera_pos: &mut Vec3i,
    target_id: u64,
    target_pos: &Vec3i,
    delta_ms: u64,
)
    requires
        in_world_z(*target_pos),
        in_world_z(old(camera).target_prev_translation),
        in_world(*old(camera_pos)),
        0 <= old(camera).dead_zone.x <= GAME_MAX_WIDTH,
        0 <= old(camera).dead_zone.y <= GAME_MAX_HEIGHT,
        delta_ms <= MAX_TICK_MS,
    ensures
        old(camera).target != target_id ==> *final(camera) == *old(camera) && *final(camera_pos)
            == *old(camera_pos),
        old(camera).target == target_id ==> {
            &&& *final(camera) == (Camera {
                target_prev_translation: *target_pos,
                look_at: if delta_ms == 0 {
                    old(camera).look_at
                } else {
                    spec_look_at(
                        *target_pos,
                        old(camera).target_prev_translation,
                        delta_ms as int,
                    )
                },
                ..*old(camera)
            })
            &&& *final(camera_pos) == (Vec3i {
                x: spec_follow_axis(
                    old(camera_pos).x as int,
                    target_pos.x as int,
                    old(camera).dead_zone.x as int,
                ) as i64,
                y: spec_follow_axis(
                    old(camera_pos).y as int,
                    target_pos.y as int,
                    old(camera).dead_zone.y as int,
                ) as i64,
                z: old(camera_pos).z,
            })
        },
{
    if camera.target != target_id {
        return;
    }

    if delta_ms > 0 {
        let vx = velocity_axis(target_pos.x, camera.target_prev_translation.x, delta_ms);
        let vy = velocity_axis(target_pos.y, camera.target_prev_translation.y, delta_ms);
        let vz = velocity_axis(target_pos.z, camera.target_prev_translation.z, delta_ms);
        camera.look_at = Vec3i::new(target_pos.x + vx, target_pos.y + vy, target_pos.z + vz);
    }
    camera.target_prev_translation = *target_pos;

    let diff_x = camera_pos.x - target_pos.x;
    if diff_x > camera.dead_zone.x {
        camera_pos.x = target_pos.x + camera.dead_zone.x;
    } else if -diff_x > camera.dead_zone.x {
        camera_pos.x = target_pos.x - camera.dead_zone.x;
    }

    let diff_y = camera_pos.y - target_pos.y;
    if diff_y > camera.dead_zone.y {
        camera_pos.y = target_pos.y + camera.dead_zone.y;
    } else if -diff_y > camera.dead_zone.y {
        camera_pos.y = target_pos.y - camera.dead_zone.y;
    }
}

} // verus!
