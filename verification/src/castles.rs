//! Castles: larger spawner structures. A castle runs the same spawner
//! state machine as a rack, with a slower burst cadence, more health and
//! a bigger bounty.

use vstd::prelude::*;
use crate::common::{Rewards, Vec2i, Vec3i};
use crate::health::Health;
use crate::racks::Rack;
use crate::teams::Team;
use crate::timer::{Timer, TimerMode};

verus! {

/// Everything a freshly placed castle carries.
pub struct CastleBundle {
    pub team: Team,
    pub rack: Rack,
    pub health: Health,
    pub rewards: Rewards,
    pub position: Vec3i,
    /// Half-extents of the castle's square collider.
    pub collider_half_extents: Vec2i,
}

impl CastleBundle {
    /// A castle for `team` at `position`: bursts of five minions every
    /// 3 s, one every 0.2 s.
    pub fn new(team: Team, position: Vec3i) -> (r: CastleBundle)
        ensures
            r.rack == (Rack {
                minion_spawn_timer: Timer {
                    duration_ms: 3_000,
                    elapsed_ms: 0,
                    mode: TimerMode::Repeating,
                    just_finished: false,
                },
                minion_spawn_timer_q: Timer {
                    duration_ms: 200,
                    elapsed_ms: 0,
                    mode: TimerMode::Repeating,
                    just_finished: false,
                },
                minion_spawn_count: 5,
                minion_spawned_count: 0,
                minion_spawning: false,
            }),
            r.rack.wf(),
            r.team == team,
            r.position == position,
            r.health.wf(),
            r.health.value == 300_000,
            r.health.max == 300_000,
            r.health.health_bar_position == Some(Vec3i { x: 0, y: 50_000, z: 0 }),
            r.health.health_bar_size == Some(Vec2i { x: 80_000, y: 5_000 }),
            r.rewards.gold == 500_000,
            r.collider_half_extents == (Vec2i { x: 40_000, y: 40_000 }),
    {
        CastleBundle {
            team,
            rack: Rack {
                minion_spawning: false,
                minion_spawned_count: 0,
                minion_spawn_count: 5,
                minion_spawn_timer: Timer::from_millis(3_000, TimerMode::Repeating),
                minion_spawn_timer_q: Timer::from_millis(200, TimerMode::Repeating),
            },
            health: Health::new(300_000)
                .with_health_bar_position(Vec3i::new(0, 50_000, 0))
                .with_health_bar_size(Vec2i::new(80_000, 5_000)),
            rewards: Rewards { gold: 500_000 },
            position,
            collider_half_extents: Vec2i::new(40_000, 40_000),
        }
    }
}

} // verus!
