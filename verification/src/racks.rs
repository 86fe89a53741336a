//! Racks: timer-driven minion spawners.
//!
//! A rack cycles between idle and bursting. Its repeat timer triggers a
//! burst: the spawned-this-burst counter resets and spawning turns on.
//! While spawning, each completion of the faster intra-burst timer
//! produces exactly one minion beside the rack, until `burst` minions are
//! out and spawning turns off. Both timers advance every tick, bursting
//! or not, so bursts never stretch the repeat cadence.

use vstd::prelude::*;
use crate::common::{in_world, Rewards, Vec2i, Vec3i};
use crate::health::Health;
use crate::minions::{MinionBundle, MINION_HEALTH, REWARDS_GOLD};
use crate::rng::{coin_flip, spawn_jitter, SPAWN_JITTER_MAX, SPAWN_JITTER_MIN};
use crate::teams::Team;
use crate::timer::{spec_tick, Timer, TimerMode, MAX_TICK_MS};

verus! {

/// What a rack costs a player to place, in milli-gold.
pub const RACK_GOLD_VALUE: i64 = 10_000;

/// The spawner state machine shared by racks and castles.
pub struct Rack {
    /// Repeating: each completion triggers a burst.
    pub minion_spawn_timer: Timer,
    /// Repeating: while bursting, each completion gates one spawn.
    pub minion_spawn_timer_q: Timer,
    /// Burst size: how many minions one burst produces.
    pub minion_spawn_count: u32,
    /// How many minions the current burst has produced so far.
    pub minion_spawned_count: u32,
    /// Whether a burst is underway.
    pub minion_spawning: bool,
}

impl Rack {
    /// The burst counter never passes the burst size, and mid-burst it
    /// has room left — bursts end the moment they complete.
    pub open spec fn wf(self) -> bool {
        &&& self.minion_spawn_timer.wf()
        &&& self.minion_spawn_timer_q.wf()
        &&& self.minion_spawn_count >= 1
        &&& self.minion_spawned_count <= self.minion_spawn_count
        &&& (self.minion_spawning ==> self.minion_spawned_count < self.minion_spawn_count)
    }
}

/// The rack's state once both of its timers have advanced by `delta`.
pub open spec fn spec_rack_after_timers(r: Rack, delta: int) -> Rack {
    Rack {
        minion_spawn_timer: spec_tick(r.minion_spawn_timer, delta),
        minion_spawn_timer_q: spec_tick(r.minion_spawn_timer_q, delta),
        ..r
    }
}

/// A completed repeat timer starts a new burst: the counter resets even
/// if an earlier burst was still underway.
pub open spec fn spec_rack_after_trigger(r: Rack) -> Rack {
    if r.minion_spawn_timer.just_finished {
        Rack { minion_spawned_count: 0, minion_spawning: true, ..r }
    } else {
        r
    }
}

/// Whether this tick produces a minion: a burst is underway, the
/// intra-burst timer just completed, the burst has room, and the rack's
/// collider exposes the half-extents the offset is computed from.
pub open spec fn spec_rack_spawn_ready(r: Rack, has_extents: bool) -> bool {
    r.minion_spawning && r.minion_spawn_timer_q.just_finished && r.minion_spawned_count
        < r.minion_spawn_count && has_extents
}

/// The rack's state after producing one minion: the counter advances,
/// and a completed burst switches spawning off.
pub open spec fn spec_rack_after_spawn(r: Rack) -> Rack {
    let c = (r.minion_spawned_count + 1) as u32;
    Rack { minion_spawned_count: c, minion_spawning: c < r.minion_spawn_count, ..r }
}

/// One full spawner tick over the rack's own state. The state after the
/// tick is a function of the state before it; only the spawned minion's
/// position is randomized.
pub open spec fn spec_rack_step(r: Rack, delta: int, has_extents: bool) -> Rack {
    let a = spec_rack_after_trigger(spec_rack_after_timers(r, delta));
    if spec_rack_spawn_ready(a, has_extents) {
        spec_rack_after_spawn(a)
    } else {
        a
    }
}

/// One spawner tick keeps the rack well formed: in particular the burst
/// counter never passes the burst size.
pub proof fn lemma_rack_step_wf(r: Rack, delta: int, has_extents: bool)
    requires
        r.wf(),
        delta >= 0,
    ensures
        spec_rack_step(r, delta, has_extents).wf(),
{
    crate::timer::lemma_spec_tick_wf(r.minion_spawn_timer, delta);
    crate::timer::lemma_spec_tick_wf(r.minion_spawn_timer_q, delta);
}

/// A rack's state after a whole run of spawner ticks, each an elapsed
/// time and whether the collider's extents were available that tick.
pub open spec fn spec_rack_run(r: Rack, ticks: Seq<(u64, bool)>) -> Rack
    decreases ticks.len(),
{
    if ticks.len() == 0 {
        r
    } else {
        spec_rack_step(
            spec_rack_run(r, ticks.drop_last()),
            ticks.last().0 as int,
            ticks.last().1,
        )
    }
}

/// Across any run of spawner ticks — however the repeat and intra-burst
/// timers interleave, and even when the repeat timer completes again
/// before a burst finishes — the rack stays well formed, so the burst
/// counter never exceeds the burst size.
pub proof fn lemma_rack_run_wf(r: Rack, ticks: Seq<(u64, bool)>)
    requires
        r.wf(),
    ensures
        spec_rack_run(r, ticks).wf(),
        spec_rack_run(r, ticks).minion_spawned_count <= spec_rack_run(r, ticks).minion_spawn_count,
    decreases ticks.len(),
{
    if ticks.len() > 0 {
        lemma_rack_run_wf(r, ticks.drop_last());
        lemma_rack_step_wf(
            spec_rack_run(r, ticks.drop_last()),
            ticks.last().0 as int,
            ticks.last().1,
        );
    }
}

/// How often the intra-burst timer completes along a run of spawner
/// ticks.
pub open spec fn spec_rack_q_fires(r: Rack, ticks: Seq<(u64, bool)>) -> int
    decreases ticks.len(),
{
    if ticks.len() == 0 {
        0
    } else {
        let prev = spec_rack_run(r, ticks.drop_last());
        spec_rack_q_fires(r, ticks.drop_last()) + if spec_tick(
            prev.minion_spawn_timer_q,
            ticks.last().0 as int,
        ).just_finished {
            1int
        } else {
            0int
        }
    }
}

/// How many minions a run of spawner ticks produces.
pub open spec fn spec_rack_spawns(r: Rack, ticks: Seq<(u64, bool)>) -> int
    decreases ticks.len(),
{
    if ticks.len() == 0 {
        0
    } else {
        let prev = spec_rack_run(r, ticks.drop_last());
        spec_rack_spawns(r, ticks.drop_last()) + if spec_rack_spawn_ready(
            spec_rack_after_trigger(spec_rack_after_timers(prev, ticks.last().0 as int)),
            ticks.last().1,
        ) {
            1int
        } else {
            0int
        }
    }
}

/// The repeat timer never completes along the run: no new burst is
/// triggered.
pub open spec fn spec_no_retrigger(r: Rack, ticks: Seq<(u64, bool)>) -> bool {
    forall|i: int|
        0 <= i < ticks.len() ==> !spec_tick(
            spec_rack_run(r, #[trigger] ticks.take(i)).minion_spawn_timer,
            ticks[i].0 as int,
        ).just_finished
}

/// Burst completeness, in general. From a bursting rack, along any run
/// of ticks in which the collider's extents are available and the repeat
/// timer does not complete again, the burst counter tracks the
/// intra-burst completions exactly: with `m` completions the counter
/// stands at `min(burst size, start + m)`, the rack is bursting exactly
/// while that is short of the burst size, and the number of minions
/// spawned equals the counter's advance. In particular, once the
/// intra-burst timer has completed `size - start` times, exactly that
/// many minions are out and the burst is over.
pub proof fn lemma_burst_completes(r: Rack, ticks: Seq<(u64, bool)>)
    requires
        r.wf(),
        r.minion_spawning,
        forall|i: int| 0 <= i < ticks.len() ==> (#[trigger] ticks[i]).1,
        spec_no_retrigger(r, ticks),
    ensures
        ({
            let rf = spec_rack_run(r, ticks);
            let m = spec_rack_q_fires(r, ticks);
            &&& rf.minion_spawn_count == r.minion_spawn_count
            &&& rf.minion_spawned_count == vstd::math::min(
                r.minion_spawn_count as int,
                r.minion_spawned_count + m,
            )
            &&& rf.minion_spawning == (r.minion_spawned_count + m < r.minion_spawn_count)
            &&& spec_rack_spawns(r, ticks) == rf.minion_spawned_count - r.minion_spawned_count
        }),
    decreases ticks.len(),
{
    if ticks.len() > 0 {
        let pre = ticks.drop_last();
        assert forall|i: int| 0 <= i < pre.len() implies (#[trigger] pre[i]).1 by {
            assert(pre[i] == ticks[i]);
        }
        assert forall|i: int|
            0 <= i < pre.len() implies !spec_tick(
                spec_rack_run(r, #[trigger] pre.take(i)).minion_spawn_timer,
                pre[i].0 as int,
            ).just_finished by {
            assert(pre.take(i) =~= ticks.take(i));
            assert(pre[i] == ticks[i]);
        }
        lemma_burst_completes(r, pre);
        lemma_rack_run_wf(r, pre);
        let r1 = spec_rack_run(r, pre);
        let d = ticks.last().0 as int;
        assert(ticks.take(ticks.len() - 1) =~= pre);
        assert(!spec_tick(r1.minion_spawn_timer, d).just_finished);
        assert(ticks[ticks.len() - 1] == ticks.last());
        assert(ticks.last().1);
    }
}

/// An offset lies one jitter beyond the extent `ext`, on either side.
pub open spec fn spec_offset_in_range(offset: int, ext: int) -> bool {
    ||| ext + SPAWN_JITTER_MIN <= offset < ext + SPAWN_JITTER_MAX
    ||| ext + SPAWN_JITTER_MIN <= -offset < ext + SPAWN_JITTER_MAX
}

/// One spawner tick for one rack standing at `position` for `team`.
/// The rack's counters and timers move exactly as `spec_rack_step` says;
/// when the tick produces a minion, the minion is a fresh bundle of the
/// rack's team, placed one jitter beyond the collider's edge.
pub fn spawn_minions(
    rack: &mut Rack,
    position: &Vec3i,
    team: &Team,
    collider_half_extents: Option<Vec2i>,
    delta_ms: u64,
) -> (spawned: Option<MinionBundle>)
    requires
        old(rack).wf(),
        delta_ms <= MAX_TICK_MS,
        in_world(*position),
        collider_half_extents matches Some(e) ==> 0 <= e.x <= 1_000_000 && 0 <= e.y <= 1_000_000,
    ensures
        *final(rack) == spec_rack_step(
            *old(rack),
            delta_ms as int,
            collider_half_extents is Some,
        ),
        final(rack).wf(),
        spawned is Some == spec_rack_spawn_ready(
            spec_rack_after_trigger(spec_rack_after_timers(*old(rack), delta_ms as int)),
            collider_half_extents is Some,
        ),
        match spawned {
            Some(b) => {
                &&& !b.minion.had_exploded
                &&& b.health.wf()
                &&& b.health.value == MINION_HEALTH
                &&& b.rewards.gold == REWARDS_GOLD
                &&& b.team == *team
                &&& b.position.z == position.z
                &&& spec_offset_in_range(
                    b.position.x - position.x,
                    collider_half_extents.unwrap().x as int,
                )
                &&& spec_offset_in_range(
                    b.position.y - position.y,
                    collider_half_extents.unwrap().y as int,
                )
                &&& b.timer_destroyable.wf()
            },
            None => true,
        },
{
    rack.minion_spawn_timer_q.tick(delta_ms);
    rack.minion_spawn_timer.tick(delta_ms);

    if rack.minion_spawn_timer.just_finished() {
        rack.minion_spawned_count = 0;
        rack.minion_spawning = true;
    }

    let mut spawned: Option<MinionBundle> = None;
    if rack.minion_spawning && rack.minion_spawn_timer_q.just_finished()
        && rack.minion_spawned_count < rack.minion_spawn_count {
        match collider_half_extents {
            Some(extents) => {
                let mut offset_x = extents.x + spawn_jitter();
                let mut offset_y = extents.y + spawn_jitter();
                if coin_flip() {
                    offset_x = -offset_x;
                }
                if coin_flip() {
                    offset_y = -offset_y;
                }
                let translation = Vec3i::new(
                    position.x + offset_x,
                    position.y + offset_y,
                    position.z,
                );
                spawned = Some(MinionBundle::new(translation, team.clone()));
                rack.minion_spawned_count = rack.minion_spawned_count + 1;
                if rack.minion_spawned_count >= rack.minion_spawn_count {
                    rack.minion_spawning = false;
                }
            },
            None => {},
        }
    }
    spawned
}

/// Everything a freshly placed rack carries.
pub struct RackBundle {
    pub team: Team,
    pub rack: Rack,
    pub health: Health,
    pub rewards: Rewards,
    pub position: Vec3i,
    /// Half-extents of the rack's square collider, which spawned minions
    /// are offset past.
    pub collider_half_extents: Vec2i,
}

/// The rack bundle placed for `team` at `position`: bursts of five
/// minions every 1.5 s, one every 0.2 s, with the repeat timer started
/// two thirds through so the first burst comes early.
pub open spec fn spec_rack_bundle(team: Team, position: Vec3i) -> RackBundle {
    RackBundle {
        team,
        rack: Rack {
            minion_spawn_timer: Timer {
                duration_ms: 1_500,
                elapsed_ms: 1_000,
                mode: TimerMode::Repeating,
                just_finished: false,
            },
            minion_spawn_timer_q: Timer {
                duration_ms: 200,
                elapsed_ms: 0,
                mode: TimerMode::Repeating,
                just_finished: false,
            },
            minion_spawn_count: 5,
            minion_spawned_count: 0,
            minion_spawning: false,
        },
        health: Health {
            value: 220_000,
            max: 220_000,
            add_health_bar: true,
            health_bar_position: Some(Vec3i { x: 0, y: 20_000, z: 0 }),
            health_bar_size: Some(Vec2i { x: 20_000, y: 5_000 }),
        },
        rewards: Rewards { gold: 100_000 },
        position,
        collider_half_extents: Vec2i { x: 9_800, y: 9_800 },
    }
}

impl RackBundle {
    /// A fresh rack: exactly `spec_rack_bundle` of its team and position.
    pub fn new(team: Team, position: Vec3i) -> (r: RackBundle)
        ensures
            r == spec_rack_bundle(team, position),
            r.rack == (Rack {
                minion_spawn_timer: Timer {
                    duration_ms: 1_500,
                    elapsed_ms: 1_000,
                    mode: TimerMode::Repeating,
                    just_finished: false,
                },
                minion_spawn_timer_q: Timer {
                    duration_ms: 200,
                    elapsed_ms: 0,
                    mode: TimerMode::Repeating,
                    just_finished: false,
                },
                minion_spawn_count: 5,
                minion_spawned_count: 0,
                minion_spawning: false,
            }),
            r.rack.wf(),
            r.team == team,
            r.position == position,
            r.health.wf(),
            r.health.value == 220_000,
            r.health.max == 220_000,
            r.health.health_bar_position == Some(Vec3i { x: 0, y: 20_000, z: 0 }),
            r.health.health_bar_size == Some(Vec2i { x: 20_000, y: 5_000 }),
            r.rewards.gold == 100_000,
            r.collider_half_extents == (Vec2i { x: 9_800, y: 9_800 }),
    {
        let mut minion_spawn_timer = Timer::from_millis(1_500, TimerMode::Repeating);
        minion_spawn_timer.set_elapsed(1_000);
        RackBundle {
            team,
            rack: Rack {
                minion_spawning: false,
                minion_spawned_count: 0,
                minion_spawn_count: 5,
                minion_spawn_timer,
                minion_spawn_timer_q: Timer::from_millis(200, TimerMode::Repeating),
            },
            health: Health::new(220_000)
                .with_health_bar_position(Vec3i::new(0, 20_000, 0))
                .with_health_bar_size(Vec2i::new(20_000, 5_000)),
            rewards: Rewards { gold: 100_000 },
            position,
            collider_half_extents: Vec2i::new(9_800, 9_800),
        }
    }
}

/// A spawner structure as the culling pass sees it.
pub struct RackVitals {
    pub id: u64,
    pub health: Health,
}

/// The identifiers of the structures to cull: those out of health.
pub open spec fn spec_dead_ids(s: Seq<RackVitals>) -> Seq<u64>
    decreases s.len(),
{
    if s.len() == 0 {
        Seq::empty()
    } else {
        let prev = spec_dead_ids(s.drop_last());
        if s.last().health.value <= 0 {
            prev.push(s.last().id)
        } else {
            prev
        }
    }
}

/// One culling pass over spawner structures: the dead ones to despawn.
pub fn destroy(racks: &Vec<RackVitals>) -> (r: Vec<u64>)
    ensures
        r@ == spec_dead_ids(racks@),
{
    let mut r: Vec<u64> = Vec::new();
    let n = racks.len();
    let mut i: usize = 0;
    proof {
        assert(racks@.take(0) =~= Seq::<RackVitals>::empty());
    }
    while i < n
        invariant
            n == racks@.len(),
            0 <= i <= n,
            r@ == spec_dead_ids(racks@.take(i as int)),
        decreases n - i,
    {
        proof {
            assert(racks@.take(i + 1).drop_last() =~= racks@.take(i as int));
            assert(racks@.take(i + 1).last() == racks@[i as int]);
        }
        if racks[i].health.is_dead() {
            r.push(racks[i].id);
        }
        i = i + 1;
    }
    proof {
        assert(racks@.take(n as int) =~= racks@);
    }
    r
}

} // verus!
