//! Minions: the transient fighters racks and castles produce.
//!
//! Each tick every minion picks the nearest entity of another team and
//! walks a fixed distance toward it; colliding with an enemy it explodes
//! exactly once; its health decays over time; and it is culled when dead,
//! expired or off the map.

use vstd::prelude::*;
use crate::common::{
    in_world, spec_dist2, spec_isqrt, dist2, isqrt, Rewards, Vec2i, Vec3i, GAME_MAX_HEIGHT,
    GAME_MAX_WIDTH,
};
use crate::health::{spec_hit, Health};
use crate::physics::CollisionEvent;
use crate::teams::Team;
use crate::timer::{Timer, TimerMode, MAX_TICK_MS};

verus! {

/// Speed of a walking minion, in milli-units per second.
pub const MINION_SCALE: i64 = 190_000;

/// A minion that outlives this span is forcibly despawned.
pub const DESTROY_MINIONS_AFTER_MS: u64 = 120_000;

/// Health a minion loses per second merely by existing.
pub const DECAY_VALUE_PER_SEC: i64 = 10_000;

/// Bounty paid for killing a minion, in milli-gold.
pub const REWARDS_GOLD: i64 = 1_000;

/// Health a fresh minion starts with.
pub const MINION_HEALTH: i64 = 20_000;

/// Damage an explosion deals to everything it overlaps.
pub const EXPLOSION_DAMAGE: i64 = 30_000;

/// How long an explosion hitbox lives.
pub const EXPLOSION_LIFETIME_MS: u64 = 200;

/// Per-minion combat state.
pub struct Minion {
    /// A minion detonates at most once; set when it has.
    pub had_exploded: bool,
}

/// Everything a freshly spawned minion carries.
pub struct MinionBundle {
    pub minion: Minion,
    pub health: Health,
    pub rewards: Rewards,
    pub team: Team,
    pub position: Vec3i,
    pub timer_destroyable: Timer,
}

impl MinionBundle {
    pub fn new(translation: Vec3i, team: Team) -> (r: MinionBundle)
        ensures
            !r.minion.had_exploded,
            r.health.wf(),
            r.health.value == MINION_HEALTH,
            r.health.max == MINION_HEALTH,
            r.health.health_bar_position == Some(Vec3i { x: 0, y: 15_000, z: 100 }),
            r.health.health_bar_size == Some(Vec2i { x: 10_000, y: 5_000 }),
            r.rewards.gold == REWARDS_GOLD,
            r.team == team,
            r.position == translation,
            r.timer_destroyable == (Timer {
                duration_ms: DESTROY_MINIONS_AFTER_MS,
                elapsed_ms: 0,
                mode: TimerMode::Once,
                just_finished: false,
            }),
            r.timer_destroyable.wf(),
    {
        MinionBundle {
            minion: Minion { had_exploded: false },
            health: Health::new(MINION_HEALTH)
                .with_health_bar_position(Vec3i::new(0, 15_000, 100))
                .with_health_bar_size(Vec2i::new(10_000, 5_000)),
            rewards: Rewards { gold: REWARDS_GOLD },
            team,
            position: translation,
            timer_destroyable: Timer::from_millis(DESTROY_MINIONS_AFTER_MS, TimerMode::Once),
        }
    }
}

/// The area-damage hitbox a minion leaves when it detonates.
pub struct Explosion {
    pub damage: i64,
}

/// Everything a freshly spawned explosion carries. It lives as a short
/// sensor: entities overlapping it take its damage once per overlap.
pub struct ExplosionBundle {
    pub explosion: Explosion,
    pub team: Team,
    pub position: Vec3i,
    pub timer_destroyable: Timer,
}

/// The explosion bundle spawned at `translation` for `team`: fixed
/// damage, a short one-shot lifetime, and the position lifted above the
/// plane for drawing (`z` does not enter any distance).
pub open spec fn spec_explosion_bundle(translation: Vec3i, team: Team) -> ExplosionBundle {
    ExplosionBundle {
        explosion: Explosion { damage: EXPLOSION_DAMAGE },
        team,
        position: Vec3i { x: translation.x, y: translation.y, z: 10_000 },
        timer_destroyable: Timer {
            duration_ms: EXPLOSION_LIFETIME_MS,
            elapsed_ms: 0,
            mode: TimerMode::Once,
            just_finished: false,
        },
    }
}

impl ExplosionBundle {
    pub fn new(translation: Vec3i, team: Team) -> (r: ExplosionBundle)
        ensures
            r == spec_explosion_bundle(translation, team),
            r.timer_destroyable.wf(),
    {
        ExplosionBundle {
            explosion: Explosion { damage: EXPLOSION_DAMAGE },
            team,
            position: Vec3i::new(translation.x, translation.y, 10_000),
            timer_destroyable: Timer::from_millis(EXPLOSION_LIFETIME_MS, TimerMode::Once),
        }
    }
}

/// One row of the movement system's snapshot: any entity that carries a
/// team tag, minion or not.
pub struct Actor {
    pub id: u64,
    pub position: Vec3i,
    pub team_id: String,
    pub is_minion: bool,
}

/// `j` is a candidate target for `i`: a different entity on another team.
pub open spec fn opposing(s: Seq<Actor>, i: int, j: int) -> bool {
    0 <= j < s.len() && j != i && s[j].team_id@ != s[i].team_id@
}

/// `j` is the target `i` selects: an opposing entity no other opposing
/// entity is strictly closer than, and the first such in scan order when
/// distances tie.
pub open spec fn is_nearest_enemy(s: Seq<Actor>, i: int, j: int) -> bool {
    &&& opposing(s, i, j)
    &&& forall|k: int|
        opposing(s, i, k) ==> spec_dist2(s[i].position, s[j].position) <= spec_dist2(
            s[i].position,
            s[k].position,
        )
    &&& forall|k: int|
        0 <= k < j && opposing(s, i, k) ==> spec_dist2(s[i].position, s[k].position) > spec_dist2(
            s[i].position,
            s[j].position,
        )
}

/// Select the target of the actor at `i`: the nearest entity of another
/// team, ties resolved to the first found. `None` exactly when no other
/// team is represented.
pub fn select_target(actors: &Vec<Actor>, i: usize) -> (r: Option<usize>)
    requires
        i < actors@.len(),
        forall|k: int| 0 <= k < actors@.len() ==> in_world(#[trigger] actors@[k].position),
    ensures
        match r {
            Some(j) => is_nearest_enemy(actors@, i as int, j as int),
            None => forall|j: int| !opposing(actors@, i as int, j),
        },
{
    let n = actors.len();
    let mut best: Option<usize> = None;
    let mut best_d: i64 = 0;
    let mut j: usize = 0;
    while j < n
        invariant
            n == actors@.len(),
            i < n,
            0 <= j <= n,
            forall|k: int| 0 <= k < actors@.len() ==> in_world(#[trigger] actors@[k].position),
            match best {
                None => forall|k: int| 0 <= k < j ==> !opposing(actors@, i as int, k),
                Some(b) => {
                    &&& b < j
                    &&& opposing(actors@, i as int, b as int)
                    &&& best_d == spec_dist2(actors@[i as int].position, actors@[b as int].position)
                    &&& forall|k: int|
                        0 <= k < j && opposing(actors@, i as int, k) ==> spec_dist2(
                            actors@[i as int].position,
                            actors@[k].position,
                        ) >= best_d
                    &&& forall|k: int|
                        0 <= k < b && opposing(actors@, i as int, k) ==> spec_dist2(
                            actors@[i as int].position,
                            actors@[k].position,
                        ) > best_d
                },
            },
        decreases n - j,
    {
        if j != i && !actors[j].team_id.eq(&actors[i].team_id) {
            let d = dist2(&actors[i].position, &actors[j].position);
            match best {
                None => {
                    best = Some(j);
                    best_d = d;
                },
                Some(_) => {
                    if d < best_d {
                        best = Some(j);
                        best_d = d;
                    }
                },
            }
        }
        j = j + 1;
    }
    best
}

/// An actor has at most one nearest enemy: ties go to the first in scan
/// order, so two selected targets must be the same entity.
pub proof fn lemma_nearest_enemy_unique(s: Seq<Actor>, i: int, j1: int, j2: int)
    requires
        is_nearest_enemy(s, i, j1),
        is_nearest_enemy(s, i, j2),
    ensures
        j1 == j2,
{
    if j1 < j2 {
        assert(spec_dist2(s[i].position, s[j1].position) > spec_dist2(s[i].position, s[j2].position));
        assert(spec_dist2(s[i].position, s[j1].position) <= spec_dist2(s[i].position, s[j2].position));
    } else if j2 < j1 {
        assert(spec_dist2(s[i].position, s[j2].position) > spec_dist2(s[i].position, s[j1].position));
        assert(spec_dist2(s[i].position, s[j2].position) <= spec_dist2(s[i].position, s[j1].position));
    }
}

/// Where one step of `MINION_SCALE x dt` toward `target` puts an entity
/// standing at `pos`: the step length is distributed over the planar
/// direction by the integer square root of the squared distance, each
/// axis rounded toward zero, and `z` is preserved. Coincident positions
/// (root zero) do not move.
pub open spec fn spec_move(pos: Vec3i, target: Vec3i, dt_ms: int) -> Vec3i {
    let dx = target.x - pos.x;
    let dy = target.y - pos.y;
    let l = spec_isqrt(dx * dx + dy * dy);
    if l == 0 {
        pos
    } else {
        let step = MINION_SCALE * dt_ms / 1000;
        let mx = if dx >= 0 {
            step * dx / l
        } else {
            -(step * (-dx) / l)
        };
        let my = if dy >= 0 {
            step * dy / l
        } else {
            -(step * (-dy) / l)
        };
        Vec3i { x: (pos.x + mx) as i64, y: (pos.y + my) as i64, z: pos.z }
    }
}

/// Walk one tick's distance from `pos` toward `target`.
pub fn move_toward(pos: Vec3i, target: Vec3i, dt_ms: u64) -> (r: Vec3i)
    requires
        in_world(pos),
        in_world(target),
        dt_ms <= MAX_TICK_MS,
    ensures
        r == spec_move(pos, target, dt_ms as int),
{
    let ghost dxg = target.x - pos.x;
    let ghost dyg = target.y - pos.y;
    let d = dist2(&pos, &target);
    proof {
        assert(d == dxg * dxg + dyg * dyg) by (nonlinear_arith)
            requires
                d == (pos.x - target.x) * (pos.x - target.x) + (pos.y - target.y) * (pos.y
                    - target.y),
                dxg == target.x - pos.x,
                dyg == target.y - pos.y,
        ;
    }
    let l = isqrt(d as u64);
    if l == 0 {
        return pos;
    }
    let scale = MINION_SCALE as u64;
    let step = scale * dt_ms / 1000;
    proof {
        assert(step <= 190_000_000_000) by (nonlinear_arith)
            requires
                step == 190_000u64 * dt_ms / 1000,
                dt_ms <= 1_000_000_000u64,
        ;
        assert(l <= 6_000_000) by (nonlinear_arith)
            requires
                l * l <= 32_000_000_000_000u64,
        ;
    }
    let dx = target.x - pos.x;
    let dy = target.y - pos.y;
    let dxu: u64 = if dx >= 0 { dx as u64 } else { (-dx) as u64 };
    let dyu: u64 = if dy >= 0 { dy as u64 } else { (-dy) as u64 };
    proof {
        assert(step * dxu <= 760_000_000_000_000_000) by (nonlinear_arith)
            requires
                step <= 190_000_000_000u64,
                dxu <= 4_000_000u64,
        ;
        assert(step * dyu <= 760_000_000_000_000_000) by (nonlinear_arith)
            requires
                step <= 190_000_000_000u64,
                dyu <= 4_000_000u64,
        ;
        assert(step * dxu / (l as int) <= step * dxu) by (nonlinear_arith)
            requires
                l >= 1u64,
        ;
        assert(step * dyu / (l as int) <= step * dyu) by (nonlinear_arith)
            requires
                l >= 1u64,
        ;
    }
    let mxu = step * dxu / l;
    let myu = step * dyu / l;
    let mx: i64 = if dx >= 0 { mxu as i64 } else { -(mxu as i64) };
    let my: i64 = if dy >= 0 { myu as i64 } else { -(myu as i64) };
    Vec3i { x: pos.x + mx, y: pos.y + my, z: pos.z }
}

/// What one movement tick leaves in row `i`: non-minions and minions
/// without an enemy stand still, and a minion with a nearest enemy walks
/// one step toward it, everything else about the row unchanged.
pub open spec fn spec_moved_row(s: Seq<Actor>, i: int, dt_ms: int, row: Actor) -> bool {
    &&& (!s[i].is_minion ==> row == s[i])
    &&& ((s[i].is_minion && forall|j: int| !opposing(s, i, j)) ==> row == s[i])
    &&& forall|j: int|
        s[i].is_minion && is_nearest_enemy(s, i, j) ==> row == (Actor {
            position: spec_move(s[i].position, s[j].position, dt_ms),
            ..s[i]
        })
}

/// One movement tick over a snapshot of every team-tagged entity: each
/// minion walks toward the nearest enemy of the positions all held at the
/// start of the tick.
pub fn update_move_minions(actors: &mut Vec<Actor>, dt_ms: u64)
    requires
        forall|k: int|
            0 <= k < old(actors)@.len() ==> in_world(#[trigger] old(actors)@[k].position),
        dt_ms <= MAX_TICK_MS,
    ensures
        final(actors)@.len() == old(actors)@.len(),
        forall|i: int|
            0 <= i < old(actors)@.len() ==> spec_moved_row(
                old(actors)@,
                i,
                dt_ms as int,
                #[trigger] final(actors)@[i],
            ),
{
    let ghost s = actors@;
    let n = actors.len();

    let mut targets: Vec<Option<Vec3i>> = Vec::new();
    let mut i: usize = 0;
    while i < n
        invariant
            actors@ == s,
            n == s.len(),
            forall|k: int| 0 <= k < s.len() ==> in_world(#[trigger] s[k].position),
            0 <= i <= n,
            targets@.len() == i,
            forall|k: int|
                0 <= k < i ==> match #[trigger] targets@[k] {
                    Some(p) => s[k].is_minion && exists|j: int|
                        is_nearest_enemy(s, k, j) && p == s[j].position,
                    None => !s[k].is_minion || forall|j: int| !opposing(s, k, j),
                },
        decreases n - i,
    {
        if actors[i].is_minion {
            match select_target(actors, i) {
                Some(j) => {
                    targets.push(Some(actors[j].position));
                },
                None => {
                    targets.push(None);
                },
            }
        } else {
            targets.push(None);
        }
        i = i + 1;
    }

    let mut k: usize = 0;
    while k < n
        invariant
            n == s.len(),
            actors@.len() == s.len(),
            dt_ms <= MAX_TICK_MS,
            forall|m: int| 0 <= m < s.len() ==> in_world(#[trigger] s[m].position),
            0 <= k <= n,
            targets@.len() == n,
            forall|m: int|
                0 <= m < n ==> match #[trigger] targets@[m] {
                    Some(p) => s[m].is_minion && exists|j: int|
                        is_nearest_enemy(s, m, j) && p == s[j].position,
                    None => !s[m].is_minion || forall|j: int| !opposing(s, m, j),
                },
            forall|m: int| k <= m < n ==> #[trigger] actors@[m] == s[m],
            forall|m: int| 0 <= m < k ==> spec_moved_row(s, m, dt_ms as int, #[trigger] actors@[m]),
        decreases n - k,
    {
        match targets[k] {
            Some(p) => {
                // the stored position was captured before any move, so the
                // step below is computed from the start-of-tick snapshot
                proof {
                    let j0 = choose|j: int| is_nearest_enemy(s, k as int, j) && p == s[j].position;
                    assert(in_world(s[j0].position));
                }
                let newpos = move_toward(actors[k].position, p, dt_ms);
                actors[k].position = newpos;
                proof {
                    let j0 = choose|j: int| is_nearest_enemy(s, k as int, j) && p == s[j].position;
                    assert forall|j: int|
                        s[k as int].is_minion && is_nearest_enemy(s, k as int, j) implies actors@[k as int]
                        == (Actor { position: spec_move(s[k as int].position, s[j].position, dt_ms as int), ..s[k as int] }) by {
                        lemma_nearest_enemy_unique(s, k as int, j, j0);
                    }
                }
            },
            None => {
            },
        }
        k = k + 1;
    }
}

/// One row of the collision resolver's minion store.
pub struct CombatMinion {
    pub id: u64,
    pub position: Vec3i,
    pub team: Team,
    pub had_exploded: bool,
}

/// A non-minion entity carrying a team (structure, player, explosion).
pub struct TeamedEntity {
    pub id: u64,
    pub team_id: String,
}

pub open spec fn unique_minion_ids(s: Seq<CombatMinion>) -> bool {
    forall|i: int, j: int| 0 <= i < j < s.len() ==> #[trigger] s[i].id != #[trigger] s[j].id
}

pub open spec fn unique_teamed_ids(s: Seq<TeamedEntity>) -> bool {
    forall|i: int, j: int| 0 <= i < j < s.len() ==> #[trigger] s[i].id != #[trigger] s[j].id
}

/// The minion and teamed-entity stores describe different entities.
pub open spec fn minion_ids_disjoint(ms: Seq<CombatMinion>, os: Seq<TeamedEntity>) -> bool {
    forall|i: int, j: int|
        0 <= i < ms.len() && 0 <= j < os.len() ==> #[trigger] ms[i].id != #[trigger] os[j].id
}

pub open spec fn spec_find_minion(s: Seq<CombatMinion>, id: u64) -> Option<int> {
    if exists|i: int| 0 <= i < s.len() && s[i].id == id {
        Some(choose|i: int| 0 <= i < s.len() && s[i].id == id)
    } else {
        None
    }
}

pub open spec fn spec_find_teamed(s: Seq<TeamedEntity>, id: u64) -> Option<int> {
    if exists|i: int| 0 <= i < s.len() && s[i].id == id {
        Some(choose|i: int| 0 <= i < s.len() && s[i].id == id)
    } else {
        None
    }
}

/// Index of the minion with identifier `id`, if it is in the store.
pub fn find_minion(s: &Vec<CombatMinion>, id: u64) -> (r: Option<usize>)
    requires
        unique_minion_ids(s@),
    ensures
        match r {
            Some(i) => i < s@.len() && s@[i as int].id == id && spec_find_minion(s@, id)
                == Some(i as int),
            None => spec_find_minion(s@, id) is None,
        },
{
    let n = s.len();
    let mut i: usize = 0;
    while i < n
        invariant
            unique_minion_ids(s@),
            n == s@.len(),
            0 <= i <= n,
            forall|k: int| 0 <= k < i ==> s@[k].id != id,
        decreases n - i,
    {
        if s[i].id == id {
            proof {
                assert(0 <= i as int && (i as int) < s@.len() && s@[i as int].id == id);
                let w = choose|k: int| 0 <= k < s@.len() && s@[k].id == id;
                assert(0 <= w < s@.len() && s@[w].id == id);
                if w < i as int {
                    assert(s@[w].id != s@[i as int].id);
                } else if w > i as int {
                    assert(s@[i as int].id != s@[w].id);
                }
            }
            return Some(i);
        }
        i = i + 1;
    }
    None
}

/// Index of the teamed non-minion entity with identifier `id`, if any.
pub fn find_teamed(s: &Vec<TeamedEntity>, id: u64) -> (r: Option<usize>)
    requires
        unique_teamed_ids(s@),
    ensures
        match r {
            Some(i) => i < s@.len() && s@[i as int].id == id && spec_find_teamed(s@, id)
                == Some(i as int),
            None => spec_find_teamed(s@, id) is None,
        },
{
    let n = s.len();
    let mut i: usize = 0;
    while i < n
        invariant
            unique_teamed_ids(s@),
            n == s@.len(),
            0 <= i <= n,
            forall|k: int| 0 <= k < i ==> s@[k].id != id,
        decreases n - i,
    {
        if s[i].id == id {
            proof {
                assert(0 <= i as int && (i as int) < s@.len() && s@[i as int].id == id);
                let w = choose|k: int| 0 <= k < s@.len() && s@[k].id == id;
                assert(0 <= w < s@.len() && s@[w].id == id);
                if w < i as int {
                    assert(s@[w].id != s@[i as int].id);
                } else if w > i as int {
                    assert(s@[i as int].id != s@[w].id);
                }
            }
            return Some(i);
        }
        i = i + 1;
    }
    None
}

/// The minion after detonating: spent, nothing else changed.
pub open spec fn flag_exploded(m: CombatMinion) -> CombatMinion {
    CombatMinion { had_exploded: true, ..m }
}

/// What one collision event does to the minion store: `Stopped` events
/// carry no damage semantics; a `Started` event between two opposing
/// minions detonates the first of the two that has not exploded yet; a
/// `Started` event between a minion and an opposing teamed entity
/// detonates the minion unless it is spent. Same-team contacts and
/// contacts with teamless entities change nothing. The spawned explosion,
/// if any, is described by its position and team.
pub open spec fn spec_minion_event_step(
    ms: Seq<CombatMinion>,
    others: Seq<TeamedEntity>,
    ev: CollisionEvent,
) -> (Seq<CombatMinion>, Option<(Vec3i, Team)>) {
    match ev {
        CollisionEvent::Stopped(e1, e2) => (ms, None),
        CollisionEvent::Started(e1, e2) => {
            let f1 = spec_find_minion(ms, e1);
            let f2 = spec_find_minion(ms, e2);
            if f1 is Some && f2 is Some {
                let i1 = f1.unwrap();
                let i2 = f2.unwrap();
                if ms[i1].team.id@ == ms[i2].team.id@ {
                    (ms, None)
                } else if !ms[i1].had_exploded {
                    (ms.update(i1, flag_exploded(ms[i1])), Some((ms[i1].position, ms[i1].team)))
                } else if !ms[i2].had_exploded {
                    (ms.update(i2, flag_exploded(ms[i2])), Some((ms[i2].position, ms[i2].team)))
                } else {
                    (ms, None)
                }
            } else if f1 is Some || f2 is Some {
                let mi = if f1 is Some {
                    f1.unwrap()
                } else {
                    f2.unwrap()
                };
                let fo = if spec_find_teamed(others, e1) is Some {
                    spec_find_teamed(others, e1)
                } else {
                    spec_find_teamed(others, e2)
                };
                match fo {
                    None => (ms, None),
                    Some(oi) => {
                        if ms[mi].had_exploded {
                            (ms, None)
                        } else if ms[mi].team.id@ == others[oi].team_id@ {
                            (ms, None)
                        } else {
                            (
                                ms.update(mi, flag_exploded(ms[mi])),
                                Some((ms[mi].position, ms[mi].team)),
                            )
                        }
                    },
                }
            } else {
                (ms, None)
            }
        },
    }
}

/// A `Started` event between two minions of the same team changes
/// nothing: no minion state moves and no explosion is spawned, so the
/// contact leads to no damage anywhere.
pub proof fn lemma_same_team_minions_no_op(
    ms: Seq<CombatMinion>,
    others: Seq<TeamedEntity>,
    e1: u64,
    e2: u64,
)
    requires
        spec_find_minion(ms, e1) is Some,
        spec_find_minion(ms, e2) is Some,
        ms[spec_find_minion(ms, e1).unwrap()].team.id@ == ms[spec_find_minion(
            ms,
            e2,
        ).unwrap()].team.id@,
    ensures
        spec_minion_event_step(ms, others, CollisionEvent::Started(e1, e2)) == (
            ms,
            None::<(Vec3i, Team)>,
        ),
{
}

/// A `Started` event between a minion and a same-team entity of any
/// other kind changes nothing either.
pub proof fn lemma_same_team_minion_contact_no_op(
    ms: Seq<CombatMinion>,
    others: Seq<TeamedEntity>,
    e1: u64,
    e2: u64,
    mi: int,
    oi: int,
)
    requires
        spec_find_minion(ms, e1) == Some(mi) && spec_find_minion(ms, e2) is None
            || spec_find_minion(ms, e2) == Some(mi) && spec_find_minion(ms, e1) is None,
        ({
            let fo = if spec_find_teamed(others, e1) is Some {
                spec_find_teamed(others, e1)
            } else {
                spec_find_teamed(others, e2)
            };
            fo == Some(oi)
        }),
        ms[mi].team.id@ == others[oi].team_id@,
    ensures
        spec_minion_event_step(ms, others, CollisionEvent::Started(e1, e2)) == (
            ms,
            None::<(Vec3i, Team)>,
        ),
{
}

/// The minion store and the spawned explosions after resolving a whole
/// event stream in order.
pub open spec fn spec_minion_collisions(
    ms: Seq<CombatMinion>,
    others: Seq<TeamedEntity>,
    events: Seq<CollisionEvent>,
) -> (Seq<CombatMinion>, Seq<(Vec3i, Team)>)
    decreases events.len(),
{
    if events.len() == 0 {
        (ms, Seq::empty())
    } else {
        let prev = spec_minion_collisions(ms, others, events.drop_last());
        let stepped = spec_minion_event_step(prev.0, others, events.last());
        (
            stepped.0,
            match stepped.1 {
                Some(d) => prev.1.push(d),
                None => prev.1,
            },
        )
    }
}

/// Resolving events only ever flips `had_exploded`: every minion keeps
/// its identity, position and team, and the store its length.
pub proof fn lemma_minion_collisions_frame(
    ms: Seq<CombatMinion>,
    others: Seq<TeamedEntity>,
    events: Seq<CollisionEvent>,
)
    ensures
        spec_minion_collisions(ms, others, events).0.len() == ms.len(),
        forall|i: int|
            0 <= i < ms.len() ==> {
                let m = #[trigger] spec_minion_collisions(ms, others, events).0[i];
                m.id == ms[i].id && m.position == ms[i].position && m.team == ms[i].team
            },
    decreases events.len(),
{
    if events.len() > 0 {
        lemma_minion_collisions_frame(ms, others, events.drop_last());
    }
}

/// Resolve one tick's collision events against the minions: each
/// qualifying `Started` contact detonates one not-yet-spent minion,
/// marking it spent and spawning one explosion at its position for its
/// team. Events are processed in stream order.
pub fn check_collisions_minions(
    events: &Vec<CollisionEvent>,
    minions: &mut Vec<CombatMinion>,
    others: &Vec<TeamedEntity>,
) -> (spawned: Vec<ExplosionBundle>)
    requires
        unique_minion_ids(old(minions)@),
        unique_teamed_ids(others@),
        minion_ids_disjoint(old(minions)@, others@),
    ensures
        final(minions)@ == spec_minion_collisions(old(minions)@, others@, events@).0,
        spawned@.len() == spec_minion_collisions(old(minions)@, others@, events@).1.len(),
        forall|k: int|
            0 <= k < spawned@.len() ==> #[trigger] spawned@[k] == spec_explosion_bundle(
                spec_minion_collisions(old(minions)@, others@, events@).1[k].0,
                spec_minion_collisions(old(minions)@, others@, events@).1[k].1,
            ),
{
    let ghost ms0 = minions@;
    let mut spawned: Vec<ExplosionBundle> = Vec::new();
    let n = events.len();
    let mut i: usize = 0;
    proof {
        assert(events@.take(0) =~= Seq::<CollisionEvent>::empty());
    }
    while i < n
        invariant
            n == events@.len(),
            0 <= i <= n,
            unique_minion_ids(ms0),
            unique_teamed_ids(others@),
            minion_ids_disjoint(ms0, others@),
            minions@ == spec_minion_collisions(ms0, others@, events@.take(i as int)).0,
            spawned@.len() == spec_minion_collisions(ms0, others@, events@.take(i as int)).1.len(),
            forall|k: int|
                0 <= k < spawned@.len() ==> #[trigger] spawned@[k] == spec_explosion_bundle(
                    spec_minion_collisions(ms0, others@, events@.take(i as int)).1[k].0,
                    spec_minion_collisions(ms0, others@, events@.take(i as int)).1[k].1,
                ),
        decreases n - i,
    {
        proof {
            lemma_minion_collisions_frame(ms0, others@, events@.take(i as int));
            assert(unique_minion_ids(minions@));
            assert(minion_ids_disjoint(minions@, others@));
            assert(events@.take(i + 1).drop_last() =~= events@.take(i as int));
            assert(events@.take(i + 1).last() == events@[i as int]);
        }
        let ghost ms_before = minions@;
        match events[i] {
            CollisionEvent::Stopped(_, _) => {},
            CollisionEvent::Started(e1, e2) => {
                let f1 = find_minion(minions, e1);
                let f2 = find_minion(minions, e2);
                match (f1, f2) {
                    (Some(i1), Some(i2)) => {
                        if !minions[i1].team.id.eq(&minions[i2].team.id) {
                            if !minions[i1].had_exploded {
                                let pos = minions[i1].position;
                                let team = minions[i1].team.clone();
                                minions[i1].had_exploded = true;
                                spawned.push(ExplosionBundle::new(pos, team));
                                proof {
                                    assert(minions@ =~= ms_before.update(
                                        i1 as int,
                                        flag_exploded(ms_before[i1 as int]),
                                    ));
                                }
                            } else if !minions[i2].had_exploded {
                                let pos = minions[i2].position;
                                let team = minions[i2].team.clone();
                                minions[i2].had_exploded = true;
                                spawned.push(ExplosionBundle::new(pos, team));
                                proof {
                                    assert(minions@ =~= ms_before.update(
                                        i2 as int,
                                        flag_exploded(ms_before[i2 as int]),
                                    ));
                                }
                            }
                        }
                    },
                    (Some(i1), None) | (None, Some(i1)) => {
                        let fo = match find_teamed(others, e1) {
                            Some(oi) => Some(oi),
                            None => find_teamed(others, e2),
                        };
                        match fo {
                            None => {},
                            Some(oi) => {
                                if !minions[i1].had_exploded && !minions[i1].team.id.eq(
                                    &others[oi].team_id,
                                ) {
                                    let pos = minions[i1].position;
                                    let team = minions[i1].team.clone();
                                    minions[i1].had_exploded = true;
                                    spawned.push(ExplosionBundle::new(pos, team));
                                    proof {
                                        assert(minions@ =~= ms_before.update(
                                            i1 as int,
                                            flag_exploded(ms_before[i1 as int]),
                                        ));
                                    }
                                }
                            },
                        }
                    },
                    (None, None) => {},
                }
            },
        }
        i = i + 1;
    }
    proof {
        assert(events@.take(n as int) =~= events@);
    }
    spawned
}

/// An explosion hitbox as the damage resolver sees it.
pub struct ExplosionRef {
    pub id: u64,
    pub damage: i64,
}

/// An entity that can be hurt by an explosion: anything with health that
/// is not itself an explosion.
pub struct HealthTarget {
    pub id: u64,
    pub health: Health,
}

pub open spec fn unique_explosion_ids(s: Seq<ExplosionRef>) -> bool {
    forall|i: int, j: int| 0 <= i < j < s.len() ==> #[trigger] s[i].id != #[trigger] s[j].id
}

pub open spec fn unique_target_ids(s: Seq<HealthTarget>) -> bool {
    forall|i: int, j: int| 0 <= i < j < s.len() ==> #[trigger] s[i].id != #[trigger] s[j].id
}

pub open spec fn spec_find_explosion(s: Seq<ExplosionRef>, id: u64) -> Option<int> {
    if exists|i: int| 0 <= i < s.len() && s[i].id == id {
        Some(choose|i: int| 0 <= i < s.len() && s[i].id == id)
    } else {
        None
    }
}

pub open spec fn spec_find_target(s: Seq<HealthTarget>, id: u64) -> Option<int> {
    if exists|i: int| 0 <= i < s.len() && s[i].id == id {
        Some(choose|i: int| 0 <= i < s.len() && s[i].id == id)
    } else {
        None
    }
}

/// Index of the explosion with identifier `id`, if any.
pub fn find_explosion(s: &Vec<ExplosionRef>, id: u64) -> (r: Option<usize>)
    requires
        unique_explosion_ids(s@),
    ensures
        match r {
            Some(i) => i < s@.len() && s@[i as int].id == id && spec_find_explosion(s@, id)
                == Some(i as int),
            None => spec_find_explosion(s@, id) is None,
        },
{
    let n = s.len();
    let mut i: usize = 0;
    while i < n
        invariant
            unique_explosion_ids(s@),
            n == s@.len(),
            0 <= i <= n,
            forall|k: int| 0 <= k < i ==> s@[k].id != id,
        decreases n - i,
    {
        if s[i].id == id {
            proof {
                assert(0 <= i as int && (i as int) < s@.len() && s@[i as int].id == id);
                let w = choose|k: int| 0 <= k < s@.len() && s@[k].id == id;
                assert(0 <= w < s@.len() && s@[w].id == id);
                if w < i as int {
                    assert(s@[w].id != s@[i as int].id);
                } else if w > i as int {
                    assert(s@[i as int].id != s@[w].id);
                }
            }
            return Some(i);
        }
        i = i + 1;
    }
    None
}

/// Index of the damageable entity with identifier `id`, if any.
pub fn find_target(s: &Vec<HealthTarget>, id: u64) -> (r: Option<usize>)
    requires
        unique_target_ids(s@),
    ensures
        match r {
            Some(i) => i < s@.len() && s@[i as int].id == id && spec_find_target(s@, id)
                == Some(i as int),
            None => spec_find_target(s@, id) is None,
        },
{
    let n = s.len();
    let mut i: usize = 0;
    while i < n
        invariant
            unique_target_ids(s@),
            n == s@.len(),
            0 <= i <= n,
            forall|k: int| 0 <= k < i ==> s@[k].id != id,
        decreases n - i,
    {
        if s[i].id == id {
            proof {
                assert(0 <= i as int && (i as int) < s@.len() && s@[i as int].id == id);
                let w = choose|k: int| 0 <= k < s@.len() && s@[k].id == id;
                assert(0 <= w < s@.len() && s@[w].id == id);
                if w < i as int {
                    assert(s@[w].id != s@[i as int].id);
                } else if w > i as int {
                    assert(s@[i as int].id != s@[w].id);
                }
            }
            return Some(i);
        }
        i = i + 1;
    }
    None
}

/// What one collision event does to the damageable entities: a `Started`
/// event with an explosion on one side deals the explosion's damage to
/// the damageable entity on the event, once. Teams deliberately play no
/// part: area damage is the one contact the same-team no-op rule does
/// not reach — an explosion hurts every non-explosion entity overlapping
/// it during its lifetime, allies of its own team included.
pub open spec fn spec_explosion_event_step(
    ex: Seq<ExplosionRef>,
    vs: Seq<HealthTarget>,
    ev: CollisionEvent,
) -> Seq<HealthTarget> {
    match ev {
        CollisionEvent::Stopped(e1, e2) => vs,
        CollisionEvent::Started(e1, e2) => {
            let fe = if spec_find_explosion(ex, e1) is Some {
                spec_find_explosion(ex, e1)
            } else {
                spec_find_explosion(ex, e2)
            };
            match fe {
                None => vs,
                Some(ei) => {
                    let fv = if spec_find_target(vs, e1) is Some {
                        spec_find_target(vs, e1)
                    } else {
                        spec_find_target(vs, e2)
                    };
                    match fv {
                        None => vs,
                        Some(vi) => vs.update(
                            vi,
                            HealthTarget {
                                health: spec_hit(vs[vi].health, ex[ei].damage as int),
                                ..vs[vi]
                            },
                        ),
                    }
                },
            }
        },
    }
}

/// The damageable entities after a whole event stream, in order.
pub open spec fn spec_explosion_damage(
    ex: Seq<ExplosionRef>,
    vs: Seq<HealthTarget>,
    events: Seq<CollisionEvent>,
) -> Seq<HealthTarget>
    decreases events.len(),
{
    if events.len() == 0 {
        vs
    } else {
        spec_explosion_event_step(
            ex,
            spec_explosion_damage(ex, vs, events.drop_last()),
            events.last(),
        )
    }
}

/// Explosion damage only lowers health values: identities stay, and
/// well-formed health stays well-formed.
pub proof fn lemma_explosion_damage_frame(
    ex: Seq<ExplosionRef>,
    vs: Seq<HealthTarget>,
    events: Seq<CollisionEvent>,
)
    requires
        forall|i: int| 0 <= i < vs.len() ==> (#[trigger] vs[i].health).wf(),
    ensures
        spec_explosion_damage(ex, vs, events).len() == vs.len(),
        forall|i: int|
            0 <= i < vs.len() ==> {
                let v = #[trigger] spec_explosion_damage(ex, vs, events)[i];
                v.id == vs[i].id && v.health.wf() && v.health.max == vs[i].health.max
                    && v.health.value <= vs[i].health.value
            },
    decreases events.len(),
{
    if events.len() > 0 {
        lemma_explosion_damage_frame(ex, vs, events.drop_last());
    }
}

/// Resolve one tick's collision events against the explosions: every
/// damageable entity on a `Started` event with an explosion takes that
/// explosion's damage, once per event, whatever team either is on —
/// friendly fire included, by the area-damage rule.
pub fn explosion_damage(
    events: &Vec<CollisionEvent>,
    explosions: &Vec<ExplosionRef>,
    victims: &mut Vec<HealthTarget>,
)
    requires
        unique_explosion_ids(explosions@),
        unique_target_ids(old(victims)@),
        forall|i: int| 0 <= i < old(victims)@.len() ==> (#[trigger] old(victims)@[i].health).wf(),
    ensures
        final(victims)@ == spec_explosion_damage(explosions@, old(victims)@, events@),
{
    let ghost vs0 = victims@;
    let n = events.len();
    let mut i: usize = 0;
    proof {
        assert(events@.take(0) =~= Seq::<CollisionEvent>::empty());
    }
    while i < n
        invariant
            n == events@.len(),
            0 <= i <= n,
            unique_explosion_ids(explosions@),
            unique_target_ids(vs0),
            forall|k: int| 0 <= k < vs0.len() ==> (#[trigger] vs0[k].health).wf(),
            victims@ == spec_explosion_damage(explosions@, vs0, events@.take(i as int)),
        decreases n - i,
    {
        proof {
            lemma_explosion_damage_frame(explosions@, vs0, events@.take(i as int));
            assert(unique_target_ids(victims@));
            assert(events@.take(i + 1).drop_last() =~= events@.take(i as int));
            assert(events@.take(i + 1).last() == events@[i as int]);
        }
        let ghost vs_before = victims@;
        match events[i] {
            CollisionEvent::Stopped(_, _) => {},
            CollisionEvent::Started(e1, e2) => {
                let fe = match find_explosion(explosions, e1) {
                    Some(ei) => Some(ei),
                    None => find_explosion(explosions, e2),
                };
                match fe {
                    None => {},
                    Some(ei) => {
                        let fv = match find_target(victims, e1) {
                            Some(vi) => Some(vi),
                            None => find_target(victims, e2),
                        };
                        match fv {
                            None => {},
                            Some(vi) => {
                                let damage = explosions[ei].damage;
                                let mut h = victims[vi].health;
                                h.hit(damage);
                                victims[vi].health = h;
                                proof {
                                    assert(victims@ =~= vs_before.update(
                                        vi as int,
                                        HealthTarget {
                                            health: spec_hit(
                                                vs_before[vi as int].health,
                                                damage as int,
                                            ),
                                            ..vs_before[vi as int]
                                        },
                                    ));
                                }
                            },
                        }
                    },
                }
            },
        }
        i = i + 1;
    }
    proof {
        assert(events@.take(n as int) =~= events@);
    }
}

/// The per-tick decay every minion's health suffers for `delta_ms`
/// elapsed milliseconds.
pub open spec fn spec_decay_amount(delta_ms: int) -> int {
    DECAY_VALUE_PER_SEC * delta_ms / 1000
}

/// Minions rot: each tick every minion loses `DECAY_VALUE_PER_SEC`,
/// scaled by the elapsed time.
pub fn decay_life(healths: &mut Vec<Health>, delta_ms: u64)
    requires
        forall|i: int| 0 <= i < old(healths)@.len() ==> (#[trigger] old(healths)@[i]).wf(),
        delta_ms <= MAX_TICK_MS,
    ensures
        final(healths)@.len() == old(healths)@.len(),
        forall|i: int|
            0 <= i < old(healths)@.len() ==> #[trigger] final(healths)@[i] == spec_hit(
                old(healths)@[i],
                spec_decay_amount(delta_ms as int),
            ),
{
    let ghost hs0 = healths@;
    let amount_u = (DECAY_VALUE_PER_SEC as u64) * delta_ms / 1000;
    let amount: i64 = amount_u as i64;
    proof {
        assert(amount == spec_decay_amount(delta_ms as int));
    }
    let n = healths.len();
    let mut i: usize = 0;
    while i < n
        invariant
            n == hs0.len(),
            healths@.len() == hs0.len(),
            0 <= i <= n,
            forall|k: int| 0 <= k < hs0.len() ==> (#[trigger] hs0[k]).wf(),
            amount == spec_decay_amount(delta_ms as int),
            forall|k: int| i <= k < n ==> #[trigger] healths@[k] == hs0[k],
            forall|k: int| 0 <= k < i ==> #[trigger] healths@[k] == spec_hit(hs0[k], amount as int),
        decreases n - i,
    {
        let mut h = healths[i];
        h.hit(amount);
        healths[i] = h;
        i = i + 1;
    }
}

/// A minion as the culling pass sees it.
pub struct MinionVitals {
    pub id: u64,
    pub position: Vec3i,
    pub health: Health,
}

/// Off the map: the position has reached at least half the world size
/// from the origin on either axis.
pub open spec fn spec_out_of_bounds(p: Vec3i) -> bool {
    ||| p.x >= GAME_MAX_WIDTH / 2
    ||| -p.x >= GAME_MAX_WIDTH / 2
    ||| p.y >= GAME_MAX_HEIGHT / 2
    ||| -p.y >= GAME_MAX_HEIGHT / 2
}

/// A minion is culled when it is off the map or out of health.
pub open spec fn spec_minion_doomed(m: MinionVitals) -> bool {
    spec_out_of_bounds(m.position) || m.health.value <= 0
}

/// The identifiers of the minions to cull, in store order.
pub open spec fn spec_doomed_ids(s: Seq<MinionVitals>) -> Seq<u64>
    decreases s.len(),
{
    if s.len() == 0 {
        Seq::empty()
    } else {
        let prev = spec_doomed_ids(s.drop_last());
        if spec_minion_doomed(s.last()) {
            prev.push(s.last().id)
        } else {
            prev
        }
    }
}

/// Whether the lifecycle pass despawns a minion in this state.
pub fn should_despawn_minion(position: &Vec3i, health: &Health) -> (r: bool)
    ensures
        r == (spec_out_of_bounds(*position) || health.value <= 0),
{
    let half_w = GAME_MAX_WIDTH / 2;
    let half_h = GAME_MAX_HEIGHT / 2;
    if position.x >= half_w || position.x <= -half_w || position.y >= half_h || position.y
        <= -half_h {
        return true;
    }
    health.value <= 0
}

/// One culling pass: the minions to despawn, dead or off the map.
pub fn destroy_minions(minions: &Vec<MinionVitals>) -> (r: Vec<u64>)
    ensures
        r@ == spec_doomed_ids(minions@),
{
    let mut r: Vec<u64> = Vec::new();
    let n = minions.len();
    let mut i: usize = 0;
    proof {
        assert(minions@.take(0) =~= Seq::<MinionVitals>::empty());
    }
    while i < n
        invariant
            n == minions@.len(),
            0 <= i <= n,
            r@ == spec_doomed_ids(minions@.take(i as int)),
        decreases n - i,
    {
        proof {
            assert(minions@.take(i + 1).drop_last() =~= minions@.take(i as int));
            assert(minions@.take(i + 1).last() == minions@[i as int]);
        }
        if should_despawn_minion(&minions[i].position, &minions[i].health) {
            r.push(minions[i].id);
        }
        i = i + 1;
    }
    proof {
        assert(minions@.take(n as int) =~= minions@);
    }
    r
}

/// An entity with a forced-despawn countdown.
pub struct TimedEntity {
    pub id: u64,
    pub timer: Timer,
}

/// The identifiers whose countdown completes on this tick.
pub open spec fn spec_expired_ids(s: Seq<TimedEntity>, delta_ms: int) -> Seq<u64>
    decreases s.len(),
{
    if s.len() == 0 {
        Seq::empty()
    } else {
        let prev = spec_expired_ids(s.drop_last(), delta_ms);
        if crate::timer::spec_tick(s.last().timer, delta_ms).just_finished {
            prev.push(s.last().id)
        } else {
            prev
        }
    }
}

/// Advance every despawn countdown and report the entities whose
/// countdown completed on this tick.
pub fn destroy_after_timer(items: &mut Vec<TimedEntity>, delta_ms: u64) -> (r: Vec<u64>)
    requires
        forall|i: int| 0 <= i < old(items)@.len() ==> (#[trigger] old(items)@[i].timer).wf(),
        delta_ms <= MAX_TICK_MS,
    ensures
        final(items)@.len() == old(items)@.len(),
        forall|i: int|
            0 <= i < old(items)@.len() ==> #[trigger] final(items)@[i] == (TimedEntity {
                timer: crate::timer::spec_tick(old(items)@[i].timer, delta_ms as int),
                ..old(items)@[i]
            }),
        r@ == spec_expired_ids(old(items)@, delta_ms as int),
{
    let ghost s0 = items@;
    let mut r: Vec<u64> = Vec::new();
    let n = items.len();
    let mut i: usize = 0;
    proof {
        assert(s0.take(0) =~= Seq::<TimedEntity>::empty());
    }
    while i < n
        invariant
            n == s0.len(),
            items@.len() == s0.len(),
            0 <= i <= n,
            delta_ms <= MAX_TICK_MS,
            forall|k: int| 0 <= k < s0.len() ==> (#[trigger] s0[k].timer).wf(),
            forall|k: int| i <= k < n ==> #[trigger] items@[k] == s0[k],
            forall|k: int|
                0 <= k < i ==> #[trigger] items@[k] == (TimedEntity {
                    timer: crate::timer::spec_tick(s0[k].timer, delta_ms as int),
                    ..s0[k]
                }),
            r@ == spec_expired_ids(s0.take(i as int), delta_ms as int),
        decreases n - i,
    {
        proof {
            assert(s0.take(i + 1).drop_last() =~= s0.take(i as int));
            assert(s0.take(i + 1).last() == s0[i as int]);
        }
        let mut t = items[i].timer;
        t.tick(delta_ms);
        let fired = t.just_finished();
        items[i].timer = t;
        if fired {
            r.push(items[i].id);
        }
        i = i + 1;
    }
    proof {
        assert(s0.take(n as int) =~= s0);
    }
    r
}

} // verus!
