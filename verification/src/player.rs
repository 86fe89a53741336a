//! Players, their swords, and the sword-hit resolution that pays bounty.
//!
//! A sword is a short-lived hitbox owned by the player that swung it.
//! Every `Started` collision event carrying a sword deals fixed damage to
//! the damageable entity on the event; if that blow is what kills it, the
//! sword's owner is paid the victim's bounty — once, and only across
//! team lines.

use vstd::prelude::*;
use crate::common::Vec3i;
use crate::health::{spec_hit, Health};
use crate::physics::CollisionEvent;
use crate::racks::{RackBundle, RACK_GOLD_VALUE};
use crate::teams::Team;
use crate::timer::{spec_tick, Timer, TimerMode, MAX_TICK_MS};

verus! {

/// Damage one sword blow deals, in milli-health.
pub const SWORD_DAMAGE: i64 = 20_000;

/// How long a swung sword stays out.
pub const SWORD_LIFETIME_MS: u64 = 200;

/// The pause between two sword swings.
pub const SWORD_COOLDOWN_MS: u64 = 300;

/// Gold a fresh player starts with, in milli-gold.
pub const PLAYER_INITIAL_GOLD: i64 = 20_000;

/// How fast directional input moves the player, in milli-units per
/// second.
pub const JOYSTICK_SCALE: i64 = 200_000;

/// The attack timers of one player.
pub struct Cooldowns {
    pub sword: Timer,
}

/// A player: a gold purse and attack cooldowns. Position, team and
/// health ride on the entity like anyone else's.
pub struct Player {
    pub gold: i64,
    pub cooldowns: Cooldowns,
}

impl Player {
    /// A fresh player: starting gold, and the sword cooldown already
    /// elapsed so the first swing is available at once.
    pub fn new() -> (r: Player)
        ensures
            r.gold == PLAYER_INITIAL_GOLD,
            r.cooldowns.sword == (Timer {
                duration_ms: SWORD_COOLDOWN_MS,
                elapsed_ms: SWORD_COOLDOWN_MS,
                mode: TimerMode::Once,
                just_finished: false,
            }),
            r.cooldowns.sword.wf(),
            r.cooldowns.sword.spec_finished(),
    {
        let mut sword_cooldown = Timer::from_millis(SWORD_COOLDOWN_MS, TimerMode::Once);
        sword_cooldown.set_elapsed(SWORD_COOLDOWN_MS);
        Player { gold: PLAYER_INITIAL_GOLD, cooldowns: Cooldowns { sword: sword_cooldown } }
    }
}

/// Marks the one locally controlled player.
pub struct LocalPlayer;

/// A sword hitbox: a back-reference to its wielder and its lifetime.
pub struct Sword {
    /// The entity that swung this sword; looked up when bounty is due.
    pub entity: u64,
    pub duration: Timer,
}

/// Everything a freshly swung sword carries.
pub struct SwordBundle {
    pub sword: Sword,
}

impl SwordBundle {
    pub fn new(parent_entity: u64) -> (r: SwordBundle)
        ensures
            r.sword.entity == parent_entity,
            r.sword.duration == (Timer {
                duration_ms: SWORD_LIFETIME_MS,
                elapsed_ms: 0,
                mode: TimerMode::Once,
                just_finished: false,
            }),
            r.sword.duration.wf(),
    {
        SwordBundle {
            sword: Sword {
                entity: parent_entity,
                duration: Timer::from_millis(SWORD_LIFETIME_MS, TimerMode::Once),
            },
        }
    }
}

/// Swing the sword if its cooldown allows: the cooldown restarts and the
/// new sword, owned by `entity`, is handed back. On cooldown, nothing
/// happens.
pub fn try_swing_sword(player: &mut Player, entity: u64) -> (r: Option<SwordBundle>)
    requires
        old(player).cooldowns.sword.wf(),
    ensures
        r is Some == old(player).cooldowns.sword.spec_finished(),
        final(player).gold == old(player).gold,
        final(player).cooldowns.sword.wf(),
        match r {
            Some(b) => {
                &&& b.sword.entity == entity
                &&& b.sword.duration == (Timer {
                    duration_ms: SWORD_LIFETIME_MS,
                    elapsed_ms: 0,
                    mode: TimerMode::Once,
                    just_finished: false,
                })
                &&& final(player).cooldowns.sword == (Timer {
                    elapsed_ms: 0,
                    just_finished: false,
                    ..old(player).cooldowns.sword
                })
            },
            None => *final(player) == *old(player),
        },
{
    if player.cooldowns.sword.finished() {
        player.cooldowns.sword.reset();
        Some(SwordBundle::new(entity))
    } else {
        None
    }
}

/// Place a rack if the player can pay for it: the cost leaves the purse
/// and a fresh rack for `team` at `position` is handed back. Too poor,
/// nothing happens.
pub fn try_buy_rack(player: &mut Player, team: &Team, position: &Vec3i) -> (r: Option<RackBundle>)
    ensures
        r is Some == (old(player).gold >= RACK_GOLD_VALUE),
        final(player).cooldowns == old(player).cooldowns,
        match r {
            Some(b) => {
                &&& final(player).gold == old(player).gold - RACK_GOLD_VALUE
                &&& b == crate::racks::spec_rack_bundle(*team, *position)
                &&& b.rack.wf()
            },
            None => *final(player) == *old(player),
        },
{
    if player.gold >= RACK_GOLD_VALUE {
        player.gold = player.gold - RACK_GOLD_VALUE;
        Some(RackBundle::new(team.clone(), *position))
    } else {
        None
    }
}

/// The distance one tick of held directional input covers.
pub open spec fn spec_input_step(delta_ms: int) -> int {
    JOYSTICK_SCALE * delta_ms / 1000
}

/// Move the player by the directional keys held this tick: one step per
/// axis, opposite keys cancelling, the plane position only.
pub fn keyboard_movements(
    position: &mut Vec3i,
    left: bool,
    right: bool,
    down: bool,
    up: bool,
    delta_ms: u64,
)
    requires
        crate::common::in_world(*old(position)),
        delta_ms <= MAX_TICK_MS,
    ensures
        final(position).x == old(position).x + (if right {
            spec_input_step(delta_ms as int)
        } else {
            0
        }) - (if left {
            spec_input_step(delta_ms as int)
        } else {
            0
        }),
        final(position).y == old(position).y + (if up {
            spec_input_step(delta_ms as int)
        } else {
            0
        }) - (if down {
            spec_input_step(delta_ms as int)
        } else {
            0
        }),
        final(position).z == old(position).z,
{
    let step = ((JOYSTICK_SCALE as u64) * delta_ms / 1000) as i64;
    if left {
        position.x = position.x - step;
    }
    if right {
        position.x = position.x + step;
    }
    if down {
        position.y = position.y - step;
    }
    if up {
        position.y = position.y + step;
    }
}

/// Advance every player's sword cooldown.
pub fn update_cooldowns(players: &mut Vec<Player>, delta_ms: u64)
    requires
        forall|i: int|
            0 <= i < old(players)@.len() ==> (#[trigger] old(players)@[i].cooldowns.sword).wf(),
        delta_ms <= MAX_TICK_MS,
    ensures
        final(players)@.len() == old(players)@.len(),
        forall|i: int|
            0 <= i < old(players)@.len() ==> #[trigger] final(players)@[i] == (Player {
                cooldowns: Cooldowns {
                    sword: spec_tick(old(players)@[i].cooldowns.sword, delta_ms as int),
                },
                ..old(players)@[i]
            }),
{
    let ghost s0 = players@;
    let n = players.len();
    let mut i: usize = 0;
    while i < n
        invariant
            n == s0.len(),
            players@.len() == s0.len(),
            0 <= i <= n,
            delta_ms <= MAX_TICK_MS,
            forall|k: int| 0 <= k < s0.len() ==> (#[trigger] s0[k].cooldowns.sword).wf(),
            forall|k: int| i <= k < n ==> #[trigger] players@[k] == s0[k],
            forall|k: int|
                0 <= k < i ==> #[trigger] players@[k] == (Player {
                    cooldowns: Cooldowns { sword: spec_tick(s0[k].cooldowns.sword, delta_ms as int) },
                    ..s0[k]
                }),
        decreases n - i,
    {
        let mut t = players[i].cooldowns.sword;
        t.tick(delta_ms);
        players[i].cooldowns.sword = t;
        i = i + 1;
    }
}

/// A sword out in the world, with its identifier.
pub struct SwordEntity {
    pub id: u64,
    pub sword: Sword,
}

/// The identifiers of the swords whose lifetime ends on this tick.
pub open spec fn spec_spent_sword_ids(s: Seq<SwordEntity>, delta_ms: int) -> Seq<u64>
    decreases s.len(),
{
    if s.len() == 0 {
        Seq::empty()
    } else {
        let prev = spec_spent_sword_ids(s.drop_last(), delta_ms);
        if spec_tick(s.last().sword.duration, delta_ms).just_finished {
            prev.push(s.last().id)
        } else {
            prev
        }
    }
}

/// Advance every sword's lifetime and report the swords that expired on
/// this tick, to be despawned.
pub fn update_sword(swords: &mut Vec<SwordEntity>, delta_ms: u64) -> (r: Vec<u64>)
    requires
        forall|i: int|
            0 <= i < old(swords)@.len() ==> (#[trigger] old(swords)@[i].sword.duration).wf(),
        delta_ms <= MAX_TICK_MS,
    ensures
        final(swords)@.len() == old(swords)@.len(),
        forall|i: int|
            0 <= i < old(swords)@.len() ==> #[trigger] final(swords)@[i] == (SwordEntity {
                sword: Sword {
                    duration: spec_tick(old(swords)@[i].sword.duration, delta_ms as int),
                    ..old(swords)@[i].sword
                },
                ..old(swords)@[i]
            }),
        r@ == spec_spent_sword_ids(old(swords)@, delta_ms as int),
{
    let ghost s0 = swords@;
    let mut r: Vec<u64> = Vec::new();
    let n = swords.len();
    let mut i: usize = 0;
    proof {
        assert(s0.take(0) =~= Seq::<SwordEntity>::empty());
    }
    while i < n
        invariant
            n == s0.len(),
            swords@.len() == s0.len(),
            0 <= i <= n,
            delta_ms <= MAX_TICK_MS,
            forall|k: int| 0 <= k < s0.len() ==> (#[trigger] s0[k].sword.duration).wf(),
            forall|k: int| i <= k < n ==> #[trigger] swords@[k] == s0[k],
            forall|k: int|
                0 <= k < i ==> #[trigger] swords@[k] == (SwordEntity {
                    sword: Sword {
                        duration: spec_tick(s0[k].sword.duration, delta_ms as int),
                        ..s0[k].sword
                    },
                    ..s0[k]
                }),
            r@ == spec_spent_sword_ids(s0.take(i as int), delta_ms as int),
        decreases n - i,
    {
        proof {
            assert(s0.take(i + 1).drop_last() =~= s0.take(i as int));
            assert(s0.take(i + 1).last() == s0[i as int]);
        }
        let mut t = swords[i].sword.duration;
        t.tick(delta_ms);
        let fired = t.just_finished();
        swords[i].sword.duration = t;
        if fired {
            r.push(swords[i].id);
        }
        i = i + 1;
    }
    proof {
        assert(s0.take(n as int) =~= s0);
    }
    r
}

/// A sword as the hit resolver sees it: its identifier and its wielder.
pub struct SwordRef {
    pub id: u64,
    pub owner: u64,
}

/// A player as the hit resolver sees it: purse and team.
pub struct PlayerCombat {
    pub id: u64,
    pub team_id: String,
    pub gold: i64,
}

/// An entity a sword can hurt: team, health, and the bounty it is worth.
pub struct SwordVictim {
    pub id: u64,
    pub team_id: String,
    pub health: Health,
    pub rewards: Option<i64>,
}

pub open spec fn unique_sword_ids(s: Seq<SwordRef>) -> bool {
    forall|i: int, j: int| 0 <= i < j < s.len() ==> #[trigger] s[i].id != #[trigger] s[j].id
}

pub open spec fn unique_player_ids(s: Seq<PlayerCombat>) -> bool {
    forall|i: int, j: int| 0 <= i < j < s.len() ==> #[trigger] s[i].id != #[trigger] s[j].id
}

pub open spec fn unique_victim_ids(s: Seq<SwordVictim>) -> bool {
    forall|i: int, j: int| 0 <= i < j < s.len() ==> #[trigger] s[i].id != #[trigger] s[j].id
}

pub open spec fn spec_find_sword(s: Seq<SwordRef>, id: u64) -> Option<int> {
    if exists|i: int| 0 <= i < s.len() && s[i].id == id {
        Some(choose|i: int| 0 <= i < s.len() && s[i].id == id)
    } else {
        None
    }
}

pub open spec fn spec_find_player(s: Seq<PlayerCombat>, id: u64) -> Option<int> {
    if exists|i: int| 0 <= i < s.len() && s[i].id == id {
        Some(choose|i: int| 0 <= i < s.len() && s[i].id == id)
    } else {
        None
    }
}

pub open spec fn spec_find_victim(s: Seq<SwordVictim>, id: u64) -> Option<int> {
    if exists|i: int| 0 <= i < s.len() && s[i].id == id {
        Some(choose|i: int| 0 <= i < s.len() && s[i].id == id)
    } else {
        None
    }
}

/// Index of the sword with identifier `id`, if any.
pub fn find_sword(s: &Vec<SwordRef>, id: u64) -> (r: Option<usize>)
    requires
        unique_sword_ids(s@),
    ensures
        match r {
            Some(i) => i < s@.len() && s@[i as int].id == id && spec_find_sword(s@, id)
                == Some(i as int),
            None => spec_find_sword(s@, id) is None,
        },
{
    let n = s.len();
    let mut i: usize = 0;
    while i < n
        invariant
            unique_sword_ids(s@),
            n == s@.len(),
            0 <= i <= n,
            forall|k: int| 0 <= k < i ==> s@[k].id != id,
        decreases n - i,
    {
        if s[i].id == id {
            proof {
                assert(0 <= i as int && (i as int) < s@.len() && s@[i as int].id == id);
                let w = choose|k: int| 0 <= k < s@.len() && s@[k].id == id;
                assert(0 <= w < s@.len() && s@[w].id == id);
                if w < i as int {
                    assert(s@[w].id != s@[i as int].id);
                } else if w > i as int {
                    assert(s@[i as int].id != s@[w].id);
                }
            }
            return Some(i);
        }
        i = i + 1;
    }
    None
}

/// Index of the player with identifier `id`, if any.
pub fn find_player(s: &Vec<PlayerCombat>, id: u64) -> (r: Option<usize>)
    requires
        unique_player_ids(s@),
    ensures
        match r {
            Some(i) => i < s@.len() && s@[i as int].id == id && spec_find_player(s@, id)
                == Some(i as int),
            None => spec_find_player(s@, id) is None,
        },
{
    let n = s.len();
    let mut i: usize = 0;
    while i < n
        invariant
            unique_player_ids(s@),
            n == s@.len(),
            0 <= i <= n,
            forall|k: int| 0 <= k < i ==> s@[k].id != id,
        decreases n - i,
    {
        if s[i].id == id {
            proof {
                assert(0 <= i as int && (i as int) < s@.len() && s@[i as int].id == id);
                let w = choose|k: int| 0 <= k < s@.len() && s@[k].id == id;
                assert(0 <= w < s@.len() && s@[w].id == id);
                if w < i as int {
                    assert(s@[w].id != s@[i as int].id);
                } else if w > i as int {
                    assert(s@[i as int].id != s@[w].id);
                }
            }
            return Some(i);
        }
        i = i + 1;
    }
    None
}

/// Index of the damageable entity with identifier `id`, if any.
pub fn find_victim(s: &Vec<SwordVictim>, id: u64) -> (r: Option<usize>)
    requires
        unique_victim_ids(s@),
    ensures
        match r {
            Some(i) => i < s@.len() && s@[i as int].id == id && spec_find_victim(s@, id)
                == Some(i as int),
            None => spec_find_victim(s@, id) is None,
        },
{
    let n = s.len();
    let mut i: usize = 0;
    while i < n
        invariant
            unique_victim_ids(s@),
            n == s@.len(),
            0 <= i <= n,
            forall|k: int| 0 <= k < i ==> s@[k].id != id,
        decreases n - i,
    {
        if s[i].id == id {
            proof {
                assert(0 <= i as int && (i as int) < s@.len() && s@[i as int].id == id);
                let w = choose|k: int| 0 <= k < s@.len() && s@[k].id == id;
                assert(0 <= w < s@.len() && s@[w].id == id);
                if w < i as int {
                    assert(s@[w].id != s@[i as int].id);
                } else if w > i as int {
                    assert(s@[i as int].id != s@[w].id);
                }
            }
            return Some(i);
        }
        i = i + 1;
    }
    None
}

/// Total gold held by the players.
pub open spec fn spec_gold_sum(ps: Seq<PlayerCombat>) -> int
    decreases ps.len(),
{
    if ps.len() == 0 {
        0
    } else {
        spec_gold_sum(ps.drop_last()) + ps.last().gold
    }
}

/// What killing this victim would pay right now: its bounty while it is
/// alive and carries one, nothing otherwise.
pub open spec fn spec_bounty(v: SwordVictim) -> int {
    if v.health.value > 0 && v.rewards is Some {
        v.rewards.unwrap() as int
    } else {
        0
    }
}

/// Total bounty still claimable from living victims.
pub open spec fn spec_live_bounties(vs: Seq<SwordVictim>) -> int
    decreases vs.len(),
{
    if vs.len() == 0 {
        0
    } else {
        spec_live_bounties(vs.drop_last()) + spec_bounty(vs.last())
    }
}

pub proof fn lemma_gold_sum_update(ps: Seq<PlayerCombat>, i: int, p: PlayerCombat)
    requires
        0 <= i < ps.len(),
    ensures
        spec_gold_sum(ps.update(i, p)) == spec_gold_sum(ps) - ps[i].gold + p.gold,
    decreases ps.len(),
{
    if i == ps.len() - 1 {
        assert(ps.update(i, p).drop_last() =~= ps.drop_last());
    } else {
        assert(ps.update(i, p).drop_last() =~= ps.drop_last().update(i, p));
        lemma_gold_sum_update(ps.drop_last(), i, p);
    }
}

pub proof fn lemma_live_bounties_update(vs: Seq<SwordVictim>, i: int, v: SwordVictim)
    requires
        0 <= i < vs.len(),
    ensures
        spec_live_bounties(vs.update(i, v)) == spec_live_bounties(vs) - spec_bounty(vs[i])
            + spec_bounty(v),
    decreases vs.len(),
{
    if i == vs.len() - 1 {
        assert(vs.update(i, v).drop_last() =~= vs.drop_last());
    } else {
        assert(vs.update(i, v).drop_last() =~= vs.drop_last().update(i, v));
        lemma_live_bounties_update(vs.drop_last(), i, v);
    }
}

pub proof fn lemma_gold_sum_nonneg(ps: Seq<PlayerCombat>)
    requires
        forall|k: int| 0 <= k < ps.len() ==> #[trigger] ps[k].gold >= 0,
    ensures
        spec_gold_sum(ps) >= 0,
    decreases ps.len(),
{
    if ps.len() > 0 {
        assert forall|k: int| 0 <= k < ps.drop_last().len() implies #[trigger] ps.drop_last()[k].gold
            >= 0 by {
            assert(ps.drop_last()[k] == ps[k]);
        }
        lemma_gold_sum_nonneg(ps.drop_last());
        assert(ps[ps.len() - 1].gold >= 0);
        assert(ps.last() == ps[ps.len() - 1]);
    }
}

pub proof fn lemma_gold_sum_bound(ps: Seq<PlayerCombat>, i: int)
    requires
        forall|k: int| 0 <= k < ps.len() ==> #[trigger] ps[k].gold >= 0,
        0 <= i < ps.len(),
    ensures
        spec_gold_sum(ps) >= 0,
        ps[i].gold <= spec_gold_sum(ps),
    decreases ps.len(),
{
    lemma_gold_sum_nonneg(ps);
    assert forall|k: int| 0 <= k < ps.drop_last().len() implies #[trigger] ps.drop_last()[k].gold
        >= 0 by {
        assert(ps.drop_last()[k] == ps[k]);
    }
    if i == ps.len() - 1 {
        lemma_gold_sum_nonneg(ps.drop_last());
        assert(ps.last() == ps[i]);
    } else {
        lemma_gold_sum_bound(ps.drop_last(), i);
        assert(ps.drop_last()[i] == ps[i]);
        assert(ps.last().gold >= 0);
    }
}

pub proof fn lemma_live_bounties_nonneg(vs: Seq<SwordVictim>)
    requires
        forall|k: int|
            0 <= k < vs.len() ==> ((#[trigger] vs[k].rewards) is Some ==> vs[k].rewards.unwrap()
                >= 0),
    ensures
        spec_live_bounties(vs) >= 0,
    decreases vs.len(),
{
    if vs.len() > 0 {
        assert forall|k: int|
            0 <= k < vs.drop_last().len() implies ((#[trigger] vs.drop_last()[k].rewards) is Some
            ==> vs.drop_last()[k].rewards.unwrap() >= 0) by {
            assert(vs.drop_last()[k] == vs[k]);
        }
        lemma_live_bounties_nonneg(vs.drop_last());
        assert(vs[vs.len() - 1].rewards is Some ==> vs[vs.len() - 1].rewards.unwrap() >= 0);
        assert(vs.last() == vs[vs.len() - 1]);
        assert(spec_bounty(vs.last()) >= 0);
    }
}

pub proof fn lemma_live_bounties_bound(vs: Seq<SwordVictim>, i: int)
    requires
        forall|k: int|
            0 <= k < vs.len() ==> ((#[trigger] vs[k].rewards) is Some ==> vs[k].rewards.unwrap()
                >= 0),
        0 <= i < vs.len(),
    ensures
        spec_live_bounties(vs) >= 0,
        spec_bounty(vs[i]) <= spec_live_bounties(vs),
    decreases vs.len(),
{
    lemma_live_bounties_nonneg(vs);
    assert forall|k: int|
        0 <= k < vs.drop_last().len() implies ((#[trigger] vs.drop_last()[k].rewards) is Some
        ==> vs.drop_last()[k].rewards.unwrap() >= 0) by {
        assert(vs.drop_last()[k] == vs[k]);
    }
    if i == vs.len() - 1 {
        lemma_live_bounties_nonneg(vs.drop_last());
        assert(vs.last() == vs[i]);
    } else {
        lemma_live_bounties_bound(vs.drop_last(), i);
        assert(vs.drop_last()[i] == vs[i]);
        assert(vs[vs.len() - 1].rewards is Some ==> vs[vs.len() - 1].rewards.unwrap() >= 0);
        assert(vs.last() == vs[vs.len() - 1]);
        assert(spec_bounty(vs.last()) >= 0);
    }
}

/// The hit resolver's world is well formed: no negative purse, no
/// negative bounty, well-formed health, and all wealth together — gold in
/// purses plus bounty still claimable — fits the purse type. Bounty only
/// ever moves from a dying victim into one purse, so this stays true.
pub open spec fn wf_sword_world(ps: Seq<PlayerCombat>, vs: Seq<SwordVictim>) -> bool {
    &&& forall|i: int| 0 <= i < ps.len() ==> #[trigger] ps[i].gold >= 0
    &&& forall|i: int| 0 <= i < vs.len() ==> (#[trigger] vs[i].health).wf()
    &&& forall|i: int|
        0 <= i < vs.len() ==> ((#[trigger] vs[i].rewards) is Some ==> vs[i].rewards.unwrap() >= 0)
    &&& spec_gold_sum(ps) + spec_live_bounties(vs) <= i64::MAX
}

/// What one collision event does to players and victims. A `Started`
/// event carrying a sword is resolved against the damageable entity on
/// the event, with the sword's team taken from its wielder: when the
/// wielder is on the victim's own team the contact is a no-op — the team
/// check comes before any damage. Otherwise the victim takes
/// `SWORD_DAMAGE`, and when that blow is the one that kills it, the
/// wielder — if still present — is paid the victim's bounty. A sword
/// whose wielder is gone has no team to match, so it still hurts, but
/// nobody is left to pay.
pub open spec fn spec_sword_event_step(
    sw: Seq<SwordRef>,
    ps: Seq<PlayerCombat>,
    vs: Seq<SwordVictim>,
    ev: CollisionEvent,
) -> (Seq<PlayerCombat>, Seq<SwordVictim>) {
    match ev {
        CollisionEvent::Stopped(e1, e2) => (ps, vs),
        CollisionEvent::Started(e1, e2) => {
            let fs = if spec_find_sword(sw, e1) is Some {
                spec_find_sword(sw, e1)
            } else {
                spec_find_sword(sw, e2)
            };
            match fs {
                None => (ps, vs),
                Some(si) => {
                    let fv = if spec_find_victim(vs, e1) is Some {
                        spec_find_victim(vs, e1)
                    } else {
                        spec_find_victim(vs, e2)
                    };
                    match fv {
                        None => (ps, vs),
                        Some(vi) => {
                            let fp = spec_find_player(ps, sw[si].owner);
                            if fp is Some && ps[fp.unwrap()].team_id@ == vs[vi].team_id@ {
                                (ps, vs)
                            } else {
                                let v = vs[vi];
                                let was_dead = v.health.value <= 0;
                                let v2 = SwordVictim {
                                    health: spec_hit(v.health, SWORD_DAMAGE as int),
                                    ..v
                                };
                                let vs2 = vs.update(vi, v2);
                                if !was_dead && v2.health.value <= 0 {
                                    match fp {
                                        None => (ps, vs2),
                                        Some(pi) => match v.rewards {
                                            None => (ps, vs2),
                                            Some(g) => (
                                                ps.update(
                                                    pi,
                                                    PlayerCombat {
                                                        gold: (ps[pi].gold + g) as i64,
                                                        ..ps[pi]
                                                    },
                                                ),
                                                vs2,
                                            ),
                                        },
                                    }
                                } else {
                                    (ps, vs2)
                                }
                            }
                        },
                    }
                },
            }
        },
    }
}

/// A sword striking a victim on its own wielder's team changes nothing:
/// the team check comes before any damage, so a same-team contact
/// produces zero health mutation and pays nothing.
pub proof fn lemma_same_team_sword_no_op(
    sw: Seq<SwordRef>,
    ps: Seq<PlayerCombat>,
    vs: Seq<SwordVictim>,
    e1: u64,
    e2: u64,
    si: int,
    vi: int,
    pi: int,
)
    requires
        ({
            let fs = if spec_find_sword(sw, e1) is Some {
                spec_find_sword(sw, e1)
            } else {
                spec_find_sword(sw, e2)
            };
            fs == Some(si)
        }),
        ({
            let fv = if spec_find_victim(vs, e1) is Some {
                spec_find_victim(vs, e1)
            } else {
                spec_find_victim(vs, e2)
            };
            fv == Some(vi)
        }),
        spec_find_player(ps, sw[si].owner) == Some(pi),
        ps[pi].team_id@ == vs[vi].team_id@,
    ensures
        spec_sword_event_step(sw, ps, vs, CollisionEvent::Started(e1, e2)) == (ps, vs),
{
}

/// Players and victims after a whole event stream, in order.
pub open spec fn spec_sword_collisions(
    sw: Seq<SwordRef>,
    ps: Seq<PlayerCombat>,
    vs: Seq<SwordVictim>,
    events: Seq<CollisionEvent>,
) -> (Seq<PlayerCombat>, Seq<SwordVictim>)
    decreases events.len(),
{
    if events.len() == 0 {
        (ps, vs)
    } else {
        let prev = spec_sword_collisions(sw, ps, vs, events.drop_last());
        spec_sword_event_step(sw, prev.0, prev.1, events.last())
    }
}

/// One event keeps the hit resolver's world well formed, and touches
/// nothing but purses, health values and nothing else: every identifier,
/// team and bounty stays put, and total wealth never grows.
pub proof fn lemma_sword_step_wf(
    sw: Seq<SwordRef>,
    ps: Seq<PlayerCombat>,
    vs: Seq<SwordVictim>,
    ev: CollisionEvent,
)
    requires
        wf_sword_world(ps, vs),
    ensures
        ({
            let r = spec_sword_event_step(sw, ps, vs, ev);
            &&& wf_sword_world(r.0, r.1)
            &&& r.0.len() == ps.len()
            &&& r.1.len() == vs.len()
            &&& forall|i: int|
                0 <= i < ps.len() ==> {
                    let p = #[trigger] r.0[i];
                    p.id == ps[i].id && p.team_id == ps[i].team_id && p.gold >= ps[i].gold
                }
            &&& forall|i: int|
                0 <= i < vs.len() ==> {
                    let v = #[trigger] r.1[i];
                    v.id == vs[i].id && v.team_id == vs[i].team_id && v.rewards == vs[i].rewards
                        && v.health.wf() && v.health.max == vs[i].health.max && v.health.value
                        <= vs[i].health.value
                }
            &&& spec_gold_sum(r.0) + spec_live_bounties(r.1) <= spec_gold_sum(ps)
                + spec_live_bounties(vs)
        }),
{
    let r = spec_sword_event_step(sw, ps, vs, ev);
    match ev {
        CollisionEvent::Stopped(_, _) => {},
        CollisionEvent::Started(e1, e2) => {
            let fs = if spec_find_sword(sw, e1) is Some {
                spec_find_sword(sw, e1)
            } else {
                spec_find_sword(sw, e2)
            };
            match fs {
                None => {},
                Some(si) => {
                    let fv = if spec_find_victim(vs, e1) is Some {
                        spec_find_victim(vs, e1)
                    } else {
                        spec_find_victim(vs, e2)
                    };
                    match fv {
                        None => {},
                        Some(vi) => {
                            let fp = spec_find_player(ps, sw[si].owner);
                            if !(fp is Some && ps[fp.unwrap()].team_id@ == vs[vi].team_id@) {
                                let v = vs[vi];
                                let was_dead = v.health.value <= 0;
                                let v2 = SwordVictim {
                                    health: spec_hit(v.health, SWORD_DAMAGE as int),
                                    ..v
                                };
                                let vs2 = vs.update(vi, v2);
                                lemma_live_bounties_update(vs, vi, v2);
                                assert(spec_bounty(v2) <= spec_bounty(v));
                                if !was_dead && v2.health.value <= 0 {
                                    match fp {
                                        None => {},
                                        Some(pi) => match v.rewards {
                                            None => {},
                                            Some(g) => {
                                                lemma_gold_sum_bound(ps, pi);
                                                lemma_live_bounties_bound(vs, vi);
                                                assert(spec_bounty(v) == g);
                                                assert(spec_bounty(v2) == 0);
                                                assert(ps[pi].gold + g <= i64::MAX);
                                                let p2 = PlayerCombat {
                                                    gold: (ps[pi].gold + g) as i64,
                                                    ..ps[pi]
                                                };
                                                lemma_gold_sum_update(ps, pi, p2);
                                            },
                                        },
                                    }
                                }
                            }
                        },
                    }
                },
            }
        },
    }
}

/// A whole event stream keeps the hit resolver's world well formed; no
/// identifier, team or bounty moves; and total wealth — gold in purses
/// plus bounty still claimable from living victims — never grows. Gold
/// is only ever minted by killing a bounty-carrying victim, so no stream
/// of events can pay out more than the bounties it starts with.
pub proof fn lemma_sword_collisions_wf(
    sw: Seq<SwordRef>,
    ps: Seq<PlayerCombat>,
    vs: Seq<SwordVictim>,
    events: Seq<CollisionEvent>,
)
    requires
        wf_sword_world(ps, vs),
    ensures
        ({
            let r = spec_sword_collisions(sw, ps, vs, events);
            &&& wf_sword_world(r.0, r.1)
            &&& r.0.len() == ps.len()
            &&& r.1.len() == vs.len()
            &&& forall|i: int|
                0 <= i < ps.len() ==> {
                    let p = #[trigger] r.0[i];
                    p.id == ps[i].id && p.team_id == ps[i].team_id && p.gold >= ps[i].gold
                }
            &&& forall|i: int|
                0 <= i < vs.len() ==> {
                    let v = #[trigger] r.1[i];
                    v.id == vs[i].id && v.team_id == vs[i].team_id && v.rewards == vs[i].rewards
                        && v.health.wf() && v.health.max == vs[i].health.max && v.health.value
                        <= vs[i].health.value
                }
            &&& spec_gold_sum(r.0) + spec_live_bounties(r.1) <= spec_gold_sum(ps)
                + spec_live_bounties(vs)
        }),
    decreases events.len(),
{
    if events.len() > 0 {
        lemma_sword_collisions_wf(sw, ps, vs, events.drop_last());
        let prev = spec_sword_collisions(sw, ps, vs, events.drop_last());
        lemma_sword_step_wf(sw, prev.0, prev.1, events.last());
    }
}

/// Resolve one tick's collision events against the swords. A `Started`
/// event carrying a sword whose wielder is on the victim's own team is a
/// no-op — the team check comes before any damage. Otherwise the victim
/// takes `SWORD_DAMAGE`, and the blow that kills a bounty-carrying
/// victim pays its bounty to the wielder, once.
pub fn check_collisions_sword(
    events: &Vec<CollisionEvent>,
    swords: &Vec<SwordRef>,
    players: &mut Vec<PlayerCombat>,
    victims: &mut Vec<SwordVictim>,
)
    requires
        unique_sword_ids(swords@),
        unique_player_ids(old(players)@),
        unique_victim_ids(old(victims)@),
        wf_sword_world(old(players)@, old(victims)@),
    ensures
        final(players)@ == spec_sword_collisions(
            swords@,
            old(players)@,
            old(victims)@,
            events@,
        ).0,
        final(victims)@ == spec_sword_collisions(
            swords@,
            old(players)@,
            old(victims)@,
            events@,
        ).1,
        wf_sword_world(final(players)@, final(victims)@),
{
    let ghost ps0 = players@;
    let ghost vs0 = victims@;
    let n = events.len();
    let mut i: usize = 0;
    proof {
        assert(events@.take(0) =~= Seq::<CollisionEvent>::empty());
    }
    while i < n
        invariant
            n == events@.len(),
            0 <= i <= n,
            unique_sword_ids(swords@),
            unique_player_ids(ps0),
            unique_victim_ids(vs0),
            wf_sword_world(ps0, vs0),
            players@ == spec_sword_collisions(swords@, ps0, vs0, events@.take(i as int)).0,
            victims@ == spec_sword_collisions(swords@, ps0, vs0, events@.take(i as int)).1,
        decreases n - i,
    {
        proof {
            lemma_sword_collisions_wf(swords@, ps0, vs0, events@.take(i as int));
            assert(unique_player_ids(players@));
            assert(unique_victim_ids(victims@));
            assert(events@.take(i + 1).drop_last() =~= events@.take(i as int));
            assert(events@.take(i + 1).last() == events@[i as int]);
        }
        let ghost ps_before = players@;
        let ghost vs_before = victims@;
        match events[i] {
            CollisionEvent::Stopped(_, _) => {},
            CollisionEvent::Started(e1, e2) => {
                let fs = match find_sword(swords, e1) {
                    Some(si) => Some(si),
                    None => find_sword(swords, e2),
                };
                match fs {
                    None => {},
                    Some(si) => {
                        let fv = match find_victim(victims, e1) {
                            Some(vi) => Some(vi),
                            None => find_victim(victims, e2),
                        };
                        match fv {
                            None => {},
                            Some(vi) => {
                                let fp = find_player(players, swords[si].owner);
                                let same_team = match fp {
                                    Some(pi) => players[pi].team_id.eq(&victims[vi].team_id),
                                    None => false,
                                };
                                if !same_team {
                                    let was_dead = victims[vi].health.is_dead();
                                    let mut h = victims[vi].health;
                                    h.hit(SWORD_DAMAGE);
                                    victims[vi].health = h;
                                    proof {
                                        assert(victims@ =~= vs_before.update(
                                            vi as int,
                                            SwordVictim {
                                                health: spec_hit(
                                                    vs_before[vi as int].health,
                                                    SWORD_DAMAGE as int,
                                                ),
                                                ..vs_before[vi as int]
                                            },
                                        ));
                                    }
                                    if !was_dead && victims[vi].health.is_dead() {
                                        match fp {
                                            None => {},
                                            Some(pi) => {
                                                match victims[vi].rewards {
                                                    None => {},
                                                    Some(g) => {
                                                        proof {
                                                            lemma_sword_step_wf(
                                                                swords@,
                                                                ps_before,
                                                                vs_before,
                                                                events@[i as int],
                                                            );
                                                            lemma_gold_sum_bound(
                                                                ps_before,
                                                                pi as int,
                                                            );
                                                            lemma_live_bounties_bound(
                                                                vs_before,
                                                                vi as int,
                                                            );
                                                        }
                                                        let credited = players[pi].gold + g;
                                                        players[pi].gold = credited;
                                                        proof {
                                                            assert(players@ =~= ps_before.update(
                                                                pi as int,
                                                                PlayerCombat {
                                                                    gold: (ps_before[pi as int].gold
                                                                        + g) as i64,
                                                                    ..ps_before[pi as int]
                                                                },
                                                            ));
                                                        }
                                                    },
                                                }
                                            },
                                        }
                                    }
                                }
                            },
                        }
                    },
                }
            },
        }
        i = i + 1;
    }
    proof {
        assert(events@.take(n as int) =~= events@);
        lemma_sword_collisions_wf(swords@, ps0, vs0, events@);
    }
}

} // verus!
