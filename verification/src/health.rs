//! Per-entity damage accumulator and health-bar bookkeeping.
//!
//! `Health` only tracks damage: `hit` rejects negative amounts and clamps
//! the remaining value at zero, and `is_dead` holds exactly when the value
//! has reached zero. Bounty transfer on death is the combat module's job.

use vstd::prelude::*;
use crate::common::{Vec2i, Vec3i};

verus! {

/// The health value left after one `hit` of `amount` on `value`.
pub open spec fn hit_value(value: int, amount: int) -> int {
    if amount < 0 {
        value
    } else if amount >= value {
        0
    } else {
        value - amount
    }
}

/// The health value left after a sequence of hits, applied in order.
pub open spec fn hit_values(value: int, amounts: Seq<int>) -> int
    decreases amounts.len(),
{
    if amounts.len() == 0 {
        value
    } else {
        hit_values(hit_value(value, amounts[0]), amounts.drop_first())
    }
}

/// Health never heals through `hit`: after any sequence of hits the value
/// is still within `[0, value]` — non-increasing and never negative.
pub proof fn lemma_hits_monotonic(value: int, amounts: Seq<int>)
    requires
        value >= 0,
    ensures
        0 <= hit_values(value, amounts) <= value,
    decreases amounts.len(),
{
    if amounts.len() > 0 {
        lemma_hits_monotonic(hit_value(value, amounts[0]), amounts.drop_first());
    }
}

/// The whole health record after one hit: only the value moves.
pub open spec fn spec_hit(h: Health, amount: int) -> Health {
    Health { value: hit_value(h.value as int, amount) as i64, ..h }
}

/// Damage accumulator of one entity, in milli-units of health.
#[derive(Clone, Copy, Debug)]
pub struct Health {
    pub value: i64,
    pub max: i64,

    /// Set until a health bar has been spawned for this entity.
    pub add_health_bar: bool,
    pub health_bar_size: Option<Vec2i>,
    pub health_bar_position: Option<Vec3i>,
}

impl Health {
    /// `0 <= value <= max` in every reachable state.
    pub open spec fn wf(self) -> bool {
        0 <= self.value <= self.max
    }

    pub fn new(max: i64) -> (r: Health)
        requires
            max >= 0,
        ensures
            r.wf(),
            r.value == max,
            r.max == max,
            r.add_health_bar,
            r.health_bar_position is None,
            r.health_bar_size is None,
    {
        Health {
            value: max,
            max,
            add_health_bar: true,
            health_bar_position: None,
            health_bar_size: None,
        }
    }

    pub fn with_health_bar_position(self, position: Vec3i) -> (r: Health)
        ensures
            r == (Health { health_bar_position: Some(position), ..self }),
    {
        Health { health_bar_position: Some(position), ..self }
    }

    pub fn with_health_bar_size(self, size: Vec2i) -> (r: Health)
        ensures
            r == (Health { health_bar_size: Some(size), ..self }),
    {
        Health { health_bar_size: Some(size), ..self }
    }

    /// Apply `amount` of damage: a negative amount is a no-op, and the
    /// remaining value clamps at zero. Nothing else changes.
    pub fn hit(&mut self, amount: i64)
        requires
            old(self).wf(),
        ensures
            final(self).wf(),
            *final(self) == spec_hit(*old(self), amount as int),
            final(self).value == hit_value(old(self).value as int, amount as int),
            final(self).value <= old(self).value,
    {
        if amount < 0 {
            return;
        }
        if amount >= self.value {
            self.value = 0;
        } else {
            self.value = self.value - amount;
        }
    }

    /// Dead exactly when no health is left.
    pub fn is_dead(&self) -> (r: bool)
        ensures
            r == (self.value <= 0),
    {
        self.value <= 0
    }
}

/// A health bar: a weak back-reference to the entity whose health it
/// shows, with its offset from that entity and its full size.
pub struct HealthBar {
    pub entity: u64,
    pub translation: Vec3i,
    pub size: Vec2i,
}

/// Everything a freshly spawned health bar carries. Bars spawn hidden
/// and show once first positioned over a live owner.
pub struct HealthBarBundle {
    pub health_bar: HealthBar,
    pub visible: bool,
}

impl HealthBarBundle {
    pub fn new(entity: u64, translation: Vec3i, size: Vec2i) -> (r: HealthBarBundle)
        ensures
            r.health_bar.entity == entity,
            r.health_bar.translation == translation,
            r.health_bar.size == size,
            !r.visible,
    {
        HealthBarBundle { health_bar: HealthBar { entity, translation, size }, visible: false }
    }
}

/// An entity with health, as the bar-spawning pass sees it.
pub struct HealthOwner {
    pub id: u64,
    pub health: Health,
}

/// The bar a flagged owner gets: the offset and size its health records,
/// or the stock ones.
pub open spec fn spec_bar_for(o: HealthOwner) -> HealthBarBundle {
    HealthBarBundle {
        health_bar: HealthBar {
            entity: o.id,
            translation: match o.health.health_bar_position {
                Some(p) => p,
                None => Vec3i { x: 0, y: 15_000, z: 100 },
            },
            size: match o.health.health_bar_size {
                Some(s) => s,
                None => Vec2i { x: 10_000, y: 5_000 },
            },
        },
        visible: false,
    }
}

/// The bars one pass spawns: one per still-flagged owner, in store order.
pub open spec fn spec_new_bars(s: Seq<HealthOwner>) -> Seq<HealthBarBundle>
    decreases s.len(),
{
    if s.len() == 0 {
        Seq::empty()
    } else {
        let prev = spec_new_bars(s.drop_last());
        if s.last().health.add_health_bar {
            prev.push(spec_bar_for(s.last()))
        } else {
            prev
        }
    }
}

/// Spawn a bar for every owner still flagged for one, clearing the flag
/// so each owner gets its bar exactly once.
pub fn add_health_bars(owners: &mut Vec<HealthOwner>) -> (bars: Vec<HealthBarBundle>)
    ensures
        final(owners)@.len() == old(owners)@.len(),
        forall|i: int|
            0 <= i < old(owners)@.len() ==> #[trigger] final(owners)@[i] == (HealthOwner {
                health: Health { add_health_bar: false, ..old(owners)@[i].health },
                ..old(owners)@[i]
            }),
        bars@ == spec_new_bars(old(owners)@),
{
    let ghost s0 = owners@;
    let mut bars: Vec<HealthBarBundle> = Vec::new();
    let n = owners.len();
    let mut i: usize = 0;
    proof {
        assert(s0.take(0) =~= Seq::<HealthOwner>::empty());
    }
    while i < n
        invariant
            n == s0.len(),
            owners@.len() == s0.len(),
            0 <= i <= n,
            forall|k: int| i <= k < n ==> #[trigger] owners@[k] == s0[k],
            forall|k: int|
                0 <= k < i ==> #[trigger] owners@[k] == (HealthOwner {
                    health: Health { add_health_bar: false, ..s0[k].health },
                    ..s0[k]
                }),
            bars@ == spec_new_bars(s0.take(i as int)),
        decreases n - i,
    {
        proof {
            assert(s0.take(i + 1).drop_last() =~= s0.take(i as int));
            assert(s0.take(i + 1).last() == s0[i as int]);
        }
        if owners[i].health.add_health_bar {
            let id = owners[i].id;
            let translation = match owners[i].health.health_bar_position {
                Some(p) => p,
                None => Vec3i::new(0, 15_000, 100),
            };
            let size = match owners[i].health.health_bar_size {
                Some(s) => s,
                None => Vec2i::new(10_000, 5_000),
            };
            bars.push(HealthBarBundle::new(id, translation, size));
        }
        owners[i].health.add_health_bar = false;
        i = i + 1;
    }
    proof {
        assert(s0.take(n as int) =~= s0);
    }
    bars
}

/// A spawned health bar with its own identifier.
pub struct BarEntity {
    pub id: u64,
    pub health_bar: HealthBar,
}

/// Whether `ids` holds `id`.
pub fn contains_id(ids: &Vec<u64>, id: u64) -> (r: bool)
    ensures
        r == ids@.contains(id),
{
    let n = ids.len();
    let mut i: usize = 0;
    while i < n
        invariant
            n == ids@.len(),
            0 <= i <= n,
            forall|k: int| 0 <= k < i ==> ids@[k] != id,
        decreases n - i,
    {
        if ids[i] == id {
            return true;
        }
        i = i + 1;
    }
    false
}

/// The bars whose owner is gone, in store order.
pub open spec fn spec_orphan_ids(bars: Seq<BarEntity>, owner_ids: Seq<u64>) -> Seq<u64>
    decreases bars.len(),
{
    if bars.len() == 0 {
        Seq::empty()
    } else {
        let prev = spec_orphan_ids(bars.drop_last(), owner_ids);
        if !owner_ids.contains(bars.last().health_bar.entity) {
            prev.push(bars.last().id)
        } else {
            prev
        }
    }
}

/// One pass of the weak-reference check: the bars whose owner entity no
/// longer exists, to be despawned. A bar never outlives its owner by
/// more than one pass.
pub fn clear_orphans_healthbars(bars: &Vec<BarEntity>, owner_ids: &Vec<u64>) -> (r: Vec<u64>)
    ensures
        r@ == spec_orphan_ids(bars@, owner_ids@),
{
    let mut r: Vec<u64> = Vec::new();
    let n = bars.len();
    let mut i: usize = 0;
    proof {
        assert(bars@.take(0) =~= Seq::<BarEntity>::empty());
    }
    while i < n
        invariant
            n == bars@.len(),
            0 <= i <= n,
            r@ == spec_orphan_ids(bars@.take(i as int), owner_ids@),
        decreases n - i,
    {
        proof {
            assert(bars@.take(i + 1).drop_last() =~= bars@.take(i as int));
            assert(bars@.take(i + 1).last() == bars@[i as int]);
        }
        if !contains_id(owner_ids, bars[i].health_bar.entity) {
            r.push(bars[i].id);
        }
        i = i + 1;
    }
    proof {
        assert(bars@.take(n as int) =~= bars@);
    }
    r
}

/// Reposition one bar over its owner and show it; a bar whose owner
/// cannot be found is left alone (the orphan pass will collect it).
pub fn update_health_bar_position(
    bar: &HealthBar,
    owner_position: Option<&Vec3i>,
    bar_position: &mut Vec3i,
    visible: &mut bool,
)
    requires
        owner_position matches Some(p) ==> crate::common::in_world_z(*p),
        -1_000_000 <= bar.translation.x <= 1_000_000,
        -1_000_000 <= bar.translation.y <= 1_000_000,
        -1_000_000 <= bar.translation.z <= 1_000_000,
    ensures
        match owner_position {
            Some(p) => *final(bar_position) == (Vec3i {
                x: (p.x + bar.translation.x) as i64,
                y: (p.y + bar.translation.y) as i64,
                z: (p.z + bar.translation.z) as i64,
            }) && *final(visible),
            None => *final(bar_position) == *old(bar_position) && *final(visible) == *old(visible),
        },
{
    match owner_position {
        Some(p) => {
            *bar_position = Vec3i::new(
                p.x + bar.translation.x,
                p.y + bar.translation.y,
                p.z + bar.translation.z,
            );
            *visible = true;
        },
        None => {},
    }
}

/// The size a bar is drawn at: its width scales with the fraction of
/// health left, its height stays.
pub fn update_health_bar_visual(health: &Health, full_size: &Vec2i) -> (r: Vec2i)
    requires
        health.wf(),
        0 < health.max <= 1_000_000_000,
        0 <= full_size.x <= 1_000_000,
    ensures
        r.x == health.value * full_size.x / (health.max as int),
        r.y == full_size.y,
{
    proof {
        assert(health.value * full_size.x <= 1_000_000_000_000_000) by (nonlinear_arith)
            requires
                0 <= health.value <= 1_000_000_000i64,
                0 <= full_size.x <= 1_000_000i64,
        ;
        assert(health.value * full_size.x >= 0) by (nonlinear_arith)
            requires
                health.value >= 0i64,
                full_size.x >= 0i64,
        ;
    }
    let scaled = (health.value as u64) * (full_size.x as u64);
    let width = scaled / (health.max as u64);
    proof {
        assert(width <= scaled) by (nonlinear_arith)
            requires
                width == scaled / (health.max as u64),
                health.max >= 1i64,
        ;
    }
    Vec2i { x: width as i64, y: full_size.y }
}

} // verus!
