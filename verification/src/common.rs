//! Shared fixed-point geometry and reward types.
//!
//! All spatial and monetary quantities in this crate are integers in
//! milli-units: one thousandth of a world unit (or of a gold piece).
//! The simulation is linear in these quantities, so working on integers
//! keeps every computation exact.

use vstd::prelude::*;

verus! {

/// Width of the playable world, in milli-units (2000 world units).
pub const GAME_MAX_WIDTH: i64 = 2_000_000;

/// Height of the playable world, in milli-units (2000 world units).
pub const GAME_MAX_HEIGHT: i64 = 2_000_000;

/// A two-dimensional vector in milli-units.
#[derive(Clone, Copy, PartialEq, Eq, Structural, Debug)]
pub struct Vec2i {
    pub x: i64,
    pub y: i64,
}

/// A three-dimensional vector in milli-units. The `z` component orders
/// drawing only; the simulation moves entities in `x` and `y` and
/// preserves `z` on writes.
#[derive(Clone, Copy, PartialEq, Eq, Structural, Debug)]
pub struct Vec3i {
    pub x: i64,
    pub y: i64,
    pub z: i64,
}

impl Vec2i {
    pub fn new(x: i64, y: i64) -> (r: Vec2i)
        ensures
            r.x == x,
            r.y == y,
    {
        Vec2i { x, y }
    }
}

impl Vec3i {
    pub fn new(x: i64, y: i64, z: i64) -> (r: Vec3i)
        ensures
            r.x == x,
            r.y == y,
            r.z == z,
    {
        Vec3i { x, y, z }
    }
}

/// Positions the simulation works on stay within one world rectangle of
/// the origin on each axis; entities past half the world size are culled
/// long before that.
pub open spec fn in_world(p: Vec3i) -> bool {
    -GAME_MAX_WIDTH <= p.x <= GAME_MAX_WIDTH && -GAME_MAX_HEIGHT <= p.y <= GAME_MAX_HEIGHT
}

/// A world-bounded position whose `z` is bounded too, for computations
/// that run over all three axes.
pub open spec fn in_world_z(p: Vec3i) -> bool {
    in_world(p) && -GAME_MAX_WIDTH <= p.z <= GAME_MAX_WIDTH
}

/// Squared planar distance between two positions. Comparisons use the
/// square to avoid the root; `z` never enters a distance.
pub open spec fn spec_dist2(a: Vec3i, b: Vec3i) -> int {
    (a.x - b.x) * (a.x - b.x) + (a.y - b.y) * (a.y - b.y)
}

pub fn dist2(a: &Vec3i, b: &Vec3i) -> (r: i64)
    requires
        in_world(*a),
        in_world(*b),
    ensures
        r == spec_dist2(*a, *b),
        0 <= r <= 32_000_000_000_000,
{
    let dx = a.x - b.x;
    let dy = a.y - b.y;
    proof {
        assert(0 <= dx * dx <= 16_000_000_000_000) by (nonlinear_arith)
            requires
                -4_000_000 <= dx <= 4_000_000,
        ;
        assert(0 <= dy * dy <= 16_000_000_000_000) by (nonlinear_arith)
            requires
                -4_000_000 <= dy <= 4_000_000,
        ;
    }
    dx * dx + dy * dy
}

/// `r` is the integer square root of `n`.
pub open spec fn is_sqrt(n: int, r: int) -> bool {
    0 <= r && r * r <= n && n < (r + 1) * (r + 1)
}

/// The integer square root: the largest `r` with `r * r <= n`.
pub open spec fn spec_isqrt(n: int) -> int {
    choose|r: int| is_sqrt(n, r)
}

/// Every nonnegative integer has an integer square root.
pub proof fn lemma_sqrt_exists(n: int)
    requires
        n >= 0,
    ensures
        is_sqrt(n, spec_isqrt(n)),
    decreases n,
{
    if n == 0 {
        assert(is_sqrt(0, 0));
    } else {
        lemma_sqrt_exists(n - 1);
        let r = spec_isqrt(n - 1);
        if (r + 1) * (r + 1) <= n {
            assert(is_sqrt(n, r + 1)) by (nonlinear_arith)
                requires
                    is_sqrt(n - 1, r),
                    (r + 1) * (r + 1) <= n,
            ;
        } else {
            assert(is_sqrt(n, r));
        }
    }
    let w = choose|w: int| is_sqrt(n, w);
    assert(is_sqrt(n, w));
}

/// The integer square root is unique.
pub proof fn lemma_sqrt_unique(n: int, a: int, b: int) by (nonlinear_arith)
    requires
        is_sqrt(n, a),
        is_sqrt(n, b),
    ensures
        a == b,
{
}

/// Integer square root, by bisection.
pub fn isqrt(n: u64) -> (r: u64)
    requires
        n < 0x4000_0000_0000_0000,
    ensures
        is_sqrt(n as int, r as int),
        r == spec_isqrt(n as int),
{
    let mut lo: u64 = 0;
    let mut hi: u64 = 0x8000_0000;
    proof {
        assert((hi * hi) as int > n) by (nonlinear_arith)
            requires
                hi == 0x8000_0000u64,
                n < 0x4000_0000_0000_0000u64,
        ;
    }
    while lo + 1 < hi
        invariant
            0 <= lo < hi <= 0x8000_0000,
            lo * lo <= n,
            (hi * hi) as int > n,
        decreases hi - lo,
    {
        let mid = lo + (hi - lo) / 2;
        proof {
            assert(mid * mid < 0x8000_0000u64 * 0x8000_0000u64) by (nonlinear_arith)
                requires
                    0 <= mid < 0x8000_0000u64,
            ;
        }
        if mid * mid <= n {
            lo = mid;
        } else {
            hi = mid;
        }
    }
    proof {
        lemma_sqrt_exists(n as int);
        lemma_sqrt_unique(n as int, lo as int, spec_isqrt(n as int));
    }
    lo
}

/// Marks an entity that a camera may follow, at its last known position.
pub struct Target {
    pub position: Vec3i,
}

/// A display name attached to an entity.
pub struct Name(pub String);

/// The bounty paid to a killer, in milli-gold.
#[derive(Clone, Copy, PartialEq, Eq, Structural, Debug)]
pub struct Rewards {
    pub gold: i64,
}

} // verus!
