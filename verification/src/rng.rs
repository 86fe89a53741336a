//! The randomness the simulation consumes, behind trusted wrappers, and
//! the derivation of the game's RNG seed.

use vstd::prelude::*;
use rand::Rng;

verus! {

/// Smallest positional jitter a spawned minion gets, in milli-units.
pub const SPAWN_JITTER_MIN: i64 = 2_000;

/// One past the largest positional jitter, in milli-units.
pub const SPAWN_JITTER_MAX: i64 = 10_000;

/// Relies on rand::Rng::gen_range on a thread-local generator: a sample
/// from the given range, which is non-empty here, so the call cannot
/// panic. Nothing beyond the range is promised of the outcome.
#[verifier::external_body]
pub(crate) fn spawn_jitter() -> (r: i64)
    ensures
        SPAWN_JITTER_MIN <= r < SPAWN_JITTER_MAX,
{
    let mut rng = rand::thread_rng();
    rng.gen_range(2_000..10_000)
}

/// Relies on rand::random for bool: a coin flip. Either outcome may come
/// back; nothing is promised of it.
#[verifier::external_body]
pub(crate) fn coin_flip() -> (r: bool)
{
    rand::random::<bool>()
}

/// The 64-bit digest xxh3 assigns to a byte sequence. The digest depends
/// on the bytes alone.
pub uninterp spec fn xxh3_of(bytes: Seq<u8>) -> u64;

/// Relies on xxhash_rust::xxh3::xxh3_64: the xxh3 digest of the bytes.
#[verifier::external_body]
fn xxh3_digest(bytes: &Vec<u8>) -> (r: u64)
    ensures
        r == xxh3_of(bytes@),
{
    xxhash_rust::xxh3::xxh3_64(bytes.as_slice())
}

/// The fixed phrase the game derives its RNG seed from.
pub open spec fn spec_seed_phrase() -> Seq<u8> {
    seq![0x31u8, 0x33u8, 0x55u8, 0x32u8, 0x78u8]
}

/// The seed the game hands its random-number generator: the xxh3 digest
/// of its fixed seed phrase.
pub fn rng_seed() -> (r: u64)
    ensures
        r == xxh3_of(spec_seed_phrase()),
{
    let mut bytes: Vec<u8> = Vec::new();
    bytes.push(0x31);
    bytes.push(0x33);
    bytes.push(0x55);
    bytes.push(0x32);
    bytes.push(0x78);
    proof {
        assert(bytes@ =~= spec_seed_phrase());
    }
    xxh3_digest(&bytes)
}

} // verus!
