//! Randomness and the wall clock.
use rand::Rng;
use vstd::prelude::*;

verus! {

/// Relies on rand's `Rng::gen_range` on the thread-local generator: a value
/// in `lo..hi`. It panics on an empty range, which `requires` rules out.
#[verifier::external_body]
pub(crate) fn random_in(lo: u64, hi: u64) -> (r: u64)
    requires
        lo < hi,
    ensures
        lo <= r < hi,
{
    rand::thread_rng().gen_range(lo..hi)
}

/// Relies on std's `SystemTime::elapsed` measured from the Unix epoch:
/// nanoseconds since the epoch, or `None` when the clock reads before it.
#[verifier::external_body]
pub(crate) fn unix_time_nanos() -> (r: Option<u128>) {
    std::time::UNIX_EPOCH.elapsed().ok().map(|d| d.as_nanos())
}

/// Picks one entry uniformly at random.
pub fn rand_entry<T>(entries: &[T]) -> (r: &T)
    requires
        entries@.len() > 0,
    ensures
        exists|i: int| 0 <= i < entries@.len() && *r == entries@[i],
{
    let i = random_in(0, entries.len() as u64) as usize;
    &entries[i]
}

} // verus!
