//! Seeds: one for each noise layer of a map, drawn afresh for every map.

use vstd::prelude::*;

verus! {

/// `rand::Rng::gen_range` on `rand::thread_rng()`: some value from `low`
/// up to, but not including, `high`. It panics when `low >= high`, which
/// the precondition rules out; nothing else is known of the value. The
/// generator is seeded by the operating system when a thread first uses it,
/// and panics if the system has no seed to give.
#[verifier::external_body]
fn random_in(low: i64, high: i64) -> (value: i64)
    requires
        low < high,
    ensures
        low <= value < high,
{
    rand::Rng::gen_range(&mut rand::thread_rng(), low, high)
}

/// The seed that a draw below `i64::MAX - 1` stands for when `taken` may not
/// be used again: the draw itself below `taken`, the next value from there
/// on.
pub open spec fn skip_taken(taken: int, drawn: int) -> int {
    if drawn >= taken {
        drawn + 1
    } else {
        drawn
    }
}

/// Turns a draw into a seed other than `taken`. Draws that differ give seeds
/// that differ, so a fair draw gives a fair seed.
pub fn distinct_seed(taken: i64, drawn: i64) -> (seed: i64)
    requires
        0 <= taken < i64::MAX,
        0 <= drawn < i64::MAX - 1,
    ensures
        seed == skip_taken(taken as int, drawn as int),
        0 <= seed < i64::MAX,
        seed != taken,
{
    if drawn >= taken {
        drawn + 1
    } else {
        drawn
    }
}

/// Two fresh seeds, the first for the height noise and the second for the
/// moisture noise. Both lie from zero up to, but not including, `i64::MAX`,
/// and they differ, so that the two layers are not the same noise.
pub fn draw_seeds() -> (seeds: (i64, i64))
    ensures
        0 <= seeds.0 < i64::MAX,
        0 <= seeds.1 < i64::MAX,
        seeds.0 != seeds.1,
{
    let height_seed = random_in(0, i64::MAX);
    let drawn = random_in(0, i64::MAX - 1);
    (height_seed, distinct_seed(height_seed, drawn))
}

} // verus!
