//! A raw noise field: the octave sum of one noise function at every cell.

use vstd::prelude::*;
use crate::fixed::ONE;
use crate::grid::{
    cell_index, get_id_from_pos, in_grid, lemma_cell_of_index, CELL_COUNT, HEIGHT, WIDTH,
};
use crate::octaves::{
    amplitude_sum, coordinates_fit, lemma_amplitude_sum_bounds, lemma_quotient_between,
    lemma_weighted_sum_bounds, noise_in_unit_range, octave_sum, sampled_at, sum_octaves,
    weighted_sum,
};

verus! {

/// Number of octaves in a noise field.
pub const OCTAVES: i32 = 16;

/// Persistence of a noise field: each octave has half the amplitude of the
/// one before.
pub const PERSISTENCE: i32 = 500_000;

/// The largest base scale, in size, at which the coordinates of the last
/// octave still fit the machine at the far corner of the grid.
pub const MAX_SCALE: i64 = 137_506_095_120;

/// Whether `value` is an octave sum of `noise_fn` at cell `(x, y)`: sixteen
/// octaves at half persistence, carried onto the range from zero to one.
pub open spec fn is_cell_noise<F: Fn(i64, i64) -> i32>(
    noise_fn: F,
    scale: int,
    x: int,
    y: int,
    value: int,
) -> bool {
    exists|samples: Seq<i32>|
        samples.len() == OCTAVES && #[trigger] sampled_at(
            noise_fn,
            (x as i32, y as i32),
            scale,
            samples,
        ) && value == octave_sum(samples, PERSISTENCE as int, 0, ONE as int)
}

/// Whether `map` is a noise field of `noise_fn` at base scale `scale`.
pub open spec fn is_noise_map<F: Fn(i64, i64) -> i32>(
    noise_fn: F,
    scale: int,
    map: Seq<i32>,
) -> bool {
    &&& map.len() == CELL_COUNT
    &&& forall|x: int, y: int|
        in_grid(x, y) ==> is_cell_noise(
            noise_fn,
            scale,
            x,
            y,
            map[#[trigger] cell_index(x, y)] as int,
        )
}

/// Whether `noise_fn` has one result only at every point.
pub open spec fn deterministic<F: Fn(i64, i64) -> i32>(noise_fn: F) -> bool {
    forall|x: i64, y: i64, s: i32, t: i32|
        #[trigger] noise_fn.ensures((x, y), s) && #[trigger] noise_fn.ensures((x, y), t) ==> s == t
}

/// A base scale is within `MAX_SCALE` exactly if the coordinates of all
/// sixteen octaves fit the machine at the far corner of the grid, and then
/// they fit at every cell.
pub proof fn lemma_scale_fits(scale: int, x: int, y: int)
    requires
        in_grid(x, y),
    ensures
        -MAX_SCALE <= scale <= MAX_SCALE <==> coordinates_fit(
            ((WIDTH - 1) as i32, (HEIGHT - 1) as i32),
            scale,
            (OCTAVES - 1) as nat,
        ),
        -MAX_SCALE <= scale <= MAX_SCALE ==> coordinates_fit(
            (x as i32, y as i32),
            scale,
            (OCTAVES - 1) as nat,
        ),
{
    vstd::arithmetic::power2::lemma2_to64();
    let top = vstd::arithmetic::power2::pow2(15) as int;
    assert(2047 * scale * 32768 == 67_076_096 * scale) by (nonlinear_arith);
    assert(x * scale * top == (x * 32768) * scale && y * scale * top == (y * 32768) * scale)
        by (nonlinear_arith)
        requires
            top == 32768,
    ;
    if -MAX_SCALE <= scale <= MAX_SCALE {
        assert(-67_076_096 * 137_506_095_120 <= (x * 32768) * scale <= 67_076_096
            * 137_506_095_120) by (nonlinear_arith)
            requires
                0 <= x * 32768 <= 67_076_096,
                -137_506_095_120 <= scale <= 137_506_095_120,
        ;
        assert(-67_076_096 * 137_506_095_120 <= (y * 32768) * scale <= 67_076_096
            * 137_506_095_120) by (nonlinear_arith)
            requires
                0 <= y * 32768 <= 67_076_096,
                -137_506_095_120 <= scale <= 137_506_095_120,
        ;
    }
}

/// Sixteen octaves carried onto zero to one fit an `i32`, whatever the
/// samples are.
pub proof fn lemma_cell_noise_fits(samples: Seq<i32>)
    requires
        samples.len() == OCTAVES,
    ensures
        i32::MIN <= octave_sum(samples, PERSISTENCE as int, 0, ONE as int) <= i32::MAX,
{
    let p = PERSISTENCE as int;
    let total = weighted_sum(samples, p, samples.len());
    let max_amp = amplitude_sum(p, samples.len());
    lemma_weighted_sum_bounds(samples, p, samples.len(), 0x8000_0000);
    lemma_amplitude_sum_bounds(p, samples.len());
    let one = ONE as int;
    let n = total * (one - 0) + (one + 0) * max_amp * one;
    let d = 2 * max_amp * one;
    let limit: int = 1_074_741_824;
    assert(d > 0 && -limit * d <= n <= limit * d) by (nonlinear_arith)
        requires
            -0x8000_0000 * max_amp <= total <= 0x8000_0000 * max_amp,
            max_amp >= one,
            one == 1_000_000,
            n == total * (one - 0) + (one + 0) * max_amp * one,
            d == 2 * max_amp * one,
            limit == 1_074_741_824,
    ;
    lemma_quotient_between(n, d, -limit, limit);
}

/// The noise field of `noise_fn` at base scale `scale`: at every cell the sum
/// of sixteen octaves at half persistence, between zero and one where the
/// noise lies between minus one and one.
pub fn generate_noise_map<F: Fn(i64, i64) -> i32>(noise_fn: F, scale: i64) -> (map: Vec<i32>)
    requires
        -MAX_SCALE <= scale <= MAX_SCALE,
        forall|a: i64, b: i64| noise_fn.requires((a, b)),
    ensures
        is_noise_map(noise_fn, scale as int, map@),
        noise_in_unit_range(noise_fn) ==> forall|i: int|
            0 <= i < map.len() ==> 0 <= #[trigger] map[i] <= ONE,
{
    let mut map: Vec<i32> = vec![0; CELL_COUNT];
    for x in 0..WIDTH
        invariant
            -MAX_SCALE <= scale <= MAX_SCALE,
            forall|a: i64, b: i64| noise_fn.requires((a, b)),
            map.len() == CELL_COUNT,
            forall|u: int, v: int|
                0 <= u < x && 0 <= v < HEIGHT ==> is_cell_noise(
                    noise_fn,
                    scale as int,
                    u,
                    v,
                    map[#[trigger] cell_index(u, v)] as int,
                ),
            noise_in_unit_range(noise_fn) ==> forall|i: int|
                0 <= i < map.len() ==> 0 <= #[trigger] map[i] <= ONE,
    {
        for y in 0..HEIGHT
            invariant
                0 <= x < WIDTH,
                -MAX_SCALE <= scale <= MAX_SCALE,
                forall|a: i64, b: i64| noise_fn.requires((a, b)),
                map.len() == CELL_COUNT,
                forall|u: int, v: int|
                    0 <= u < x && 0 <= v < HEIGHT ==> is_cell_noise(
                        noise_fn,
                        scale as int,
                        u,
                        v,
                        map[#[trigger] cell_index(u, v)] as int,
                    ),
                forall|v: int|
                    0 <= v < y ==> is_cell_noise(
                        noise_fn,
                        scale as int,
                        x as int,
                        v,
                        map[#[trigger] cell_index(x as int, v)] as int,
                    ),
                noise_in_unit_range(noise_fn) ==> forall|i: int|
                    0 <= i < map.len() ==> 0 <= #[trigger] map[i] <= ONE,
        {
            proof {
                lemma_scale_fits(scale as int, x as int, y as int);
            }
            let val = sum_octaves(OCTAVES, (x, y), PERSISTENCE, scale, 0, ONE, &noise_fn);
            proof {
                let samples = choose|samples: Seq<i32>|
                    samples.len() == OCTAVES && #[trigger] sampled_at(
                        &noise_fn,
                        (x, y),
                        scale as int,
                        samples,
                    ) && val == octave_sum(samples, PERSISTENCE as int, 0, ONE as int);
                lemma_cell_noise_fits(samples);
                assert(sampled_at(noise_fn, (x, y), scale as int, samples));
            }
            map.set(get_id_from_pos(x, y), val as i32);
        }
    }
    map
}

/// One noise function at one base scale has one noise field: two fields
/// generated from a deterministic noise function at the same scale are equal,
/// cell by cell.
pub proof fn lemma_noise_map_deterministic<F: Fn(i64, i64) -> i32>(
    noise_fn: F,
    scale: int,
    first: Seq<i32>,
    second: Seq<i32>,
)
    requires
        deterministic(noise_fn),
        is_noise_map(noise_fn, scale, first),
        is_noise_map(noise_fn, scale, second),
    ensures
        first == second,
{
    assert forall|i: int| 0 <= i < first.len() implies first[i] == second[i] by {
        let x = i % (WIDTH as int);
        let y = i / (WIDTH as int);
        lemma_cell_of_index(i);
        let a = choose|samples: Seq<i32>|
            samples.len() == OCTAVES && #[trigger] sampled_at(
                noise_fn,
                (x as i32, y as i32),
                scale,
                samples,
            ) && first[i] as int == octave_sum(samples, PERSISTENCE as int, 0, ONE as int);
        let b = choose|samples: Seq<i32>|
            samples.len() == OCTAVES && #[trigger] sampled_at(
                noise_fn,
                (x as i32, y as i32),
                scale,
                samples,
            ) && second[i] as int == octave_sum(samples, PERSISTENCE as int, 0, ONE as int);
        assert(a =~= b);
    }
}

} // verus!
