//! Octave summation: layers of one noise function, each at twice the
//! frequency of the one before and at the persistence times its amplitude,
//! folded into one scalar within a chosen range.

use vstd::prelude::*;
use vstd::arithmetic::power2::{
    lemma_pow2_pos, lemma_pow2_strictly_increases, lemma_pow2_unfold, pow2,
};
use crate::fixed::{floor_div, ONE};

verus! {

/// The largest amplitude that the machine takes: two to the power of 32
/// millionths, a little under 4295.
pub const MAX_AMPLITUDE: i64 = 0x1_0000_0000;

/// The coordinate at which `octave` samples the noise: the grid coordinate
/// times the base scale, doubled once per octave.
pub open spec fn octave_coordinate(c: int, scale: int, octave: nat) -> int {
    c * scale * pow2(octave)
}

/// Whether the coordinates of every octave up to `last` fit the machine.
pub open spec fn coordinates_fit(point: (i32, i32), scale: int, last: nat) -> bool {
    &&& i64::MIN <= octave_coordinate(point.0 as int, scale, last) <= i64::MAX
    &&& i64::MIN <= octave_coordinate(point.1 as int, scale, last) <= i64::MAX
}

/// Amplitude of `octave`: one for the first, then the persistence times the
/// amplitude before, rounded down.
pub open spec fn amplitude(persistence: int, octave: nat) -> int
    decreases octave,
{
    if octave == 0 {
        ONE as int
    } else {
        amplitude(persistence, (octave - 1) as nat) * persistence / (ONE as int)
    }
}

/// Sum of the amplitudes of the first `octaves` octaves.
pub open spec fn amplitude_sum(persistence: int, octaves: nat) -> int
    decreases octaves,
{
    if octaves == 0 {
        0
    } else {
        amplitude_sum(persistence, (octaves - 1) as nat) + amplitude(
            persistence,
            (octaves - 1) as nat,
        )
    }
}

/// Whether the amplitudes of the first `octaves` octaves fit the machine. At
/// a persistence of at most one they always do.
pub open spec fn amplitudes_fit(persistence: int, octaves: nat) -> bool {
    persistence <= ONE || forall|i: nat|
        i < octaves ==> #[trigger] amplitude(persistence, i) <= MAX_AMPLITUDE
}

/// Sum of the first `octaves` samples, each times the amplitude of its octave.
pub open spec fn weighted_sum(samples: Seq<i32>, persistence: int, octaves: nat) -> int
    decreases octaves,
{
    if octaves == 0 {
        0
    } else {
        weighted_sum(samples, persistence, (octaves - 1) as nat) + samples[octaves - 1]
            * amplitude(persistence, (octaves - 1) as nat)
    }
}

/// The weighted sum of the samples over the sum of the amplitudes, carried
/// onto the range from `low` to `high`: that ratio, which lies between minus
/// one and one where the samples do, times half the range's width, plus the
/// range's middle. The exact value is rounded down once, to a whole
/// millionth.
pub open spec fn octave_sum(samples: Seq<i32>, persistence: int, low: int, high: int) -> int {
    let total = weighted_sum(samples, persistence, samples.len());
    let max_amp = amplitude_sum(persistence, samples.len());
    (total * (high - low) + (high + low) * max_amp * ONE) / (2 * max_amp * ONE)
}

/// Whether `samples` are values that `noise_fn` can return at the octave
/// coordinates of `point`, first octave first.
pub open spec fn sampled_at<F: Fn(i64, i64) -> i32>(
    noise_fn: F,
    point: (i32, i32),
    scale: int,
    samples: Seq<i32>,
) -> bool {
    forall|i: int|
        0 <= i < samples.len() ==> noise_fn.ensures(
            (
                octave_coordinate(point.0 as int, scale, i as nat) as i64,
                octave_coordinate(point.1 as int, scale, i as nat) as i64,
            ),
            #[trigger] samples[i],
        )
}

/// Whether `noise_fn` returns nothing outside minus one to one.
pub open spec fn noise_in_unit_range<F: Fn(i64, i64) -> i32>(noise_fn: F) -> bool {
    forall|x: i64, y: i64, s: i32| #[trigger] noise_fn.ensures((x, y), s) ==> -ONE <= s <= ONE
}

/// An octave's coordinate lies between zero and the coordinate of any later
/// octave.
proof fn lemma_coordinate_between(c: int, scale: int, octave: nat, later: nat)
    requires
        octave <= later,
    ensures
        octave_coordinate(c, scale, 0) == c * scale,
        octave_coordinate(c, scale, later) >= 0 ==> 0 <= octave_coordinate(c, scale, octave)
            <= octave_coordinate(c, scale, later),
        octave_coordinate(c, scale, later) <= 0 ==> octave_coordinate(c, scale, later)
            <= octave_coordinate(c, scale, octave) <= 0,
        octave_coordinate(c, scale, octave + 1) == 2 * octave_coordinate(c, scale, octave),
{
    lemma_pow2_pos(octave);
    lemma_pow2_pos(later);
    lemma_pow2_pos(0);
    lemma_pow2_unfold(octave + 1);
    assert(pow2(0) == 1) by {
        vstd::arithmetic::power2::lemma2_to64();
    }
    if octave < later {
        lemma_pow2_strictly_increases(octave, later);
    }
    let p = c * scale;
    let a = pow2(octave) as int;
    let b = pow2(later) as int;
    let d = pow2(octave + 1) as int;
    assert(p >= 0 ==> 0 <= p * a <= p * b) by (nonlinear_arith)
        requires
            0 < a <= b,
    ;
    assert(p <= 0 ==> p * b <= p * a <= 0) by (nonlinear_arith)
        requires
            0 < a <= b,
    ;
    assert(p * b >= 0 ==> p >= 0) by (nonlinear_arith)
        requires
            0 < b,
    ;
    assert(p * b <= 0 ==> p <= 0) by (nonlinear_arith)
        requires
            0 < b,
    ;
    assert(p * d == 2 * (p * a)) by (nonlinear_arith)
        requires
            d == 2 * a,
    ;
}

/// No amplitude is negative.
pub proof fn lemma_amplitude_nonnegative(persistence: int, octave: nat)
    requires
        0 <= persistence,
    ensures
        0 <= amplitude(persistence, octave),
    decreases octave,
{
    if octave > 0 {
        lemma_amplitude_nonnegative(persistence, (octave - 1) as nat);
        let a = amplitude(persistence, (octave - 1) as nat);
        assert(0 <= a * persistence) by (nonlinear_arith)
            requires
                0 <= a,
                0 <= persistence,
        ;
        vstd::arithmetic::div_mod::lemma_div_is_ordered(0, a * persistence, ONE as int);
    }
}

/// At a persistence of at most one, amplitudes lie between zero and one and
/// never rise.
pub proof fn lemma_amplitude_fades(persistence: int, octave: nat)
    requires
        0 <= persistence <= ONE,
    ensures
        0 <= amplitude(persistence, octave + 1) <= amplitude(persistence, octave) <= ONE,
    decreases octave,
{
    if octave > 0 {
        lemma_amplitude_fades(persistence, (octave - 1) as nat);
    }
    let a = amplitude(persistence, octave);
    assert(0 <= a * persistence <= a * ONE) by (nonlinear_arith)
        requires
            0 <= a,
            0 <= persistence <= ONE,
    ;
    assert(a * ONE / (ONE as int) == a) by (nonlinear_arith)
        requires
            ONE == 1_000_000,
    ;
    vstd::arithmetic::div_mod::lemma_div_is_ordered(0, a * persistence, ONE as int);
    vstd::arithmetic::div_mod::lemma_div_is_ordered(a * persistence, a * ONE, ONE as int);
}

/// Amplitudes that fit lie between zero and `MAX_AMPLITUDE`.
proof fn lemma_amplitude_fits(persistence: int, octaves: nat, octave: nat)
    requires
        0 <= persistence,
        amplitudes_fit(persistence, octaves),
        octave < octaves,
    ensures
        0 <= amplitude(persistence, octave) <= MAX_AMPLITUDE,
{
    lemma_amplitude_nonnegative(persistence, octave);
    if persistence <= ONE {
        lemma_amplitude_fades(persistence, octave);
    }
}

/// The sum of the amplitudes is never negative, and at least one once there
/// is an octave.
pub proof fn lemma_amplitude_sum_bounds(persistence: int, octaves: nat)
    requires
        0 <= persistence,
    ensures
        0 <= amplitude_sum(persistence, octaves),
        octaves >= 1 ==> amplitude_sum(persistence, octaves) >= ONE,
    decreases octaves,
{
    if octaves > 0 {
        lemma_amplitude_sum_bounds(persistence, (octaves - 1) as nat);
        lemma_amplitude_nonnegative(persistence, (octaves - 1) as nat);
    }
}

/// Samples that stay within `bound` give a weighted sum within `bound` times
/// the sum of the amplitudes.
pub proof fn lemma_weighted_sum_bounds(
    samples: Seq<i32>,
    persistence: int,
    octaves: nat,
    bound: int,
)
    requires
        0 <= persistence,
        octaves <= samples.len(),
        forall|i: int| 0 <= i < octaves ==> -bound <= #[trigger] samples[i] <= bound,
    ensures
        -bound * amplitude_sum(persistence, octaves) <= weighted_sum(samples, persistence, octaves)
            <= bound * amplitude_sum(persistence, octaves),
    decreases octaves,
{
    if octaves > 0 {
        let before = (octaves - 1) as nat;
        lemma_weighted_sum_bounds(samples, persistence, before, bound);
        lemma_amplitude_nonnegative(persistence, before);
        let s = samples[octaves - 1] as int;
        let a = amplitude(persistence, before);
        let m = amplitude_sum(persistence, before);
        assert(-bound * a <= s * a <= bound * a) by (nonlinear_arith)
            requires
                -bound <= s <= bound,
                0 <= a,
        ;
        assert(bound * (m + a) == bound * m + bound * a && -bound * (m + a) == -bound * m
            + -bound * a) by (nonlinear_arith);
    }
}

/// The weighted sum of the first `octaves` samples does not depend on later
/// samples.
proof fn lemma_weighted_sum_prefix(
    samples: Seq<i32>,
    longer: Seq<i32>,
    persistence: int,
    octaves: nat,
)
    requires
        octaves <= samples.len() <= longer.len(),
        forall|i: int| 0 <= i < samples.len() ==> samples[i] == longer[i],
    ensures
        weighted_sum(samples, persistence, octaves) == weighted_sum(longer, persistence, octaves),
    decreases octaves,
{
    if octaves > 0 {
        lemma_weighted_sum_prefix(samples, longer, persistence, (octaves - 1) as nat);
    }
}

/// A quotient lies between two integers when the dividend lies between their
/// products with the divisor.
pub proof fn lemma_quotient_between(n: int, d: int, low: int, high: int)
    requires
        d > 0,
        low * d <= n <= high * d,
    ensures
        low <= n / d <= high,
{
    vstd::arithmetic::div_mod::lemma_div_is_ordered(low * d, n, d);
    vstd::arithmetic::div_mod::lemma_div_is_ordered(n, high * d, d);
    vstd::arithmetic::div_mod::lemma_div_multiples_vanish(low, d);
    vstd::arithmetic::div_mod::lemma_div_multiples_vanish(high, d);
    assert(low * d == d * low && high * d == d * high) by (nonlinear_arith);
}

/// With at least one octave, a persistence that is not negative, samples
/// between minus one and one and `low <= high`, the octave sum lies between
/// `low` and `high`.
pub proof fn lemma_octave_sum_in_range(
    samples: Seq<i32>,
    persistence: int,
    low: int,
    high: int,
)
    requires
        samples.len() >= 1,
        0 <= persistence,
        forall|i: int| 0 <= i < samples.len() ==> -ONE <= #[trigger] samples[i] <= ONE,
        low <= high,
    ensures
        low <= octave_sum(samples, persistence, low, high) <= high,
{
    let total = weighted_sum(samples, persistence, samples.len());
    let max_amp = amplitude_sum(persistence, samples.len());
    lemma_weighted_sum_bounds(samples, persistence, samples.len(), ONE as int);
    lemma_amplitude_sum_bounds(persistence, samples.len());
    let one = ONE as int;
    let n = total * (high - low) + (high + low) * max_amp * one;
    let d = 2 * max_amp * one;
    assert(d > 0 && low * d <= n <= high * d) by (nonlinear_arith)
        requires
            -one * max_amp <= total <= one * max_amp,
            max_amp >= one,
            one > 0,
            low <= high,
            n == total * (high - low) + (high + low) * max_amp * one,
            d == 2 * max_amp * one,
    ;
    lemma_quotient_between(n, d, low, high);
}

/// One more octave keeps the sums within the machine: the weighted sum
/// stays within the largest sample times the sum of the amplitudes.
proof fn lemma_octave_step_fits(
    total: int,
    max_amp: int,
    amp: int,
    sample: int,
    persistence: int,
    octave: int,
)
    requires
        0 <= octave < 0x8000_0000,
        0 <= amp <= MAX_AMPLITUDE,
        0 <= persistence < 0x8000_0000,
        0 <= max_amp <= octave * MAX_AMPLITUDE,
        -0x8000_0000 * max_amp <= total <= 0x8000_0000 * max_amp,
        -0x8000_0000 <= sample < 0x8000_0000,
    ensures
        -0x8000_0000 * (max_amp + amp) <= total + sample * amp <= 0x8000_0000 * (max_amp + amp),
        -0x8000_0000_0000_0000 <= sample * amp <= 0x8000_0000_0000_0000,
        -0x4000_0000_0000_0000_0000_0000 <= total <= 0x4000_0000_0000_0000_0000_0000,
        0 <= max_amp + amp <= (octave + 1) * MAX_AMPLITUDE,
        0 <= amp * persistence <= 0x8000_0000_0000_0000,
{
    let b: int = 0x8000_0000;
    let limit: int = 0x1_0000_0000;
    assert(-b * amp <= sample * amp <= b * amp && 0 <= amp * persistence <= limit * b && b * amp
        <= b * limit) by (nonlinear_arith)
        requires
            -b <= sample <= b,
            0 <= amp <= limit,
            0 <= persistence <= b,
            b > 0,
    ;
    assert((octave + 1) * limit == octave * limit + limit && 0 <= octave * limit <= b * limit)
        by (nonlinear_arith)
        requires
            0 <= octave <= b,
            limit > 0,
    ;
    assert(b * max_amp <= b * (b * limit)) by (nonlinear_arith)
        requires
            0 <= max_amp <= b * limit,
            b > 0,
    ;
    assert(limit * b == 0x8000_0000_0000_0000 && b * (b * limit)
        == 0x4000_0000_0000_0000_0000_0000) by (nonlinear_arith)
        requires
            b == 0x8000_0000,
            limit == 0x1_0000_0000,
    ;
}

/// The last step of the octave sum stays within the machine, and its
/// quotient fits an `i64`.
proof fn lemma_last_step_fits(
    total: int,
    max_amp: int,
    span: int,
    middle: int,
    octaves: int,
)
    requires
        1 <= octaves < 0x8000_0000,
        ONE <= max_amp <= octaves * MAX_AMPLITUDE,
        -0x8000_0000 * max_amp <= total <= 0x8000_0000 * max_amp,
        -0x1_0000_0000 <= span <= 0x1_0000_0000,
        -0x1_0000_0000 <= middle <= 0x1_0000_0000,
    ensures
        -0x4000_0000_0000_0000_0000_0000_0000_0000 <= total * span
            <= 0x4000_0000_0000_0000_0000_0000_0000_0000,
        -0x0080_0000_0000_0000_0000_0000_0000_0000 <= middle * max_amp
            <= 0x0080_0000_0000_0000_0000_0000_0000_0000,
        -0x0080_0000_0000_0000_0000_0000_0000_0000 <= middle * max_amp * ONE
            <= 0x0080_0000_0000_0000_0000_0000_0000_0000,
        0 < 2 * max_amp * ONE <= 0x0080_0000_0000_0000_0000_0000_0000_0000,
        i64::MIN <= (total * span + middle * max_amp * ONE) / (2 * max_amp * ONE) <= i64::MAX,
{
    let b: int = 0x8000_0000;
    let one: int = 1_000_000;
    let top: int = 0x8000_0000_0000_0000;
    let limit: int = 0x4000_0000_0000_0000;
    let numerator = total * span + middle * max_amp * ONE;
    let denominator = 2 * max_amp * ONE;
    assert(one <= max_amp <= top) by (nonlinear_arith)
        requires
            one <= max_amp <= octaves * 0x1_0000_0000,
            octaves <= 0x8000_0000,
            top == 0x8000_0000_0000_0000,
    ;
    assert(-2 * b * b * max_amp <= total * span <= 2 * b * b * max_amp) by (nonlinear_arith)
        requires
            -b * max_amp <= total <= b * max_amp,
            -2 * b <= span <= 2 * b,
            0 <= max_amp,
            b > 0,
    ;
    assert(-2 * b * max_amp <= middle * max_amp <= 2 * b * max_amp) by (nonlinear_arith)
        requires
            -2 * b <= middle <= 2 * b,
            0 <= max_amp,
    ;
    assert(middle * max_amp * ONE == (middle * max_amp) * one && denominator == 2 * max_amp * one)
        by (nonlinear_arith)
        requires
            ONE == one,
            denominator == 2 * max_amp * ONE,
    ;
    let big: int = 0x4000_0000_0000_0000_0000_0000_0000_0000;
    let small: int = 0x0080_0000_0000_0000_0000_0000_0000_0000;
    assert(-big <= total * span <= big && -small <= middle * max_amp <= small && -small <= (
    middle * max_amp) * one <= small && 0 < 2 * max_amp * one <= small) by (nonlinear_arith)
        requires
            -2 * b * b * max_amp <= total * span <= 2 * b * b * max_amp,
            -2 * b * max_amp <= middle * max_amp <= 2 * b * max_amp,
            one <= max_amp <= top,
            b == 0x8000_0000,
            one == 1_000_000,
            top == 0x8000_0000_0000_0000,
            big == 0x4000_0000_0000_0000_0000_0000_0000_0000,
            small == 0x0080_0000_0000_0000_0000_0000_0000_0000,
    ;
    assert(-limit * denominator <= numerator <= limit * denominator) by (nonlinear_arith)
        requires
            -2 * b * b * max_amp <= total * span <= 2 * b * b * max_amp,
            -2 * b * max_amp <= middle * max_amp <= 2 * b * max_amp,
            numerator == total * span + (middle * max_amp) * one,
            denominator == 2 * max_amp * one,
            max_amp >= 0,
            b == 0x8000_0000,
            one == 1_000_000,
            limit == 0x4000_0000_0000_0000,
    ;
    lemma_quotient_between(numerator, denominator, -limit, limit);
}

/// One scalar from `num_iterations` octaves of `noise_fn` at the grid point
/// `point`.
///
/// Octave `i` samples the noise at the point's coordinates times
/// `scale * 2^i` and weighs the sample by the amplitude of that octave, which
/// starts at one and is multiplied by `persistence` from one octave to the
/// next. The weighted samples are summed, divided by the sum of the
/// amplitudes and carried onto the range from `low` to `high`. Nothing is
/// clamped: the result lies within the range because the samples lie within
/// minus one and one.
///
/// There must be an octave, and the persistence may not be negative, or the
/// amplitudes could sum to zero. Coordinates and amplitudes must fit the
/// machine.
pub fn sum_octaves<F: Fn(i64, i64) -> i32>(
    num_iterations: i32,
    point: (i32, i32),
    persistence: i32,
    scale: i64,
    low: i32,
    high: i32,
    noise_fn: F,
) -> (value: i64)
    requires
        num_iterations >= 1,
        0 <= persistence,
        amplitudes_fit(persistence as int, num_iterations as nat),
        coordinates_fit(point, scale as int, (num_iterations - 1) as nat),
        forall|a: i64, b: i64| noise_fn.requires((a, b)),
    ensures
        exists|samples: Seq<i32>|
            samples.len() == num_iterations && #[trigger] sampled_at(
                noise_fn,
                point,
                scale as int,
                samples,
            ) && value == octave_sum(samples, persistence as int, low as int, high as int),
        noise_in_unit_range(noise_fn) && low <= high ==> low <= value <= high,
{
    let ghost last = (num_iterations - 1) as nat;
    proof {
        lemma_coordinate_between(point.0 as int, scale as int, 0, last);
        lemma_coordinate_between(point.1 as int, scale as int, 0, last);
    }
    let mut cx: i64 = (point.0 as i128 * scale as i128) as i64;
    let mut cy: i64 = (point.1 as i128 * scale as i128) as i64;
    let mut max_amp: i128 = 0;
    let mut amp: i64 = ONE as i64;
    let mut noise: i128 = 0;
    let ghost mut samples: Seq<i32> = Seq::empty();
    let mut i: i32 = 0;
    while i < num_iterations
        invariant
            0 <= i <= num_iterations,
            last == num_iterations - 1,
            0 <= persistence,
            amplitudes_fit(persistence as int, num_iterations as nat),
            coordinates_fit(point, scale as int, last),
            forall|a: i64, b: i64| noise_fn.requires((a, b)),
            samples.len() == i,
            sampled_at(noise_fn, point, scale as int, samples),
            max_amp == amplitude_sum(persistence as int, i as nat),
            0 <= max_amp <= i * MAX_AMPLITUDE,
            noise == weighted_sum(samples, persistence as int, i as nat),
            -0x8000_0000 * max_amp <= noise <= 0x8000_0000 * max_amp,
            i < num_iterations ==> amp == amplitude(persistence as int, i as nat),
            i < num_iterations ==> cx == octave_coordinate(point.0 as int, scale as int, i as nat)
                && cy == octave_coordinate(point.1 as int, scale as int, i as nat),
        decreases num_iterations - i,
    {
        let sample = noise_fn(cx, cy);
        proof {
            lemma_weighted_sum_prefix(samples, samples.push(sample), persistence as int, i as nat);
            samples = samples.push(sample);
            lemma_amplitude_fits(persistence as int, num_iterations as nat, i as nat);
            lemma_octave_step_fits(
                noise as int,
                max_amp as int,
                amp as int,
                sample as int,
                persistence as int,
                i as int,
            );
        }
        noise = noise + sample as i128 * amp as i128;
        max_amp = max_amp + amp as i128;
        i = i + 1;
        if i < num_iterations {
            proof {
                lemma_amplitude_fits(persistence as int, num_iterations as nat, i as nat);
                lemma_coordinate_between(point.0 as int, scale as int, (i - 1) as nat, last);
                lemma_coordinate_between(point.1 as int, scale as int, (i - 1) as nat, last);
                lemma_coordinate_between(point.0 as int, scale as int, i as nat, last);
                lemma_coordinate_between(point.1 as int, scale as int, i as nat, last);
            }
            amp = (amp as i128 * persistence as i128 / ONE as i128) as i64;
            cx = 2 * cx;
            cy = 2 * cy;
        }
    }
    let span: i128 = high as i128 - low as i128;
    let middle: i128 = high as i128 + low as i128;
    proof {
        lemma_amplitude_sum_bounds(persistence as int, num_iterations as nat);
        lemma_last_step_fits(
            noise as int,
            max_amp as int,
            span as int,
            middle as int,
            num_iterations as int,
        );
        if noise_in_unit_range(noise_fn) && low <= high {
            assert forall|k: int| 0 <= k < samples.len() implies -ONE <= #[trigger] samples[k]
                <= ONE by {
                assert(noise_fn.ensures(
                    (
                        octave_coordinate(point.0 as int, scale as int, k as nat) as i64,
                        octave_coordinate(point.1 as int, scale as int, k as nat) as i64,
                    ),
                    samples[k],
                ));
            }
            lemma_octave_sum_in_range(samples, persistence as int, low as int, high as int);
        }
    }
    let value = floor_div(noise * span + middle * max_amp * ONE as i128, 2 * max_amp * ONE as i128);
    value as i64
}

} // verus!
