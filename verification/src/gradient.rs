//! The radial mask: near zero in the middle of the map, high along its rim.

use vstd::prelude::*;
use crate::fixed::{clamp, ONE};
use crate::grid::{cell_index, get_id_from_pos, in_grid, CELL_COUNT, HEIGHT, WIDTH};

verus! {

/// What the mask loses everywhere after squaring: one tenth.
pub const MASK_OFFSET: i32 = 100_000;

/// Distance from `c` to the nearer end of an axis of length `extent`.
pub open spec fn fold(c: int, extent: int) -> int {
    if c > extent / 2 {
        extent - c
    } else {
        c
    }
}

/// Distance from cell `(x, y)` to the nearest side of the map.
pub open spec fn rim_distance(x: int, y: int) -> int {
    if fold(x, WIDTH as int) <= fold(y, HEIGHT as int) {
        fold(x, WIDTH as int)
    } else {
        fold(y, HEIGHT as int)
    }
}

/// The mask as a function of the distance to the rim: that distance as a
/// fraction of half the width, inverted, squared, lowered by a tenth and
/// held within zero and one. The square is rounded down to a whole millionth.
pub open spec fn mask_of_distance(distance: int) -> int {
    let half = WIDTH as int / 2;
    let inverted = half - distance;
    clamp(inverted * inverted * ONE / (half * half) - MASK_OFFSET, 0, ONE as int)
}

/// The mask at cell `(x, y)`.
pub open spec fn mask_value(x: int, y: int) -> int {
    mask_of_distance(rim_distance(x, y))
}

/// The mask at one cell.
pub fn gradient_at(x: i32, y: i32) -> (value: i32)
    requires
        in_grid(x as int, y as int),
    ensures
        value == mask_value(x as int, y as int),
{
    let a: i32 = if x > WIDTH / 2 {
        WIDTH - x
    } else {
        x
    };
    let b: i32 = if y > HEIGHT / 2 {
        HEIGHT - y
    } else {
        y
    };
    let smaller: i32 = if a <= b {
        a
    } else {
        b
    };
    let half: i64 = (WIDTH / 2) as i64;
    let inverted: i64 = half - smaller as i64;
    assert(0 <= inverted * inverted * ONE <= 1024 * 1024 * 1_000_000 && half * half == 1024
        * 1024) by (nonlinear_arith)
        requires
            0 <= inverted <= 1024,
            half == 1024,
            ONE == 1_000_000,
    ;
    let squared: i64 = inverted * inverted * (ONE as i64) / (half * half);
    let lowered: i64 = squared - MASK_OFFSET as i64;
    if lowered > ONE as i64 {
        ONE
    } else if lowered < 0 {
        0
    } else {
        lowered as i32
    }
}

/// The mask over the whole grid.
pub fn generate_gradient() -> (gradient: Vec<i32>)
    ensures
        gradient.len() == CELL_COUNT,
        forall|x: int, y: int|
            in_grid(x, y) ==> gradient[#[trigger] cell_index(x, y)] == mask_value(x, y),
{
    let mut gradient: Vec<i32> = vec![ONE; CELL_COUNT];
    for x in 0..WIDTH
        invariant
            gradient.len() == CELL_COUNT,
            forall|u: int, v: int|
                0 <= u < x && 0 <= v < HEIGHT ==> gradient[#[trigger] cell_index(u, v)]
                    == mask_value(u, v),
    {
        for y in 0..HEIGHT
            invariant
                0 <= x < WIDTH,
                gradient.len() == CELL_COUNT,
                forall|u: int, v: int|
                    0 <= u < x && 0 <= v < HEIGHT ==> gradient[#[trigger] cell_index(u, v)]
                        == mask_value(u, v),
                forall|v: int|
                    0 <= v < y ==> gradient[#[trigger] cell_index(x as int, v)] == mask_value(
                        x as int,
                        v,
                    ),
        {
            let value = gradient_at(x, y);
            gradient.set(get_id_from_pos(x, y), value);
        }
    }
    gradient
}

/// The smallest distance to the rim at which the mask is zero.
pub const FLAT_DISTANCE: i32 = 701;

/// The mask is zero exactly from `FLAT_DISTANCE` inwards, and it never rises
/// with the distance to the rim; while it is above zero it falls strictly.
pub proof fn lemma_mask_falls_inwards(near: int, far: int)
    requires
        0 <= near <= far <= WIDTH / 2,
    ensures
        mask_of_distance(far) <= mask_of_distance(near),
        mask_of_distance(near) == 0 <==> near >= FLAT_DISTANCE,
        near < far && near < FLAT_DISTANCE ==> mask_of_distance(far) < mask_of_distance(near),
        0 <= mask_of_distance(near) <= ONE - MASK_OFFSET,
{
    let k = 1024 - near;
    let j = 1024 - far;
    assert(0 <= j * j <= k * k <= 1024 * 1024) by (nonlinear_arith)
        requires
            0 <= j <= k <= 1024,
    ;
    let half = WIDTH as int / 2;
    assert(half * half == 1_048_576 && k * k * ONE == (k * k) * 1_000_000 && j * j * ONE == (j
        * j) * 1_000_000) by (nonlinear_arith)
        requires
            half == 1024,
            ONE == 1_000_000,
    ;
    if near < FLAT_DISTANCE {
        assert(k * k >= 104976) by (nonlinear_arith)
            requires
                k >= 324,
        ;
        if near < far {
            assert(j * j + 647 <= k * k) by (nonlinear_arith)
                requires
                    0 <= j < k,
                    k >= 324,
            ;
        }
    } else {
        assert(k * k <= 104329) by (nonlinear_arith)
            requires
                0 <= k <= 323,
        ;
    }
}

/// The mask stays between zero and nine tenths.
pub proof fn lemma_mask_range(x: int, y: int)
    requires
        in_grid(x, y),
    ensures
        0 <= mask_value(x, y) <= ONE - MASK_OFFSET,
{
    lemma_mask_falls_inwards(rim_distance(x, y), rim_distance(x, y));
}

/// On the first column and on the first row the mask has its largest value,
/// nine tenths; in the middle of the map it is zero.
pub proof fn lemma_mask_edge_and_centre(x: int, y: int)
    requires
        in_grid(x, y),
    ensures
        x == 0 || y == 0 ==> mask_value(x, y) == ONE - MASK_OFFSET,
        mask_value(WIDTH / 2, HEIGHT / 2) == 0,
{
    lemma_mask_falls_inwards(1024, 1024);
    let half = WIDTH as int / 2;
    assert(half * half == 1_048_576 && (half - 0) * (half - 0) * ONE == 1_048_576 * 1_000_000)
        by (nonlinear_arith)
        requires
            half == 1024,
            ONE == 1_000_000,
    ;
}

/// The mask is mirrored about the middle column and about the middle row:
/// column `x` and column `WIDTH - x` agree, and so do row `y` and row
/// `HEIGHT - y`.
pub proof fn lemma_mask_mirror(x: int, y: int)
    requires
        in_grid(x, y),
    ensures
        0 < x ==> mask_value(x, y) == mask_value(WIDTH - x, y),
        0 < y ==> mask_value(x, y) == mask_value(x, HEIGHT - y),
{
}

/// Column `x` and column `WIDTH - 1 - x` lie one step apart in their distance
/// to the left and right sides. The mask agrees on them where the row is at
/// least as near to the top or bottom as both columns are to their sides, or
/// where both cells lie in the flat middle.
pub proof fn lemma_mask_columns_reflected(x: int, y: int)
    requires
        in_grid(x, y),
        (fold(y, HEIGHT as int) <= fold(x, WIDTH as int) && fold(y, HEIGHT as int) <= fold(
            WIDTH - 1 - x,
            WIDTH as int,
        )) || (rim_distance(x, y) >= FLAT_DISTANCE && rim_distance(WIDTH - 1 - x, y)
            >= FLAT_DISTANCE),
    ensures
        mask_value(x, y) == mask_value(WIDTH - 1 - x, y),
{
    lemma_mask_falls_inwards(rim_distance(x, y), rim_distance(x, y));
    lemma_mask_falls_inwards(rim_distance(WIDTH - 1 - x, y), rim_distance(WIDTH - 1 - x, y));
}

/// Row `y` and row `HEIGHT - 1 - y`: as for columns.
pub proof fn lemma_mask_rows_reflected(x: int, y: int)
    requires
        in_grid(x, y),
        (fold(x, WIDTH as int) <= fold(y, HEIGHT as int) && fold(x, WIDTH as int) <= fold(
            HEIGHT - 1 - y,
            HEIGHT as int,
        )) || (rim_distance(x, y) >= FLAT_DISTANCE && rim_distance(x, HEIGHT - 1 - y)
            >= FLAT_DISTANCE),
    ensures
        mask_value(x, y) == mask_value(x, HEIGHT - 1 - y),
{
    lemma_mask_falls_inwards(rim_distance(x, y), rim_distance(x, y));
    lemma_mask_falls_inwards(rim_distance(x, HEIGHT - 1 - y), rim_distance(x, HEIGHT - 1 - y));
}

/// Everywhere else the mask differs between column `x` and column
/// `WIDTH - 1 - x`.
pub proof fn lemma_mask_columns_differ(x: int, y: int)
    requires
        in_grid(x, y),
        fold(y, HEIGHT as int) > fold(x, WIDTH as int) || fold(y, HEIGHT as int) > fold(
            WIDTH - 1 - x,
            WIDTH as int,
        ),
        rim_distance(x, y) < FLAT_DISTANCE || rim_distance(WIDTH - 1 - x, y) < FLAT_DISTANCE,
    ensures
        mask_value(x, y) != mask_value(WIDTH - 1 - x, y),
{
    let d = rim_distance(x, y);
    let e = rim_distance(WIDTH - 1 - x, y);
    if d < e {
        lemma_mask_falls_inwards(d, e);
    } else {
        lemma_mask_falls_inwards(e, d);
    }
}

/// Everywhere else the mask differs between row `y` and row
/// `HEIGHT - 1 - y`.
pub proof fn lemma_mask_rows_differ(x: int, y: int)
    requires
        in_grid(x, y),
        fold(x, WIDTH as int) > fold(y, HEIGHT as int) || fold(x, WIDTH as int) > fold(
            HEIGHT - 1 - y,
            HEIGHT as int,
        ),
        rim_distance(x, y) < FLAT_DISTANCE || rim_distance(x, HEIGHT - 1 - y) < FLAT_DISTANCE,
    ensures
        mask_value(x, y) != mask_value(x, HEIGHT - 1 - y),
{
    let d = rim_distance(x, y);
    let e = rim_distance(x, HEIGHT - 1 - y);
    if d < e {
        lemma_mask_falls_inwards(d, e);
    } else {
        lemma_mask_falls_inwards(e, d);
    }
}

} // verus!
