//! The compositor: two raw noise fields and the radial mask become the
//! elevation and the moisture of the map.

use vstd::prelude::*;
use crate::fixed::{floor_div, saturate, saturate_i32, ONE};
use crate::gradient::MASK_OFFSET;
use crate::grid::CELL_COUNT;
use crate::noise_map::{generate_noise_map, is_noise_map};

verus! {

/// Base scale of the noise behind the elevation: four thousandths.
pub const HEIGHT_SCALE: i64 = 4_000;

/// Base scale of the noise behind the moisture: seven thousandths.
pub const MOISTURE_SCALE: i64 = 7_000;

/// Factor on the height noise: one and a tenth.
pub const HEIGHT_GAIN: i32 = 1_100_000;

/// Factor on the mask where it lowers the elevation: eight tenths.
pub const MASK_WEIGHT: i32 = 800_000;

/// What the mask is compared with where it shifts the moisture: one tenth.
pub const MOISTURE_SHIFT: i32 = 100_000;

/// Factor on that difference: four tenths.
pub const MOISTURE_WEIGHT: i32 = 400_000;

/// `value`, or zero where it is negative. There is no ceiling.
pub open spec fn floor_at_zero(value: int) -> int {
    if value < 0 {
        0
    } else {
        value
    }
}

/// Elevation of a cell: the height noise times `HEIGHT_GAIN`, less the mask
/// times `MASK_WEIGHT`, rounded down to a whole millionth and floored at
/// zero. It may exceed one; it stops only at the largest `i32`.
pub open spec fn elevation_of(height_noise: int, mask: int) -> int {
    saturate(floor_at_zero((height_noise * HEIGHT_GAIN - mask * MASK_WEIGHT) / (ONE as int)))
}

/// Moisture of a cell: the moisture noise, less `MOISTURE_WEIGHT` times the
/// difference of `MOISTURE_SHIFT` and the mask, rounded down to a whole
/// millionth and floored at zero. It may exceed one; it stops only at the
/// largest `i32`.
pub open spec fn moisture_of(moisture_noise: int, mask: int) -> int {
    saturate(
        floor_at_zero(
            (moisture_noise * ONE - (MOISTURE_SHIFT - mask) * MOISTURE_WEIGHT) / (ONE as int),
        ),
    )
}

/// Whether `elevation` and `moisture` are composed, cell by cell, from the
/// mask and the two noise fields.
pub open spec fn is_composed(
    gradient: Seq<i32>,
    height_noise: Seq<i32>,
    moisture_noise: Seq<i32>,
    elevation: Seq<i32>,
    moisture: Seq<i32>,
) -> bool {
    &&& elevation.len() == gradient.len()
    &&& moisture.len() == gradient.len()
    &&& forall|i: int|
        0 <= i < gradient.len() ==> #[trigger] elevation[i] == elevation_of(
            height_noise[i] as int,
            gradient[i] as int,
        )
    &&& forall|i: int|
        0 <= i < gradient.len() ==> #[trigger] moisture[i] == moisture_of(
            moisture_noise[i] as int,
            gradient[i] as int,
        )
}

/// On a map nothing stops at the largest `i32`. Where the noise lies between
/// zero and one and the mask between zero and nine tenths, elevation and
/// moisture are the rounded values themselves, floored at zero; the
/// elevation reaches at most 1.1 and the moisture at most 1.32.
pub proof fn lemma_composed_on_a_map(noise: int, mask: int)
    requires
        0 <= noise <= ONE,
        0 <= mask <= ONE - MASK_OFFSET,
    ensures
        elevation_of(noise, mask) == floor_at_zero(
            (noise * HEIGHT_GAIN - mask * MASK_WEIGHT) / (ONE as int),
        ),
        moisture_of(noise, mask) == floor_at_zero(
            (noise * ONE - (MOISTURE_SHIFT - mask) * MOISTURE_WEIGHT) / (ONE as int),
        ),
        0 <= elevation_of(noise, mask) <= 1_100_000,
        0 <= moisture_of(noise, mask) <= 1_320_000,
{
    let shift = MOISTURE_SHIFT - mask;
    assert(0 <= noise * HEIGHT_GAIN <= 1_100_000_000_000 && 0 <= mask * MASK_WEIGHT
        <= 720_000_000_000 && 0 <= noise * ONE <= 1_000_000_000_000 && -320_000_000_000
        <= shift * MOISTURE_WEIGHT <= 40_000_000_000) by (nonlinear_arith)
        requires
            shift == MOISTURE_SHIFT - mask,
            0 <= noise <= 1_000_000,
            0 <= mask <= 900_000,
            HEIGHT_GAIN == 1_100_000,
            MASK_WEIGHT == 800_000,
            ONE == 1_000_000,
            MOISTURE_SHIFT == 100_000,
            MOISTURE_WEIGHT == 400_000,
    ;
}

/// Elevation of one cell.
pub fn compose_elevation(height_noise: i32, mask: i32) -> (elevation: i32)
    ensures
        elevation == elevation_of(height_noise as int, mask as int),
{
    assert(-0x8000_0000 * 1_100_000 <= height_noise * HEIGHT_GAIN <= 0x8000_0000 * 1_100_000
        && -0x8000_0000 * 800_000 <= mask * MASK_WEIGHT <= 0x8000_0000 * 800_000)
        by (nonlinear_arith)
        requires
            -0x8000_0000 <= height_noise <= 0x8000_0000,
            -0x8000_0000 <= mask <= 0x8000_0000,
            HEIGHT_GAIN == 1_100_000,
            MASK_WEIGHT == 800_000,
    ;
    let raw: i128 = height_noise as i128 * HEIGHT_GAIN as i128 - mask as i128 * MASK_WEIGHT as i128;
    let value: i128 = floor_div(raw, ONE as i128);
    if value < 0 {
        0
    } else {
        saturate_i32(value)
    }
}

/// Moisture of one cell.
pub fn compose_moisture(moisture_noise: i32, mask: i32) -> (moisture: i32)
    ensures
        moisture == moisture_of(moisture_noise as int, mask as int),
{
    let shift: i128 = MOISTURE_SHIFT as i128 - mask as i128;
    assert(-0x8000_0000 * 1_000_000 <= moisture_noise * ONE <= 0x8000_0000 * 1_000_000
        && -0x1_0000_0000 * 400_000 <= shift * MOISTURE_WEIGHT <= 0x1_0000_0000 * 400_000)
        by (nonlinear_arith)
        requires
            -0x8000_0000 <= moisture_noise <= 0x8000_0000,
            -0x1_0000_0000 <= shift <= 0x1_0000_0000,
            ONE == 1_000_000,
            MOISTURE_WEIGHT == 400_000,
    ;
    let raw: i128 = moisture_noise as i128 * ONE as i128 - shift * MOISTURE_WEIGHT as i128;
    let value: i128 = floor_div(raw, ONE as i128);
    if value < 0 {
        0
    } else {
        saturate_i32(value)
    }
}

/// Elevation and moisture from the mask and the two raw noise fields. Every
/// cell is composed on its own; negative results become zero and nothing is
/// cut off at one.
pub fn compose_fields(
    gradient: &Vec<i32>,
    height_noise: Vec<i32>,
    moisture_noise: Vec<i32>,
) -> (fields: (Vec<i32>, Vec<i32>))
    requires
        height_noise.len() == gradient.len(),
        moisture_noise.len() == gradient.len(),
    ensures
        is_composed(gradient@, height_noise@, moisture_noise@, fields.0@, fields.1@),
{
    let mut height_map = height_noise;
    let mut biome_map = moisture_noise;
    let cells = gradient.len();
    for i in 0..cells
        invariant
            cells == gradient.len(),
            height_map.len() == cells,
            biome_map.len() == cells,
            forall|j: int|
                0 <= j < i ==> #[trigger] height_map[j] == elevation_of(
                    height_noise[j] as int,
                    gradient[j] as int,
                ),
            forall|j: int|
                0 <= j < i ==> #[trigger] biome_map[j] == moisture_of(
                    moisture_noise[j] as int,
                    gradient[j] as int,
                ),
            forall|j: int| i <= j < cells ==> #[trigger] height_map[j] == height_noise[j],
            forall|j: int| i <= j < cells ==> #[trigger] biome_map[j] == moisture_noise[j],
    {
        let elevation = compose_elevation(height_map[i], gradient[i]);
        let moisture = compose_moisture(biome_map[i], gradient[i]);
        height_map.set(i, elevation);
        biome_map.set(i, moisture);
    }
    (height_map, biome_map)
}

/// Whether `elevation` and `moisture` belong to a map whose height noise
/// comes from `height_fn` and whose moisture noise comes from `moisture_fn`.
pub open spec fn is_map_of<F: Fn(i64, i64) -> i32, G: Fn(i64, i64) -> i32>(
    gradient: Seq<i32>,
    height_fn: F,
    moisture_fn: G,
    elevation: Seq<i32>,
    moisture: Seq<i32>,
) -> bool {
    exists|height_noise: Seq<i32>, moisture_noise: Seq<i32>|
        is_noise_map(height_fn, HEIGHT_SCALE as int, height_noise) && is_noise_map(
            moisture_fn,
            MOISTURE_SCALE as int,
            moisture_noise,
        ) && #[trigger] is_composed(gradient, height_noise, moisture_noise, elevation, moisture)
}

/// Elevation and moisture of a new map. The height noise is the noise field
/// of `height_fn` at `HEIGHT_SCALE`, the moisture noise that of `moisture_fn`
/// at `MOISTURE_SCALE`; both are composed with the mask.
pub fn generate_maps<F: Fn(i64, i64) -> i32, G: Fn(i64, i64) -> i32>(
    gradient: &Vec<i32>,
    height_fn: F,
    moisture_fn: G,
) -> (fields: (Vec<i32>, Vec<i32>))
    requires
        gradient.len() == CELL_COUNT,
        forall|a: i64, b: i64| height_fn.requires((a, b)),
        forall|a: i64, b: i64| moisture_fn.requires((a, b)),
    ensures
        is_map_of(gradient@, height_fn, moisture_fn, fields.0@, fields.1@),
{
    let height_map = generate_noise_map(height_fn, HEIGHT_SCALE);
    let biome_map = generate_noise_map(moisture_fn, MOISTURE_SCALE);
    let ghost height_noise = height_map@;
    let ghost moisture_noise = biome_map@;
    let fields = compose_fields(gradient, height_map, biome_map);
    assert(is_composed(gradient@, height_noise, moisture_noise, fields.0@, fields.1@));
    fields
}

} // verus!
