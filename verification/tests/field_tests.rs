use terrain_map::compositor::{
    compose_elevation, compose_fields, compose_moisture, generate_maps, HEIGHT_GAIN, HEIGHT_SCALE,
    MASK_WEIGHT, MOISTURE_SCALE, MOISTURE_SHIFT, MOISTURE_WEIGHT,
};
use terrain_map::fixed::{floor_div, saturate_i32, ONE};
use terrain_map::gradient::{generate_gradient, gradient_at};
use terrain_map::grid::{get_id_from_pos, CELL_COUNT};
use terrain_map::noise_map::{generate_noise_map, OCTAVES, PERSISTENCE};
use terrain_map::octaves::sum_octaves;

/// A cheap stand-in for coherent noise, within minus one and one.
fn ripple(x: i64, y: i64) -> i32 {
    (((x / 1_000) * 31 + (y / 1_000) * 17).rem_euclid(2_001) - 1_000) as i32 * 1_000
}

#[test]
fn quotients_round_towards_negative_infinity() {
    assert_eq!(floor_div(7, 2), 3);
    assert_eq!(floor_div(-7, 2), -4);
    assert_eq!(floor_div(-8, 2), -4);
    assert_eq!(floor_div(-1, 1_000_000), -1);
    assert_eq!(floor_div(0, 5), 0);
    assert_eq!(floor_div(i128::MIN, 1), i128::MIN);
    assert_eq!(floor_div(i128::MIN, 3), i128::MIN.div_euclid(3));
    assert_eq!(floor_div(i128::MAX, 3), i128::MAX / 3);
}

#[test]
fn narrowing_stops_at_the_ends_of_the_range() {
    assert_eq!(saturate_i32(5), 5);
    assert_eq!(saturate_i32(-5), -5);
    assert_eq!(saturate_i32(i32::MAX as i128), i32::MAX);
    assert_eq!(saturate_i32(i32::MAX as i128 + 1), i32::MAX);
    assert_eq!(saturate_i32(i32::MIN as i128 - 1), i32::MIN);
    assert_eq!(saturate_i32(i128::MAX), i32::MAX);
    assert_eq!(saturate_i32(i128::MIN), i32::MIN);
}

#[test]
fn compositor_constants_are_the_stated_fractions() {
    assert_eq!(ONE, 1_000_000);
    assert_eq!(HEIGHT_GAIN, 1_100_000);
    assert_eq!(MASK_WEIGHT, 800_000);
    assert_eq!(MOISTURE_SHIFT, 100_000);
    assert_eq!(MOISTURE_WEIGHT, 400_000);
    assert_eq!(HEIGHT_SCALE, 4_000);
    assert_eq!(MOISTURE_SCALE, 7_000);
    assert_eq!(OCTAVES, 16);
    assert_eq!(PERSISTENCE, 500_000);
}

#[test]
fn elevation_is_gained_noise_less_weighted_mask() {
    // 0.5 * 1.1 - 0.25 * 0.8 = 0.35
    assert_eq!(compose_elevation(500_000, 250_000), 350_000);
    // 0.7 * 1.1 - 0 = 0.77
    assert_eq!(compose_elevation(700_000, 0), 770_000);
    // 0.3 * 1.1 - 0.9 * 0.8 = -0.39, floored at zero
    assert_eq!(compose_elevation(300_000, 900_000), 0);
    assert_eq!(compose_elevation(0, 0), 0);
}

#[test]
fn elevation_has_no_ceiling_at_one() {
    assert_eq!(compose_elevation(1_000_000, 0), 1_100_000);
    assert_eq!(compose_elevation(2_000_000, 100_000), 2_120_000);
}

#[test]
fn elevation_rounds_down_and_stops_at_the_largest_value() {
    assert_eq!(compose_elevation(1, 0), 1);
    assert_eq!(compose_elevation(9, 0), 9);
    assert_eq!(compose_elevation(10, 0), 11);
    assert_eq!(compose_elevation(10, 1), 10);
    assert_eq!(compose_elevation(0, 1), 0);
    assert_eq!(compose_elevation(i32::MAX, i32::MIN), i32::MAX);
    assert_eq!(compose_elevation(i32::MAX, 0), i32::MAX);
    assert_eq!(compose_elevation(i32::MIN, i32::MAX), 0);
    assert_eq!(compose_elevation(1_952_257_861, 0), 2_147_483_647);
    assert_eq!(compose_elevation(1_952_257_860, 0), 2_147_483_646);
}

#[test]
fn moisture_is_noise_less_weighted_shift() {
    // 0.5 - (0.1 - 0.25) * 0.4 = 0.56
    assert_eq!(compose_moisture(500_000, 250_000), 560_000);
    // 0.5 - (0.1 - 0) * 0.4 = 0.46
    assert_eq!(compose_moisture(500_000, 0), 460_000);
    // 0 - 0.04, floored at zero
    assert_eq!(compose_moisture(0, 0), 0);
    assert_eq!(compose_moisture(40_000, 0), 0);
    assert_eq!(compose_moisture(40_001, 0), 1);
    // 1 - (0.1 - 0.9) * 0.4 = 1.32: no ceiling at one
    assert_eq!(compose_moisture(1_000_000, 900_000), 1_320_000);
    assert_eq!(compose_moisture(i32::MAX, i32::MAX), i32::MAX);
    assert_eq!(compose_moisture(i32::MIN, 0), 0);
    // 0.000003 * 0.4 = 0.0000012, so 0.04 - 0.0000012 is taken off and the rest rounds down
    assert_eq!(compose_moisture(100_000, 3), 60_001);
    assert_eq!(compose_moisture(100_000, -3), 59_998);
}

#[test]
fn fields_are_composed_cell_by_cell() {
    let gradient = vec![0, 250_000, 900_000, 100_000];
    let height = vec![700_000, 500_000, 300_000, 1_000_000];
    let moisture = vec![500_000, 500_000, 0, 1_000_000];
    let (elevation, wetness) = compose_fields(&gradient, height, moisture);
    assert_eq!(elevation, vec![770_000, 350_000, 0, 1_020_000]);
    assert_eq!(wetness, vec![460_000, 560_000, 320_000, 1_000_000]);
}

#[test]
fn empty_fields_compose_to_empty_fields() {
    let (elevation, moisture) = compose_fields(&Vec::new(), Vec::new(), Vec::new());
    assert!(elevation.is_empty() && moisture.is_empty());
}

#[test]
fn flat_noise_gives_a_flat_noise_map() {
    let map = generate_noise_map(|_, _| 0, 4_000);
    assert_eq!(map.len(), CELL_COUNT);
    assert!(map.iter().all(|v| *v == 500_000));
}

#[test]
fn noise_map_holds_the_octave_sum_of_each_cell() {
    let map = generate_noise_map(ripple, 7_000);
    assert_eq!(map.len(), CELL_COUNT);
    assert!(map.iter().all(|v| 0 <= *v && *v <= ONE));
    for (x, y) in [(0, 0), (1, 0), (0, 1), (2047, 2047), (1024, 77), (13, 1999)] {
        let expected = sum_octaves(OCTAVES, (x, y), PERSISTENCE, 7_000, 0, ONE, ripple);
        assert_eq!(map[get_id_from_pos(x, y)] as i64, expected);
    }
    assert!(map.iter().any(|v| *v != map[0]));
}

#[test]
fn the_same_noise_gives_the_same_noise_map() {
    let first = generate_noise_map(ripple, 4_000);
    let second = generate_noise_map(ripple, 4_000);
    assert!(first == second);
}

#[test]
fn maps_are_noise_at_two_scales_composed_with_the_mask() {
    let gradient = generate_gradient();
    let (elevation, moisture) = generate_maps(&gradient, ripple, |x, y| -ripple(y, x));
    assert_eq!(elevation.len(), CELL_COUNT);
    assert_eq!(moisture.len(), CELL_COUNT);
    for (x, y) in [(0, 0), (5, 5), (1024, 1024), (2047, 1), (700, 1300), (1999, 2000)] {
        let id = get_id_from_pos(x, y);
        let height = sum_octaves(OCTAVES, (x, y), PERSISTENCE, HEIGHT_SCALE, 0, ONE, ripple);
        let wet = sum_octaves(OCTAVES, (x, y), PERSISTENCE, MOISTURE_SCALE, 0, ONE, |a, b| {
            -ripple(b, a)
        });
        assert_eq!(elevation[id], compose_elevation(height as i32, gradient_at(x, y)));
        assert_eq!(moisture[id], compose_moisture(wet as i32, gradient_at(x, y)));
    }
    assert!(elevation.iter().all(|v| 0 <= *v && *v <= 1_100_000));
    assert!(moisture.iter().all(|v| 0 <= *v && *v <= 1_320_000));
}
