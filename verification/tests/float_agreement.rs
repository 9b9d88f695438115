use terrain_map::biome::{classify, Biomes};
use terrain_map::compositor::{compose_elevation, compose_moisture};
use terrain_map::gradient::gradient_at;
use terrain_map::octaves::sum_octaves;

/// The rules in single precision, on values between zero and one.
fn biome_in_single_precision(a: f32, b: f32) -> Biomes {
    if a < 0.39 {
        Biomes::DeepWater
    } else if a < 0.42 {
        Biomes::Water
    } else if a < 0.46 && b < 0.57 {
        Biomes::Sand
    } else if a < 0.47 && b < 0.6 {
        Biomes::WetSand
    } else if a < 0.47 && b >= 0.6 {
        Biomes::Dirt
    } else if a > 0.54 && b < 0.43 && a < 0.62 {
        Biomes::Grass
    } else if a < 0.62 && b >= 0.58 {
        Biomes::HighDarkForest
    } else if a < 0.62 && b >= 0.49 {
        Biomes::DarkForest
    } else if a >= 0.79 {
        Biomes::Snow
    } else if a >= 0.74 {
        Biomes::HighMountain
    } else if a >= 0.68 && b >= 0.10 {
        Biomes::Mountain
    } else {
        Biomes::LightForest
    }
}

fn single(millionths: i32) -> f32 {
    millionths as f32 / 1e6
}

fn candidates() -> Vec<i32> {
    let mut values: Vec<i32> = (-5_000..=1_400_000).step_by(4_993).collect();
    for threshold in [
        0, 100_000, 390_000, 420_000, 430_000, 460_000, 470_000, 490_000, 540_000, 570_000,
        580_000, 600_000, 620_000, 680_000, 740_000, 790_000, 1_000_000,
    ] {
        for step in -2..=2 {
            values.push(threshold + step);
        }
    }
    values
}

#[test]
fn classification_agrees_with_single_precision() {
    let values = candidates();
    for elevation in values.iter() {
        for moisture in values.iter() {
            assert_eq!(
                classify(*elevation, *moisture),
                biome_in_single_precision(single(*elevation), single(*moisture))
            );
        }
    }
}

#[test]
fn mask_agrees_with_single_precision() {
    for y in (0..2048).step_by(31) {
        for x in (0..2048).step_by(29) {
            let a = if x > 1024 { 2048 - x } else { x };
            let b = if y > 1024 { 2048 - y } else { y };
            let smaller = a.min(b) as f32;
            let inverted = 1.0 - smaller / 1024.0;
            let expected = (inverted * inverted - 0.1).clamp(0.0, 1.0);
            assert!((single(gradient_at(x, y)) - expected).abs() <= 1.5e-6);
        }
    }
}

#[test]
fn composition_agrees_with_single_precision() {
    for noise in (0..=1_000_000).step_by(7_919) {
        for mask in (0..=900_000).step_by(10_007) {
            let height = single(noise) * 1.1 - single(mask) * 0.8;
            let elevation = if height < 0.0 { 0.0 } else { height };
            assert!((single(compose_elevation(noise, mask)) - elevation).abs() <= 1.5e-6);
            let wet = single(noise) - (0.1 - single(mask)) * 0.4;
            let moisture = if wet < 0.0 { 0.0 } else { wet };
            assert!((single(compose_moisture(noise, mask)) - moisture).abs() <= 1.5e-6);
        }
    }
}

/// The octave sum in double precision.
fn octaves_in_double_precision(
    octaves: i32,
    point: (i32, i32),
    persistence: f64,
    scale: f64,
    low: f64,
    high: f64,
    noise: impl Fn(f64, f64) -> f64,
) -> f64 {
    let mut max_amp = 0.0;
    let mut amp = 1.0;
    let mut freq = scale;
    let mut total = 0.0;
    for _ in 0..octaves {
        total += noise(point.0 as f64 * freq, point.1 as f64 * freq) * amp;
        max_amp += amp;
        amp *= persistence;
        freq *= 2.0;
    }
    (total / max_amp) * (high - low) / 2.0 + (high + low) / 2.0
}

#[test]
fn octave_sum_agrees_with_double_precision() {
    let wave = |x: f64, y: f64| (x * 1.7).sin() * (y * 0.9 + x * 0.3).cos();
    let fixed_wave = |x: i64, y: i64| (wave(x as f64 / 1e6, y as f64 / 1e6) * 1e6).round() as i32;
    for point in [(0, 0), (1, 1), (17, 250), (2047, 3), (1024, 1024), (2047, 2047)] {
        for (persistence, scale) in
            [(500_000, 4_000), (500_000, 7_000), (250_000, 4_000), (1_000_000, 7_000)]
        {
            let fixed = sum_octaves(16, point, persistence, scale, 0, 1_000_000, fixed_wave);
            let double = octaves_in_double_precision(
                16,
                point,
                persistence as f64 / 1e6,
                scale as f64 / 1e6,
                0.0,
                1.0,
                wave,
            );
            assert!((fixed as f64 / 1e6 - double).abs() <= 2e-5);
        }
    }
}
