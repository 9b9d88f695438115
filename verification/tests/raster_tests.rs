use terrain_map::biome::{classify, get_biome_color, Color};
use terrain_map::grid::{get_id_from_pos, CELL_COUNT, HEIGHT, WIDTH};
use terrain_map::raster::rasterize;
use terrain_map::seeds::{distinct_seed, draw_seeds};
use terrain_map::session::{advance, react, AppState, ViewEvent};

#[test]
fn image_has_the_size_of_the_grid() {
    let elevation = vec![300_000; CELL_COUNT];
    let moisture = vec![0; CELL_COUNT];
    let img = rasterize(&elevation, &moisture);
    assert_eq!(img.width(), WIDTH as u32);
    assert_eq!(img.height(), HEIGHT as u32);
    assert_eq!(img.into_raw().len(), 3 * CELL_COUNT);
}

#[test]
fn uniform_deep_water_colours_every_pixel() {
    let elevation = vec![300_000; CELL_COUNT];
    let moisture = vec![700_000; CELL_COUNT];
    let bytes = rasterize(&elevation, &moisture).into_raw();
    assert!(bytes.chunks(3).all(|p| p == [0, 62, 178]));
}

#[test]
fn no_pixel_is_left_blank() {
    // snow is the brightest colour; a pixel that was never written would be black
    let elevation = vec![800_000; CELL_COUNT];
    let moisture = vec![900_000; CELL_COUNT];
    let img = rasterize(&elevation, &moisture);
    for y in 0..HEIGHT as u32 {
        for x in 0..WIDTH as u32 {
            assert_eq!(img.pixel(x, y), Some(Color { r: 235, g: 235, b: 235 }));
        }
    }
}

#[test]
fn each_pixel_has_the_colour_of_its_own_cell() {
    let mut elevation = vec![0; CELL_COUNT];
    let mut moisture = vec![0; CELL_COUNT];
    for y in 0..HEIGHT {
        for x in 0..WIDTH {
            let id = get_id_from_pos(x, y);
            elevation[id] = (x * 500) % 1_000_001;
            moisture[id] = (y * 700) % 1_000_001;
        }
    }
    let img = rasterize(&elevation, &moisture);
    for y in (0..HEIGHT).step_by(13) {
        for x in (0..WIDTH).step_by(11) {
            let id = get_id_from_pos(x, y);
            let expected = get_biome_color(classify(elevation[id], moisture[id]));
            assert_eq!(img.pixel(x as u32, y as u32), Some(expected));
        }
    }
    let bytes = img.into_raw();
    for (x, y) in [(0, 0), (1, 0), (0, 1), (2047, 2047), (1234, 567)] {
        let id = get_id_from_pos(x, y);
        let expected = get_biome_color(classify(elevation[id], moisture[id]));
        assert_eq!(bytes[3 * id..3 * id + 3], [expected.r, expected.g, expected.b]);
    }
}

#[test]
fn columns_and_rows_are_not_swapped() {
    let mut elevation = vec![300_000; CELL_COUNT];
    let moisture = vec![900_000; CELL_COUNT];
    elevation[get_id_from_pos(7, 2)] = 800_000;
    let img = rasterize(&elevation, &moisture);
    assert_eq!(img.pixel(7, 2), Some(Color { r: 235, g: 235, b: 235 }));
    assert_eq!(img.pixel(2, 7), Some(Color { r: 0, g: 62, b: 178 }));
    assert_eq!(img.pixel(6, 2), Some(Color { r: 0, g: 62, b: 178 }));
    assert_eq!(img.pixel(8, 2), Some(Color { r: 0, g: 62, b: 178 }));
}

#[test]
fn there_is_no_pixel_outside_the_image() {
    let elevation = vec![300_000; CELL_COUNT];
    let moisture = vec![0; CELL_COUNT];
    let img = rasterize(&elevation, &moisture);
    assert_eq!(img.pixel(2048, 0), None);
    assert_eq!(img.pixel(0, 2048), None);
    assert_eq!(img.pixel(u32::MAX, u32::MAX), None);
    assert!(img.pixel(2047, 2047).is_some());
}

#[test]
fn raw_bytes_make_an_image_buffer() {
    let elevation = vec![700_000; CELL_COUNT];
    let moisture = vec![500_000; CELL_COUNT];
    let bytes = rasterize(&elevation, &moisture).into_raw();
    let buffer: image::RgbImage = image::ImageBuffer::from_raw(2048, 2048, bytes).unwrap();
    assert_eq!(buffer.get_pixel(100, 200).0, [140, 142, 123]);
}

#[test]
fn seeds_are_in_range_and_differ() {
    for _ in 0..1_000 {
        let (height, moisture) = draw_seeds();
        assert!(0 <= height && height < i64::MAX);
        assert!(0 <= moisture && moisture < i64::MAX);
        assert_ne!(height, moisture);
    }
}

#[test]
fn seeds_are_fresh_on_every_draw() {
    let draws: Vec<(i64, i64)> = (0..64).map(|_| draw_seeds()).collect();
    assert!(draws.iter().any(|d| d.0 != draws[0].0));
    assert!(draws.iter().any(|d| d.1 != draws[0].1));
    assert!(draws.iter().any(|d| d.0 != 0));
}

#[test]
fn a_draw_skips_the_seed_that_is_taken() {
    assert_eq!(distinct_seed(5, 4), 4);
    assert_eq!(distinct_seed(5, 5), 6);
    assert_eq!(distinct_seed(5, 6), 7);
    assert_eq!(distinct_seed(0, 0), 1);
    assert_eq!(distinct_seed(i64::MAX - 1, i64::MAX - 2), i64::MAX - 2);
    assert_eq!(distinct_seed(i64::MAX - 1, 0), 0);
    assert_eq!(distinct_seed(0, i64::MAX - 2), i64::MAX - 1);
}

#[test]
fn a_session_generates_draws_and_shows() {
    assert_eq!(advance(AppState::Load), AppState::GenerateImage);
    assert_eq!(advance(AppState::GenerateImage), AppState::View);
    assert_eq!(advance(AppState::View), AppState::View);
}

#[test]
fn the_viewer_regenerates_or_leaves() {
    assert_eq!(react(AppState::View, ViewEvent::Regenerate), Some(AppState::Load));
    assert_eq!(react(AppState::View, ViewEvent::Quit), None);
    assert_eq!(react(AppState::View, ViewEvent::Other), Some(AppState::View));
    for event in [ViewEvent::Quit, ViewEvent::Regenerate, ViewEvent::Other] {
        assert_eq!(react(AppState::Load, event), Some(AppState::Load));
        assert_eq!(react(AppState::GenerateImage, event), Some(AppState::GenerateImage));
    }
}
