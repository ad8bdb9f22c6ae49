use eve_mapmaker::classify::{closest_colour, processing_chunk};
use eve_mapmaker::colour::{contains_colour, same_colour, squared_distance_of, Colour};
use eve_mapmaker::raster::Image;

fn vegetation_palette() -> Vec<Colour> {
    vec![
        (0, 0, 0),
        (4, 25, 30),
        (25, 50, 60),
        (50, 200, 80),
        (80, 200, 120),
        (255, 255, 255),
        (128, 128, 128),
        (14, 14, 14),
    ]
}

#[test]
fn squared_distance_is_the_sum_of_squared_gaps() {
    assert_eq!(squared_distance_of((1, 2, 3), (4, 6, 8)), 50);
    assert_eq!(squared_distance_of((4, 6, 8), (1, 2, 3)), 50);
    assert_eq!(squared_distance_of((7, 7, 7), (7, 7, 7)), 0);
    assert_eq!(squared_distance_of((0, 0, 0), (255, 255, 255)), 195075);
}

#[test]
fn squared_distance_orders_as_the_euclidean_distance() {
    let pixel: Colour = (100, 150, 200);
    let palette = vegetation_palette();
    for a in &palette {
        for b in &palette {
            let da = (squared_distance_of(pixel, *a) as f64).sqrt();
            let db = (squared_distance_of(pixel, *b) as f64).sqrt();
            assert_eq!(
                da < db,
                squared_distance_of(pixel, *a) < squared_distance_of(pixel, *b)
            );
        }
    }
}

#[test]
fn same_colour_compares_all_channels() {
    assert!(same_colour((1, 2, 3), (1, 2, 3)));
    assert!(!same_colour((1, 2, 3), (9, 2, 3)));
    assert!(!same_colour((1, 2, 3), (1, 9, 3)));
    assert!(!same_colour((1, 2, 3), (1, 2, 9)));
}

#[test]
fn contains_colour_finds_members_only() {
    let palette = vegetation_palette();
    assert!(contains_colour(&palette, (14, 14, 14)));
    assert!(contains_colour(&palette, (0, 0, 0)));
    assert!(!contains_colour(&palette, (14, 14, 15)));
    assert!(!contains_colour(&[], (0, 0, 0)));
}

#[test]
fn closest_colour_picks_the_nearest() {
    let palette = vegetation_palette();
    assert_eq!(closest_colour((10, 10, 10), &palette), (14, 14, 14));
    assert_eq!(closest_colour((3, 3, 3), &palette), (0, 0, 0));
    assert_eq!(closest_colour((60, 190, 90), &palette), (50, 200, 80));
    assert_eq!(closest_colour((250, 251, 252), &palette), (255, 255, 255));
    assert_eq!(closest_colour((120, 130, 125), &palette), (128, 128, 128));
}

#[test]
fn closest_colour_answers_with_a_palette_colour_that_none_beats() {
    let palette = vegetation_palette();
    let mut pixel: Colour = (0, 0, 0);
    for step in 0..200u32 {
        let answer = closest_colour(pixel, &palette);
        assert!(palette.contains(&answer));
        for colour in &palette {
            assert!(squared_distance_of(pixel, answer) <= squared_distance_of(pixel, *colour));
        }
        pixel = (
            (step * 37 % 256) as u8,
            (step * 101 % 256) as u8,
            (step * 59 % 256) as u8,
        );
    }
}

#[test]
fn closest_colour_breaks_ties_by_palette_order() {
    assert_eq!(closest_colour((1, 0, 0), &[(0, 0, 0), (2, 0, 0)]), (0, 0, 0));
    assert_eq!(closest_colour((1, 0, 0), &[(2, 0, 0), (0, 0, 0)]), (2, 0, 0));
    assert_eq!(
        closest_colour((5, 5, 5), &[(9, 9, 9), (5, 5, 6), (5, 6, 5), (6, 5, 5)]),
        (5, 5, 6)
    );
}

#[test]
fn closest_colour_is_repeatable() {
    let palette = [(0, 0, 0), (2, 0, 0), (0, 2, 0)];
    let first = closest_colour((1, 1, 0), &palette);
    for _ in 0..10 {
        assert_eq!(closest_colour((1, 1, 0), &palette), first);
    }
    assert_eq!(first, (0, 0, 0));
}

#[test]
fn closest_colour_keeps_the_first_of_two_equal_palette_entries() {
    assert_eq!(closest_colour((7, 7, 7), &[(7, 7, 7), (7, 7, 7)]), (7, 7, 7));
}

#[test]
fn closest_colour_of_a_single_colour_palette() {
    assert_eq!(closest_colour((200, 100, 50), &[(1, 2, 3)]), (1, 2, 3));
}

#[test]
fn processing_chunk_classifies_every_pixel() {
    let palette = vegetation_palette();
    let pixels = vec![(10, 10, 10), (3, 3, 3), (60, 190, 90), (250, 251, 252), (5, 24, 31), (0, 0, 0)];
    let chunk = Image::new(3, 2, pixels).unwrap();
    let out = processing_chunk(&chunk, &palette);
    assert_eq!(out.width(), 3);
    assert_eq!(out.height(), 2);
    assert_eq!(
        out.pixels(),
        &vec![(14, 14, 14), (0, 0, 0), (50, 200, 80), (255, 255, 255), (4, 25, 30), (0, 0, 0)]
    );
}

#[test]
fn processing_chunk_leaves_a_palette_image_unchanged() {
    let palette = vegetation_palette();
    let mut pixels: Vec<Colour> = Vec::new();
    for i in 0..48usize {
        pixels.push(palette[(i * 5 + i / 7) % palette.len()]);
    }
    let chunk = Image::new(8, 6, pixels).unwrap();
    let once = processing_chunk(&chunk, &palette);
    assert_eq!(once, chunk);
    let twice = processing_chunk(&once, &palette);
    assert_eq!(twice, once);
}

#[test]
fn processing_chunk_of_an_empty_image() {
    let chunk = Image::new(0, 5, Vec::new()).unwrap();
    let out = processing_chunk(&chunk, &vegetation_palette());
    assert_eq!(out.width(), 0);
    assert_eq!(out.height(), 5);
    assert!(out.pixels().is_empty());
}
