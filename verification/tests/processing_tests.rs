use eve_mapmaker::classify::processing_chunk;
use eve_mapmaker::colour::Colour;
use eve_mapmaker::despeckle::post_process_chunk;
use eve_mapmaker::partition::{partition, Tile};
use eve_mapmaker::processing::{
    check_inputs, process_batch, process_image, process_tile, reassemble, ErrorKind, Outcome,
    ProcessingError,
};
use eve_mapmaker::raster::Image;

const WHITE: Colour = (255, 255, 255);
const GREY: Colour = (128, 128, 128);
const GREEN: Colour = (50, 200, 80);
const DARK: Colour = (4, 25, 30);
const BLACK: Colour = (0, 0, 0);

fn vegetation_palette() -> Vec<Colour> {
    vec![
        (0, 0, 0),
        (4, 25, 30),
        (25, 50, 60),
        (50, 200, 80),
        (80, 200, 120),
        (255, 255, 255),
        (128, 128, 128),
        (14, 14, 14),
    ]
}

fn export_noise() -> Vec<Colour> {
    vec![(255, 255, 255), (128, 128, 128), (14, 14, 14)]
}

fn mottled(width: u32, height: u32) -> Image {
    let mut pixels: Vec<Colour> = Vec::new();
    for y in 0..height {
        for x in 0..width {
            let v = x * 31 + y * 17 + x * y * 7;
            pixels.push(((v % 256) as u8, ((v * 3) % 256) as u8, ((v * 5 + 40) % 256) as u8));
        }
    }
    Image::new(width, height, pixels).unwrap()
}

#[test]
fn scenario_all_noise_becomes_black() {
    let img = Image::filled(4, 4, WHITE);
    let out = process_image(&img, &[BLACK, WHITE], &[WHITE]).unwrap();
    assert_eq!(out, Image::filled(4, 4, BLACK));
}

#[test]
fn scenario_single_speck_is_repaired() {
    let mut img = Image::filled(4, 4, GREEN);
    img.put_pixel(1, 1, WHITE);
    let out = process_image(&img, &[BLACK, GREEN, WHITE], &[WHITE]).unwrap();
    assert_eq!(out.get_pixel(1, 1), GREEN);
    assert_eq!(out, Image::filled(4, 4, GREEN));
}

#[test]
fn scenario_prime_width_is_processed_in_thin_tiles() {
    let mut img = Image::filled(7, 4, GREEN);
    img.put_pixel(3, 1, WHITE);
    let tiles = partition(&img);
    assert_eq!(tiles.len(), 14);
    assert!(tiles.iter().all(|t| t.image.width() == 1 && t.image.height() == 2));
    let out = process_image(&img, &[BLACK, GREEN, WHITE], &[WHITE]).unwrap();
    assert_eq!(out.width(), 7);
    assert_eq!(out.height(), 4);
    // The speck shares its tile with one green pixel above it; the vote is a
    // tie, which the colour met first in the scan wins.
    assert_eq!(out.get_pixel(3, 1), GREEN);
    let mut lower = Image::filled(7, 4, GREEN);
    lower.put_pixel(3, 0, WHITE);
    let out = process_image(&lower, &[BLACK, GREEN, WHITE], &[WHITE]).unwrap();
    assert_eq!(out.get_pixel(3, 0), BLACK);
    for y in 0..4 {
        for x in 0..7 {
            if (x, y) != (3, 0) {
                assert_eq!(out.get_pixel(x, y), GREEN);
            }
        }
    }
}

#[test]
fn scenario_batch_goes_on_after_a_source_that_cannot_be_read() {
    let first = Image::filled(4, 4, WHITE);
    let mut third = Image::filled(4, 4, GREEN);
    third.put_pixel(1, 1, WHITE);
    let sources = vec![Some(first), None, Some(third)];
    let outcomes = process_batch(&sources, &[BLACK, GREEN, WHITE], &[WHITE]);
    assert_eq!(outcomes.len(), 3);
    assert_eq!(outcomes[0], Outcome::Processed(Image::filled(4, 4, BLACK)));
    assert_eq!(outcomes[1], Outcome::Unreadable);
    assert_eq!(outcomes[2], Outcome::Processed(Image::filled(4, 4, GREEN)));
}

#[test]
fn batch_reports_each_rejected_image_on_its_own() {
    let sources = vec![
        Some(Image::new(0, 3, Vec::new()).unwrap()),
        Some(Image::filled(2, 2, DARK)),
        Some(Image::new(3, 0, Vec::new()).unwrap()),
        None,
    ];
    let outcomes = process_batch(&sources, &[DARK, WHITE], &[WHITE]);
    assert_eq!(
        outcomes,
        vec![
            Outcome::Rejected(ProcessingError::ZeroWidth),
            Outcome::Processed(Image::filled(2, 2, DARK)),
            Outcome::Rejected(ProcessingError::ZeroHeight),
            Outcome::Unreadable,
        ]
    );
}

#[test]
fn batch_of_nothing() {
    assert!(process_batch(&Vec::new(), &[DARK], &[WHITE]).is_empty());
}

#[test]
fn batch_answers_as_process_image_does() {
    let images = vec![mottled(6, 4), mottled(5, 5), mottled(9, 2)];
    let sources: Vec<Option<Image>> = images.iter().cloned().map(Some).collect();
    let outcomes = process_batch(&sources, &vegetation_palette(), &export_noise());
    for (img, outcome) in images.iter().zip(outcomes.iter()) {
        let alone = process_image(img, &vegetation_palette(), &export_noise()).unwrap();
        assert_eq!(outcome, &Outcome::Processed(alone));
    }
}

#[test]
fn empty_palette_is_rejected() {
    let img = Image::filled(2, 2, GREEN);
    assert_eq!(process_image(&img, &[], &[WHITE]), Err(ProcessingError::EmptyPalette));
    assert_eq!(check_inputs(&img, &[], &[WHITE]), Err(ProcessingError::EmptyPalette));
}

#[test]
fn empty_noise_set_is_rejected() {
    let img = Image::filled(2, 2, GREEN);
    assert_eq!(process_image(&img, &[GREEN], &[]), Err(ProcessingError::EmptyNoiseSet));
    assert_eq!(check_inputs(&img, &[GREEN], &[]), Err(ProcessingError::EmptyNoiseSet));
}

#[test]
fn zero_width_is_rejected() {
    let img = Image::new(0, 4, Vec::new()).unwrap();
    assert_eq!(process_image(&img, &[GREEN], &[WHITE]), Err(ProcessingError::ZeroWidth));
}

#[test]
fn zero_height_is_rejected() {
    let img = Image::new(4, 0, Vec::new()).unwrap();
    assert_eq!(process_image(&img, &[GREEN], &[WHITE]), Err(ProcessingError::ZeroHeight));
}

#[test]
fn the_configuration_is_looked_at_before_the_image() {
    let img = Image::new(0, 0, Vec::new()).unwrap();
    assert_eq!(process_image(&img, &[], &[]), Err(ProcessingError::EmptyPalette));
    assert_eq!(process_image(&img, &[GREEN], &[]), Err(ProcessingError::EmptyNoiseSet));
    assert_eq!(process_image(&img, &[GREEN], &[WHITE]), Err(ProcessingError::ZeroWidth));
}

#[test]
fn check_inputs_accepts_what_can_be_processed() {
    assert_eq!(check_inputs(&Image::filled(1, 1, GREEN), &[GREEN], &[WHITE]), Ok(()));
}

#[test]
fn error_kinds() {
    assert_eq!(ProcessingError::EmptyPalette.kind(), ErrorKind::Structure);
    assert_eq!(ProcessingError::EmptyNoiseSet.kind(), ErrorKind::Structure);
    assert_eq!(ProcessingError::ZeroWidth.kind(), ErrorKind::Geometry);
    assert_eq!(ProcessingError::ZeroHeight.kind(), ErrorKind::Geometry);
}

#[test]
fn error_messages_name_what_is_missing() {
    assert_eq!(ProcessingError::EmptyPalette.message(), "the palette holds no colour");
    assert_eq!(ProcessingError::EmptyNoiseSet.message(), "the set of noise colours is empty");
    assert_eq!(ProcessingError::ZeroWidth.message(), "the image has no columns");
    assert_eq!(ProcessingError::ZeroHeight.message(), "the image has no rows");
}

#[test]
fn process_tile_classifies_then_despeckles_in_place() {
    let tile = Tile { x0: 6, y0: 9, image: mottled(5, 4) };
    let done = process_tile(&tile, &vegetation_palette(), &export_noise());
    let by_hand = post_process_chunk(
        &processing_chunk(&tile.image, &vegetation_palette()),
        &export_noise(),
    );
    assert_eq!(done, Tile { x0: 6, y0: 9, image: by_hand });
}

#[test]
fn process_image_keeps_the_size() {
    let img = mottled(12, 9);
    let out = process_image(&img, &vegetation_palette(), &export_noise()).unwrap();
    assert_eq!(out.width(), 12);
    assert_eq!(out.height(), 9);
    assert_eq!(out.pixels().len(), 108);
}

#[test]
fn process_image_is_the_tiles_processed_one_by_one() {
    let img = mottled(12, 9);
    let out = process_image(&img, &vegetation_palette(), &export_noise()).unwrap();
    for tile in partition(&img) {
        let done = process_tile(&tile, &vegetation_palette(), &export_noise());
        for y in 0..done.image.height() {
            for x in 0..done.image.width() {
                assert_eq!(out.get_pixel(tile.x0 + x, tile.y0 + y), done.image.get_pixel(x, y));
            }
        }
    }
}

#[test]
fn process_image_does_not_vote_across_tiles() {
    // Four tiles of two by two pixels. The speck sits in the top left corner
    // of the top right tile; its neighbours in the left tile are not asked.
    let pixels = vec![
        GREEN, GREEN, WHITE, DARK, //
        GREEN, GREEN, GREEN, DARK, //
        GREEN, GREEN, GREEN, GREEN, //
        GREEN, GREEN, GREEN, GREEN,
    ];
    let img = Image::new(4, 4, pixels).unwrap();
    let out = process_image(&img, &[GREEN, DARK, WHITE], &[WHITE]).unwrap();
    assert_eq!(out.get_pixel(2, 0), DARK);
    let whole = post_process_chunk(&img, &[WHITE]);
    assert_eq!(whole.get_pixel(2, 0), GREEN);
}

#[test]
fn process_image_output_holds_palette_colours_and_black_only() {
    let img = mottled(10, 10);
    let palette = vegetation_palette();
    let noise = export_noise();
    let out = process_image(&img, &palette, &noise).unwrap();
    for colour in out.pixels() {
        assert!(palette.contains(colour));
        assert!(!noise.contains(colour));
    }
}

#[test]
fn reassemble_writes_each_tile_at_its_place() {
    let a = Tile { x0: 0, y0: 0, image: Image::filled(2, 1, GREEN) };
    let b = Tile { x0: 1, y0: 1, image: Image::filled(1, 1, DARK) };
    let whole = reassemble(3, 2, &vec![a, b]).unwrap();
    assert_eq!(whole.width(), 3);
    assert_eq!(whole.height(), 2);
    assert_eq!(whole.pixels(), &vec![GREEN, GREEN, BLACK, BLACK, DARK, BLACK]);
}

#[test]
fn reassemble_of_no_tiles_is_black() {
    assert_eq!(reassemble(3, 2, &Vec::new()), Some(Image::filled(3, 2, BLACK)));
}

#[test]
fn reassemble_refuses_a_tile_that_reaches_outside() {
    let inside = Tile { x0: 0, y0: 0, image: Image::filled(2, 2, GREEN) };
    let too_wide = Tile { x0: 2, y0: 0, image: Image::filled(2, 1, GREEN) };
    let too_tall = Tile { x0: 0, y0: 1, image: Image::filled(1, 2, GREEN) };
    let far = Tile { x0: u32::MAX, y0: u32::MAX, image: Image::filled(1, 1, GREEN) };
    assert!(reassemble(3, 2, &vec![inside.clone()]).is_some());
    assert!(reassemble(3, 2, &vec![inside.clone(), too_wide]).is_none());
    assert!(reassemble(3, 2, &vec![too_tall, inside.clone()]).is_none());
    assert!(reassemble(3, 2, &vec![far]).is_none());
}

#[test]
fn reassemble_of_the_partition_restores_the_image() {
    let img = mottled(9, 8);
    let tiles = partition(&img);
    assert_eq!(reassemble(9, 8, &tiles), Some(img));
}

#[test]
fn reassemble_gives_the_same_image_in_any_order() {
    let img = mottled(9, 8);
    let palette = vegetation_palette();
    let noise = export_noise();
    let expected = process_image(&img, &palette, &noise).unwrap();
    let done: Vec<Tile> = partition(&img).iter().map(|t| process_tile(t, &palette, &noise)).collect();
    assert_eq!(reassemble(9, 8, &done), Some(expected.clone()));
    let mut reversed = done.clone();
    reversed.reverse();
    assert_eq!(reassemble(9, 8, &reversed), Some(expected.clone()));
    let mut rotated = done.clone();
    rotated.rotate_left(5);
    assert_eq!(reassemble(9, 8, &rotated), Some(expected.clone()));
    let mut stepped: Vec<Tile> = Vec::new();
    let n = done.len();
    for k in 0..n {
        stepped.push(done[(k * 5 + 3) % n].clone());
    }
    assert_eq!(reassemble(9, 8, &stepped), Some(expected));
}

#[test]
fn reassemble_lets_the_later_of_two_overlapping_tiles_win() {
    let under = Tile { x0: 0, y0: 0, image: Image::filled(2, 2, GREEN) };
    let over = Tile { x0: 1, y0: 0, image: Image::filled(1, 2, GREY) };
    let whole = reassemble(2, 2, &vec![under.clone(), over.clone()]).unwrap();
    assert_eq!(whole.pixels(), &vec![GREEN, GREY, GREEN, GREY]);
    let whole = reassemble(2, 2, &vec![over, under]).unwrap();
    assert_eq!(whole.pixels(), &vec![GREEN, GREEN, GREEN, GREEN]);
}

#[test]
fn process_image_of_a_single_pixel() {
    let palette = [GREEN, WHITE];
    let noise = [WHITE];
    let clean = Image::filled(1, 1, (60, 190, 90));
    assert_eq!(process_image(&clean, &palette, &noise), Ok(Image::filled(1, 1, GREEN)));
    let speck = Image::filled(1, 1, (250, 250, 250));
    assert_eq!(process_image(&speck, &palette, &noise), Ok(Image::filled(1, 1, BLACK)));
}

fn plain_nearest(pixel: Colour, palette: &[Colour]) -> Colour {
    let distance = |a: Colour, b: Colour| -> f64 {
        let (r1, g1, b1) = (a.0 as f64, a.1 as f64, a.2 as f64);
        let (r2, g2, b2) = (b.0 as f64, b.1 as f64, b.2 as f64);
        ((r1 - r2).powi(2) + (g1 - g2).powi(2) + (b1 - b2).powi(2)).sqrt()
    };
    palette
        .iter()
        .map(|&colour| (distance(pixel, colour), colour))
        .min_by(|a, b| a.0.partial_cmp(&b.0).unwrap())
        .map(|(_, colour)| colour)
        .unwrap()
}

fn plain_pipeline(width: u32, height: u32, pixels: &[Colour], palette: &[Colour], noise: &[Colour]) -> Vec<Colour> {
    let divider = |n: u32| (2..n).find(|&i| n % i == 0).unwrap_or(n);
    let tile_width = width / divider(width);
    let tile_height = height / divider(height);
    let at = |x: u32, y: u32| (y * width + x) as usize;
    let classified: Vec<Colour> = pixels.iter().map(|&p| plain_nearest(p, palette)).collect();
    let mut out = classified.clone();
    for y in 0..height {
        for x in 0..width {
            let pixel = classified[at(x, y)];
            if !noise.contains(&pixel) {
                continue;
            }
            let (left, top) = (x / tile_width * tile_width, y / tile_height * tile_height);
            let (right, bottom) = (left + tile_width - 1, top + tile_height - 1);
            let mut cube: Vec<Colour> = Vec::new();
            for yy in y.saturating_sub(1).max(top)..=(y + 1).min(bottom) {
                for xx in x.saturating_sub(1).max(left)..=(x + 1).min(right) {
                    cube.push(classified[at(xx, yy)]);
                }
            }
            let mut winner = cube[0];
            let mut most = 0;
            for &candidate in &cube {
                let count = cube.iter().filter(|&&c| c == candidate).count();
                if count > most {
                    most = count;
                    winner = candidate;
                }
            }
            out[at(x, y)] = if noise.contains(&winner) { BLACK } else { winner };
        }
    }
    out
}

#[test]
fn process_image_agrees_with_a_plain_reading_of_the_pipeline() {
    let palette = vegetation_palette();
    let noise = export_noise();
    for (width, height) in [(1u32, 1u32), (2, 2), (3, 5), (4, 4), (6, 9), (7, 4), (8, 8), (12, 10), (15, 21)] {
        let img = mottled(width, height);
        let expected = plain_pipeline(width, height, img.pixels(), &palette, &noise);
        let out = process_image(&img, &palette, &noise).unwrap();
        assert_eq!(out.pixels(), &expected, "{} by {}", width, height);
    }
}

#[test]
fn process_image_repairs_specks_in_a_noisy_picture() {
    let palette = vegetation_palette();
    let noise = export_noise();
    let mut pixels: Vec<Colour> = Vec::new();
    for y in 0..12u32 {
        for x in 0..12u32 {
            let speck = (x * 7 + y * 5) % 11 == 0;
            pixels.push(if speck { (250, 250, 250) } else if x < 6 { (52, 198, 83) } else { (6, 22, 33) });
        }
    }
    let img = Image::new(12, 12, pixels.clone()).unwrap();
    let expected = plain_pipeline(12, 12, &pixels, &palette, &noise);
    let out = process_image(&img, &palette, &noise).unwrap();
    assert_eq!(out.pixels(), &expected);
    assert!(out.pixels().iter().all(|c| *c == GREEN || *c == DARK || *c == BLACK));
}
