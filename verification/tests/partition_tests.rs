use eve_mapmaker::colour::Colour;
use eve_mapmaker::partition::{grid_shape, partition, smallest_divider, GridShape};
use eve_mapmaker::raster::Image;

fn numbered(width: u32, height: u32) -> Image {
    let mut pixels: Vec<Colour> = Vec::new();
    for y in 0..height {
        for x in 0..width {
            pixels.push((x as u8, y as u8, 0));
        }
    }
    Image::new(width, height, pixels).unwrap()
}

#[test]
fn smallest_divider_of_small_numbers() {
    assert_eq!(smallest_divider(1), 1);
    assert_eq!(smallest_divider(2), 2);
    assert_eq!(smallest_divider(3), 3);
    assert_eq!(smallest_divider(4), 2);
    assert_eq!(smallest_divider(6), 2);
    assert_eq!(smallest_divider(9), 3);
    assert_eq!(smallest_divider(15), 3);
    assert_eq!(smallest_divider(25), 5);
    assert_eq!(smallest_divider(49), 7);
    assert_eq!(smallest_divider(1920), 2);
    assert_eq!(smallest_divider(1081), 23);
}

#[test]
fn smallest_divider_of_a_prime_is_the_prime() {
    assert_eq!(smallest_divider(7), 7);
    assert_eq!(smallest_divider(97), 97);
    assert_eq!(smallest_divider(7919), 7919);
    assert_eq!(smallest_divider(4294967291), 4294967291);
}

#[test]
fn smallest_divider_of_large_numbers() {
    assert_eq!(smallest_divider(u32::MAX), 3);
    assert_eq!(smallest_divider(4294836225), 3);
    assert_eq!(smallest_divider(65521 * 65521), 65521);
    assert_eq!(smallest_divider(65519 * 65521), 65519);
}

#[test]
fn smallest_divider_agrees_with_a_plain_search() {
    for n in 2..2000u32 {
        let expected = (2..n).find(|&i| n % i == 0).unwrap_or(n);
        assert_eq!(smallest_divider(n), expected);
    }
}

#[test]
fn grid_shape_cuts_each_axis_by_its_smallest_divider() {
    assert_eq!(
        grid_shape(4, 4),
        GridShape { columns: 2, rows: 2, tile_width: 2, tile_height: 2 }
    );
    assert_eq!(
        grid_shape(1920, 1081),
        GridShape { columns: 2, rows: 23, tile_width: 960, tile_height: 47 }
    );
    assert_eq!(
        grid_shape(9, 10),
        GridShape { columns: 3, rows: 2, tile_width: 3, tile_height: 5 }
    );
}

#[test]
fn grid_shape_of_a_prime_width_has_tiles_one_pixel_wide() {
    assert_eq!(
        grid_shape(7, 4),
        GridShape { columns: 7, rows: 2, tile_width: 1, tile_height: 2 }
    );
    assert_eq!(
        grid_shape(6, 13),
        GridShape { columns: 2, rows: 13, tile_width: 3, tile_height: 1 }
    );
}

#[test]
fn grid_shape_of_a_single_pixel() {
    assert_eq!(
        grid_shape(1, 1),
        GridShape { columns: 1, rows: 1, tile_width: 1, tile_height: 1 }
    );
}

#[test]
fn partition_numbers_the_tiles_row_by_row() {
    let img = numbered(4, 6);
    let tiles = partition(&img);
    assert_eq!(tiles.len(), 4);
    let origins: Vec<(u32, u32)> = tiles.iter().map(|t| (t.x0, t.y0)).collect();
    assert_eq!(origins, vec![(0, 0), (2, 0), (0, 3), (2, 3)]);
    for tile in &tiles {
        assert_eq!(tile.image.width(), 2);
        assert_eq!(tile.image.height(), 3);
    }
    assert_eq!(
        tiles[3].image.pixels(),
        &vec![(2, 3, 0), (3, 3, 0), (2, 4, 0), (3, 4, 0), (2, 5, 0), (3, 5, 0)]
    );
}

#[test]
fn partition_of_a_prime_width_gives_columns_one_pixel_wide() {
    let img = numbered(7, 4);
    let tiles = partition(&img);
    assert_eq!(tiles.len(), 14);
    let mut seen = vec![0u32; 28];
    for tile in &tiles {
        assert_eq!(tile.image.width(), 1);
        assert_eq!(tile.image.height(), 2);
        for y in 0..tile.image.height() {
            for x in 0..tile.image.width() {
                let gx = tile.x0 + x;
                let gy = tile.y0 + y;
                assert!(gx < 7 && gy < 4);
                seen[(gy * 7 + gx) as usize] += 1;
                assert_eq!(tile.image.get_pixel(x, y), img.get_pixel(gx, gy));
            }
        }
    }
    assert_eq!(seen, vec![1u32; 28]);
}

#[test]
fn partition_covers_every_pixel_exactly_once() {
    for (width, height) in [(1u32, 1u32), (2, 3), (5, 5), (6, 4), (9, 15), (12, 7), (16, 10)] {
        let img = numbered(width, height);
        let tiles = partition(&img);
        let shape = grid_shape(width, height);
        assert_eq!(tiles.len() as u32, shape.columns * shape.rows);
        let mut seen = vec![0u32; (width * height) as usize];
        for tile in &tiles {
            assert_eq!(tile.image.width(), shape.tile_width);
            assert_eq!(tile.image.height(), shape.tile_height);
            for y in 0..tile.image.height() {
                for x in 0..tile.image.width() {
                    let gx = tile.x0 + x;
                    let gy = tile.y0 + y;
                    assert!(gx < width && gy < height);
                    seen[(gy * width + gx) as usize] += 1;
                    assert_eq!(tile.image.get_pixel(x, y), img.get_pixel(gx, gy));
                }
            }
        }
        assert_eq!(seen, vec![1u32; (width * height) as usize]);
    }
}
