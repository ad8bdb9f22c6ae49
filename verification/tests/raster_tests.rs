use eve_mapmaker::colour::Colour;
use eve_mapmaker::raster::Image;

fn numbered(width: u32, height: u32) -> Image {
    let mut pixels: Vec<Colour> = Vec::new();
    for y in 0..height {
        for x in 0..width {
            pixels.push((x as u8, y as u8, (x + 10 * y) as u8));
        }
    }
    Image::new(width, height, pixels).unwrap()
}

#[test]
fn new_accepts_a_dense_grid_only() {
    assert!(Image::new(2, 2, vec![(0, 0, 0); 4]).is_some());
    assert!(Image::new(2, 2, vec![(0, 0, 0); 3]).is_none());
    assert!(Image::new(2, 2, vec![(0, 0, 0); 5]).is_none());
    assert!(Image::new(0, 7, Vec::new()).is_some());
    assert!(Image::new(0, 7, vec![(0, 0, 0)]).is_none());
    assert!(Image::new(u32::MAX, u32::MAX, vec![(0, 0, 0)]).is_none());
}

#[test]
fn new_keeps_size_and_pixels() {
    let img = Image::new(3, 1, vec![(1, 1, 1), (2, 2, 2), (3, 3, 3)]).unwrap();
    assert_eq!(img.width(), 3);
    assert_eq!(img.height(), 1);
    assert_eq!(img.pixels(), &vec![(1, 1, 1), (2, 2, 2), (3, 3, 3)]);
}

#[test]
fn filled_sets_every_pixel() {
    let img = Image::filled(3, 2, (9, 8, 7));
    assert_eq!(img.width(), 3);
    assert_eq!(img.height(), 2);
    assert_eq!(img.pixels(), &vec![(9, 8, 7); 6]);
    let none = Image::filled(0, 0, (9, 8, 7));
    assert!(none.pixels().is_empty());
}

#[test]
fn get_pixel_reads_row_major() {
    let img = numbered(4, 3);
    assert_eq!(img.get_pixel(0, 0), (0, 0, 0));
    assert_eq!(img.get_pixel(3, 0), (3, 0, 3));
    assert_eq!(img.get_pixel(0, 2), (0, 2, 20));
    assert_eq!(img.get_pixel(2, 1), (2, 1, 12));
    assert_eq!(img.pixels()[1 * 4 + 2], (2, 1, 12));
}

#[test]
fn put_pixel_changes_one_pixel() {
    let mut img = numbered(4, 3);
    let before = img.clone();
    img.put_pixel(2, 1, (200, 201, 202));
    for y in 0..3 {
        for x in 0..4 {
            if (x, y) == (2, 1) {
                assert_eq!(img.get_pixel(x, y), (200, 201, 202));
            } else {
                assert_eq!(img.get_pixel(x, y), before.get_pixel(x, y));
            }
        }
    }
}

#[test]
fn crop_copies_the_rectangle() {
    let img = numbered(5, 4);
    let cut = img.crop(1, 2, 3, 2);
    assert_eq!(cut.width(), 3);
    assert_eq!(cut.height(), 2);
    assert_eq!(
        cut.pixels(),
        &vec![(1, 2, 21), (2, 2, 22), (3, 2, 23), (1, 3, 31), (2, 3, 32), (3, 3, 33)]
    );
}

#[test]
fn crop_is_cut_down_to_the_image() {
    let img = numbered(5, 4);
    let cut = img.crop(3, 3, 10, 10);
    assert_eq!(cut.width(), 2);
    assert_eq!(cut.height(), 1);
    assert_eq!(cut.pixels(), &vec![(3, 3, 33), (4, 3, 34)]);
    let outside = img.crop(9, 9, 2, 2);
    assert_eq!(outside.width(), 0);
    assert_eq!(outside.height(), 0);
    assert!(outside.pixels().is_empty());
    let whole = img.crop(0, 0, u32::MAX, u32::MAX);
    assert_eq!(whole, img);
}

#[test]
fn paste_writes_the_tile_at_its_place() {
    let mut canvas = Image::filled(4, 3, (0, 0, 0));
    let tile = Image::new(2, 2, vec![(1, 1, 1), (2, 2, 2), (3, 3, 3), (4, 4, 4)]).unwrap();
    canvas.paste(&tile, 2, 1);
    let z = (0, 0, 0);
    assert_eq!(
        canvas.pixels(),
        &vec![z, z, z, z, z, z, (1, 1, 1), (2, 2, 2), z, z, (3, 3, 3), (4, 4, 4)]
    );
}

#[test]
fn paste_of_a_crop_restores_the_image() {
    let img = numbered(6, 5);
    let cut = img.crop(2, 1, 3, 3);
    let mut changed = img.clone();
    for y in 1..4 {
        for x in 2..5 {
            changed.put_pixel(x, y, (255, 255, 255));
        }
    }
    assert_ne!(changed, img);
    changed.paste(&cut, 2, 1);
    assert_eq!(changed, img);
}
