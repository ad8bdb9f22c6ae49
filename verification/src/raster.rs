//! Decoded raster images: a width, a height and a dense row-major pixel grid.

use vstd::prelude::*;
use crate::colour::Colour;

verus! {

/// The mathematical model of an image: `pixels` holds the rows one after the
/// other, top row first, each row from left to right.
pub struct Raster {
    pub width: nat,
    pub height: nat,
    pub pixels: Seq<Colour>,
}

impl Raster {
    /// The grid is dense: one pixel for every position, and no more.
    pub open spec fn wf(self) -> bool {
        self.pixels.len() == self.width * self.height
    }

    /// Whether `(x, y)` names a position of this raster.
    pub open spec fn contains(self, x: int, y: int) -> bool {
        0 <= x < self.width && 0 <= y < self.height
    }

    /// The pixel in column `x` of row `y`.
    pub open spec fn pixel(self, x: int, y: int) -> Colour
        recommends
            self.contains(x, y),
    {
        self.pixels[y * self.width + x]
    }

    /// A raster of the given size with every pixel set to `colour`.
    pub open spec fn filled(width: nat, height: nat, colour: Colour) -> Raster {
        Raster { width, height, pixels: Seq::new(width * height, |i: int| colour) }
    }

    /// This raster with the pixel at `(x, y)` replaced by `colour`.
    pub open spec fn with_pixel(self, x: int, y: int, colour: Colour) -> Raster
        recommends
            self.contains(x, y),
    {
        Raster { pixels: self.pixels.update(y * self.width + x, colour), ..self }
    }

    /// The rectangle of `width` by `height` pixels whose top left corner is
    /// `(x0, y0)`, cut down to the part of it that lies inside this raster.
    pub open spec fn cropped(self, x0: nat, y0: nat, width: nat, height: nat) -> Raster {
        let left = if x0 <= self.width { x0 } else { self.width };
        let top = if y0 <= self.height { y0 } else { self.height };
        let w = if width <= self.width - left { width } else { (self.width - left) as nat };
        let h = if height <= self.height - top { height } else { (self.height - top) as nat };
        Raster {
            width: w,
            height: h,
            pixels: Seq::new(w * h, |i: int| self.pixel(left + i % (w as int), top + i / (w as int))),
        }
    }

    /// This raster with `tile` written over it, the tile's top left corner at
    /// `(x0, y0)`.
    pub open spec fn pasted(self, tile: Raster, x0: nat, y0: nat) -> Raster
        recommends
            x0 + tile.width <= self.width,
            y0 + tile.height <= self.height,
    {
        Raster {
            pixels: Seq::new(
                self.pixels.len(),
                |i: int|
                    {
                        let x = i % (self.width as int);
                        let y = i / (self.width as int);
                        if x0 <= x < x0 + tile.width && y0 <= y < y0 + tile.height {
                            tile.pixel(x - x0, y - y0)
                        } else {
                            self.pixels[i]
                        }
                    },
            ),
            ..self
        }
    }
}

/// Row-major positions stay inside a dense grid.
pub proof fn lemma_position_in_grid(width: nat, height: nat, x: int, y: int)
    requires
        0 <= x < width,
        0 <= y < height,
    ensures
        0 <= y * width + x < width * height,
        (y * width + x) % (width as int) == x,
        (y * width + x) / (width as int) == y,
{
    assert(y * width + x < width * height) by (nonlinear_arith)
        requires
            0 <= x < width,
            0 <= y < height,
    {
        assert((y + 1) * width <= height * width);
    }
    assert(0 <= y * width) by (nonlinear_arith)
        requires
            0 <= y,
            0 <= width,
    ;
    vstd::arithmetic::div_mod::lemma_fundamental_div_mod_converse(
        y * width + x,
        width as int,
        y,
        x,
    );
}

/// Every index of a dense grid is the row-major position of one pixel.
pub proof fn lemma_grid_position(width: nat, height: nat, i: int)
    requires
        0 <= i < width * height,
    ensures
        0 <= i % (width as int) < width,
        0 <= i / (width as int) < height,
        (i / (width as int)) * width + i % (width as int) == i,
{
    assert(width > 0) by (nonlinear_arith)
        requires
            0 <= i < width * height,
    ;
    let w = width as int;
    vstd::arithmetic::div_mod::lemma_fundamental_div_mod(i, w);
    vstd::arithmetic::div_mod::lemma_mod_bound(i, w);
    vstd::arithmetic::div_mod::lemma_div_pos_is_pos(i, w);
    assert(w * (i / w) == (i / w) * w) by (nonlinear_arith);
    assert(i / w < height) by (nonlinear_arith)
        requires
            i < w * height,
            w > 0,
            (i / w) * w + i % w == i,
            0 <= i % w,
    {
        if i / w >= height {
            assert((i / w) * w >= height * w);
        }
    }
}

/// A decoded image. It owns its pixels; the grid is dense at all times.
#[derive(Debug, PartialEq, Eq)]
pub struct Image {
    width: u32,
    height: u32,
    pixels: Vec<Colour>,
}

impl View for Image {
    type V = Raster;

    closed spec fn view(&self) -> Raster {
        Raster { width: self.width as nat, height: self.height as nat, pixels: self.pixels@ }
    }
}

impl Clone for Image {
    /// A copy with the same size and the same pixels.
    fn clone(&self) -> (copy: Image)
        ensures
            copy@ == self@,
    {
        proof {
            use_type_invariant(self);
        }
        let mut pixels: Vec<Colour> = Vec::with_capacity(self.pixels.len());
        let mut i: usize = 0;
        while i < self.pixels.len()
            invariant
                i <= self.pixels@.len(),
                pixels@ == self.pixels@.take(i as int),
            decreases self.pixels@.len() - i,
        {
            pixels.push(self.pixels[i]);
            assert(self.pixels@.take(i + 1) =~= self.pixels@.take(i as int).push(self.pixels@[i as int]));
            i += 1;
        }
        assert(self.pixels@.take(self.pixels@.len() as int) =~= self.pixels@);
        Image { width: self.width, height: self.height, pixels }
    }
}

impl Image {
    #[verifier::type_invariant]
    spec fn dense(self) -> bool {
        self.pixels@.len() == self.width * self.height
    }

    /// Builds an image from its row-major pixels. The pixels must fill the
    /// grid exactly; otherwise there is no such image.
    pub fn new(width: u32, height: u32, pixels: Vec<Colour>) -> (made: Option<Image>)
        ensures
            made is Some <==> pixels@.len() == width * height,
            made is Some ==> made->0@ == (Raster {
                width: width as nat,
                height: height as nat,
                pixels: pixels@,
            }),
    {
        assert(width * height <= u64::MAX) by (nonlinear_arith)
            requires
                width <= u32::MAX,
                height <= u32::MAX,
        ;
        let wanted: u64 = width as u64 * height as u64;
        if pixels.len() as u64 == wanted {
            Some(Image { width, height, pixels })
        } else {
            None
        }
    }

    /// An image of the given size in a single colour.
    pub fn filled(width: u32, height: u32, colour: Colour) -> (made: Image)
        requires
            width * height <= usize::MAX,
        ensures
            made@ == Raster::filled(width as nat, height as nat, colour),
    {
        assert(width * height == (width as usize) * (height as usize));
        let count: usize = width as usize * height as usize;
        let mut pixels: Vec<Colour> = Vec::with_capacity(count);
        let mut i: usize = 0;
        while i < count
            invariant
                i <= count,
                pixels@.len() == i,
                forall|k: int| 0 <= k < i ==> pixels@[k] == colour,
            decreases count - i,
        {
            pixels.push(colour);
            i += 1;
        }
        assert(pixels@ =~= Seq::new((width as nat) * (height as nat), |k: int| colour));
        Image { width, height, pixels }
    }

    /// The number of columns.
    pub fn width(&self) -> (w: u32)
        ensures
            w == self@.width,
            self@.wf(),
    {
        proof {
            use_type_invariant(self);
        }
        self.width
    }

    /// The number of rows.
    pub fn height(&self) -> (h: u32)
        ensures
            h == self@.height,
            self@.wf(),
    {
        proof {
            use_type_invariant(self);
        }
        self.height
    }

    /// The pixels, row after row.
    pub fn pixels(&self) -> (all: &Vec<Colour>)
        ensures
            all@ == self@.pixels,
            self@.wf(),
    {
        proof {
            use_type_invariant(self);
        }
        &self.pixels
    }

    /// Where the pixel in column `x` of row `y` is stored.
    fn offset(&self, x: u32, y: u32) -> (i: usize)
        requires
            x < self.width,
            y < self.height,
        ensures
            i == y * self.width + x,
            i < self.pixels@.len(),
            self.pixels@.len() == self.width * self.height,
    {
        proof {
            use_type_invariant(self);
            lemma_position_in_grid(self.width as nat, self.height as nat, x as int, y as int);
            assert(0 <= y * self.width) by (nonlinear_arith)
                requires
                    0 <= y,
                    0 <= self.width,
            ;
        }
        let stored: usize = self.pixels.len();
        y as usize * self.width as usize + x as usize
    }

    /// The pixel in column `x` of row `y`.
    pub fn get_pixel(&self, x: u32, y: u32) -> (colour: Colour)
        requires
            self@.contains(x as int, y as int),
        ensures
            colour == self@.pixel(x as int, y as int),
    {
        let i: usize = self.offset(x, y);
        self.pixels[i]
    }

    /// Replaces the pixel in column `x` of row `y`.
    pub fn put_pixel(&mut self, x: u32, y: u32, colour: Colour)
        requires
            old(self)@.contains(x as int, y as int),
        ensures
            final(self)@ == old(self)@.with_pixel(x as int, y as int, colour),
    {
        let i: usize = self.offset(x, y);
        self.pixels[i] = colour;
    }

    /// Copies out the rectangle of `width` by `height` pixels whose top left
    /// corner is `(x0, y0)`. A rectangle that reaches beyond the image is cut
    /// down to the part inside it.
    pub fn crop(&self, x0: u32, y0: u32, width: u32, height: u32) -> (cut: Image)
        ensures
            cut@ == self@.cropped(x0 as nat, y0 as nat, width as nat, height as nat),
    {
        proof {
            use_type_invariant(self);
        }
        let left: u32 = if x0 <= self.width { x0 } else { self.width };
        let top: u32 = if y0 <= self.height { y0 } else { self.height };
        let w: u32 = if width <= self.width - left { width } else { self.width - left };
        let h: u32 = if height <= self.height - top { height } else { self.height - top };
        let stored: usize = self.pixels.len();
        assert(w * h <= self.width * self.height) by (nonlinear_arith)
            requires
                0 <= w <= self.width,
                0 <= h <= self.height,
        ;
        let mut pixels: Vec<Colour> = Vec::with_capacity(w as usize * h as usize);
        let mut row: u32 = 0;
        while row < h
            invariant
                row <= h,
                left + w <= self.width,
                top + h <= self.height,
                pixels@.len() == row * w,
                forall|k: int|
                    0 <= k < row * w ==> #[trigger] pixels@[k] == self@.pixel(
                        left + k % (w as int),
                        top + k / (w as int),
                    ),
            decreases h - row,
        {
            let mut col: u32 = 0;
            while col < w
                invariant
                    row < h,
                    col <= w,
                    left + w <= self.width,
                    top + h <= self.height,
                    pixels@.len() == row * w + col,
                    forall|k: int|
                        0 <= k < row * w + col ==> #[trigger] pixels@[k] == self@.pixel(
                            left + k % (w as int),
                            top + k / (w as int),
                        ),
                decreases w - col,
            {
                proof {
                    lemma_position_in_grid(w as nat, h as nat, col as int, row as int);
                }
                pixels.push(self.get_pixel(left + col, top + row));
                col += 1;
            }
            assert(row * w + w == (row + 1) * w) by (nonlinear_arith);
            row += 1;
        }
        assert(h * w == w * h) by (nonlinear_arith);
        assert(pixels@ =~= self@.cropped(x0 as nat, y0 as nat, width as nat, height as nat).pixels);
        Image { width: w, height: h, pixels }
    }

    /// Writes `tile` over this image, the tile's top left corner at
    /// `(x0, y0)`. The tile must lie inside the image.
    pub fn paste(&mut self, tile: &Image, x0: u32, y0: u32)
        requires
            x0 + tile@.width <= old(self)@.width,
            y0 + tile@.height <= old(self)@.height,
        ensures
            final(self)@ == old(self)@.pasted(tile@, x0 as nat, y0 as nat),
    {
        proof {
            use_type_invariant(&*self);
        }
        let tw: u32 = tile.width();
        let th: u32 = tile.height();
        let ghost before = self@;
        let mut row: u32 = 0;
        while row < th
            invariant
                row <= th,
                tw == tile@.width,
                th == tile@.height,
                tile@.wf(),
                before.wf(),
                x0 + tw <= before.width,
                y0 + th <= before.height,
                self@.width == before.width,
                self@.height == before.height,
                self@.pixels.len() == before.pixels.len(),
                forall|i: int|
                    0 <= i < before.pixels.len() ==> #[trigger] self@.pixels[i] == (if overwritten(
                        x0 as int,
                        y0 as int,
                        tw as int,
                        0,
                        row as int,
                        i % (before.width as int),
                        i / (before.width as int),
                    ) {
                        tile@.pixel(i % (before.width as int) - x0, i / (before.width as int) - y0)
                    } else {
                        before.pixels[i]
                    }),
            decreases th - row,
        {
            let mut col: u32 = 0;
            while col < tw
                invariant
                    row < th,
                    col <= tw,
                    tw == tile@.width,
                    th == tile@.height,
                    tile@.wf(),
                    before.wf(),
                    x0 + tw <= before.width,
                    y0 + th <= before.height,
                    self@.width == before.width,
                    self@.height == before.height,
                    self@.pixels.len() == before.pixels.len(),
                    forall|i: int|
                        0 <= i < before.pixels.len() ==> #[trigger] self@.pixels[i] == (if overwritten(
                            x0 as int,
                            y0 as int,
                            tw as int,
                            col as int,
                            row as int,
                            i % (before.width as int),
                            i / (before.width as int),
                        ) {
                            tile@.pixel(
                                i % (before.width as int) - x0,
                                i / (before.width as int) - y0,
                            )
                        } else {
                            before.pixels[i]
                        }),
                decreases tw - col,
            {
                let ghost earlier = self@;
                let colour = tile.get_pixel(col, row);
                self.put_pixel(x0 + col, y0 + row, colour);
                proof {
                    let width = before.width;
                    let target = (y0 + row) * width + (x0 + col);
                    lemma_position_in_grid(width, before.height, x0 + col, y0 + row);
                    assert forall|i: int| 0 <= i < before.pixels.len() implies #[trigger] self@.pixels[i]
                        == (if overwritten(
                        x0 as int,
                        y0 as int,
                        tw as int,
                        col + 1,
                        row as int,
                        i % (width as int),
                        i / (width as int),
                    ) {
                        tile@.pixel(i % (width as int) - x0, i / (width as int) - y0)
                    } else {
                        before.pixels[i]
                    }) by {
                        lemma_grid_position(width, before.height, i);
                        if i != target {
                            assert(self@.pixels[i] == earlier.pixels[i]);
                        }
                    }
                }
                col += 1;
            }
            row += 1;
        }
        assert(self@.pixels =~= before.pasted(tile@, x0 as nat, y0 as nat).pixels);
    }
}

/// Whether `(x, y)` has been written when a tile of width `tw` with top left
/// corner `(x0, y0)` is copied row by row and the copy has reached column
/// `col` of tile row `row`.
spec fn overwritten(x0: int, y0: int, tw: int, col: int, row: int, x: int, y: int) -> bool {
    ||| (y0 <= y < y0 + row && x0 <= x < x0 + tw)
    ||| (y == y0 + row && x0 <= x < x0 + col)
}

} // verus!
