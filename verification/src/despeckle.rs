//! The despeckler: pixels whose colour is a noise colour are repaired by a
//! majority vote over their immediate neighbours.
//!
//! The vote never looks beyond the image it is given. When an image is
//! processed tile by tile, a pixel on the border of a tile is therefore
//! repaired from the neighbours inside that tile alone.

use vstd::prelude::*;
use crate::colour::{black, contains_colour, same_colour, Colour};
use crate::raster::{lemma_grid_position, lemma_position_in_grid, Image, Raster};

verus! {

/// The pixels of the three by three window centred on `(x, y)`, without the
/// part of the window that lies outside the raster, scanned row by row from
/// the top, each row from the left.
pub open spec fn neighbourhood(r: Raster, x: int, y: int) -> Seq<Colour>
    recommends
        r.contains(x, y),
{
    let left = if x > 0 { x - 1 } else { 0 };
    let right = if x + 1 < r.width { x + 1 } else { r.width - 1 };
    let top = if y > 0 { y - 1 } else { 0 };
    let bottom = if y + 1 < r.height { y + 1 } else { r.height - 1 };
    let span = right - left + 1;
    let rows = bottom - top + 1;
    Seq::new((span * rows) as nat, |k: int| r.pixel(left + k % span, top + k / span))
}

/// How often `colour` occurs in `cube`.
pub open spec fn occurrences(cube: Seq<Colour>, colour: Colour) -> nat
    decreases cube.len(),
{
    if cube.len() == 0 {
        0
    } else {
        occurrences(cube.drop_last(), colour) + if cube.last() == colour { 1nat } else { 0nat }
    }
}

/// Whether position `i` of `cube` holds the winner of the vote: no colour of
/// the cube occurs more often than the one at `i`, and every colour met
/// earlier in the scan occurs strictly less often. Among equally frequent
/// colours the one met first therefore wins.
pub open spec fn is_majority(cube: Seq<Colour>, i: int) -> bool {
    &&& 0 <= i < cube.len()
    &&& forall|j: int|
        0 <= j < cube.len() ==> occurrences(cube, #[trigger] cube[j]) <= occurrences(cube, cube[i])
    &&& forall|j: int| 0 <= j < i ==> occurrences(cube, #[trigger] cube[j]) < occurrences(cube, cube[i])
}

/// The position of the winner of the vote in a cube that is not empty.
pub open spec fn majority_index(cube: Seq<Colour>) -> int {
    choose|i: int| is_majority(cube, i)
}

/// The winner of the vote in a cube that is not empty.
pub open spec fn majority_colour(cube: Seq<Colour>) -> Colour
    recommends
        cube.len() > 0,
{
    cube[majority_index(cube)]
}

/// What the despeckler, given a set of noise colours that is not empty,
/// makes of the pixel at `(x, y)`: a colour that is no
/// noise stays; a noise colour gives way to the winner of the vote among its
/// neighbours, or to black where the winner is itself noise.
pub open spec fn repaired(r: Raster, noise: Seq<Colour>, x: int, y: int) -> Colour
    recommends
        r.contains(x, y),
{
    let current = r.pixel(x, y);
    if !noise.contains(current) {
        current
    } else {
        let winner = majority_colour(neighbourhood(r, x, y));
        if noise.contains(winner) {
            black()
        } else {
            winner
        }
    }
}

/// The raster with every pixel repaired. Each pixel is repaired from the
/// raster as it was given, never from pixels already repaired.
pub open spec fn despeckled(r: Raster, noise: Seq<Colour>) -> Raster {
    Raster {
        pixels: Seq::new(
            r.pixels.len(),
            |i: int| repaired(r, noise, i % (r.width as int), i / (r.width as int)),
        ),
        ..r
    }
}

/// At most one position of a cube holds the winner of the vote.
pub proof fn lemma_majority_unique(cube: Seq<Colour>, i: int, j: int)
    requires
        is_majority(cube, i),
        is_majority(cube, j),
    ensures
        i == j,
{
    if i < j {
        assert(occurrences(cube, cube[i]) < occurrences(cube, cube[j]));
        assert(occurrences(cube, cube[j]) <= occurrences(cube, cube[i]));
    } else if j < i {
        assert(occurrences(cube, cube[j]) < occurrences(cube, cube[i]));
        assert(occurrences(cube, cube[i]) <= occurrences(cube, cube[j]));
    }
}

/// A colour occurs in a cube no more often than the cube is long.
proof fn lemma_occurrences_bounded(cube: Seq<Colour>, colour: Colour)
    ensures
        occurrences(cube, colour) <= cube.len(),
    decreases cube.len(),
{
    if cube.len() > 0 {
        lemma_occurrences_bounded(cube.drop_last(), colour);
    }
}

/// Among the first `n` positions of a cube, some position holds a colour
/// that occurs in the whole cube at least as often as every colour of those
/// positions, and strictly more often than every colour before it.
proof fn lemma_majority_among(cube: Seq<Colour>, n: int) -> (i: int)
    requires
        1 <= n <= cube.len(),
    ensures
        0 <= i < n,
        forall|j: int|
            0 <= j < n ==> occurrences(cube, #[trigger] cube[j]) <= occurrences(cube, cube[i]),
        forall|j: int| 0 <= j < i ==> occurrences(cube, #[trigger] cube[j]) < occurrences(cube, cube[i]),
    decreases n,
{
    if n == 1 {
        0
    } else {
        let before = lemma_majority_among(cube, n - 1);
        if occurrences(cube, cube[n - 1]) > occurrences(cube, cube[before]) {
            n - 1
        } else {
            before
        }
    }
}

/// Every cube that is not empty has a winner.
pub proof fn lemma_majority_exists(cube: Seq<Colour>)
    requires
        cube.len() > 0,
    ensures
        is_majority(cube, majority_index(cube)),
        cube.contains(majority_colour(cube)),
{
    let i = lemma_majority_among(cube, cube.len() as int);
    assert(is_majority(cube, i));
}

/// The neighbourhood of a position of the raster is not empty, holds at most
/// nine pixels, and holds pixels of the raster only.
pub proof fn lemma_neighbourhood(r: Raster, x: int, y: int)
    requires
        r.wf(),
        r.contains(x, y),
    ensures
        1 <= neighbourhood(r, x, y).len() <= 9,
        neighbourhood(r, x, y).contains(r.pixel(x, y)),
        forall|k: int|
            0 <= k < neighbourhood(r, x, y).len() ==> r.pixels.contains(
                #[trigger] neighbourhood(r, x, y)[k],
            ),
{
    let left = if x > 0 { x - 1 } else { 0 };
    let right = if x + 1 < r.width { x + 1 } else { r.width - 1 };
    let top = if y > 0 { y - 1 } else { 0 };
    let bottom = if y + 1 < r.height { y + 1 } else { r.height - 1 };
    let span = right - left + 1;
    let rows = bottom - top + 1;
    let cube = neighbourhood(r, x, y);
    assert(1 <= span * rows <= 9) by (nonlinear_arith)
        requires
            1 <= span <= 3,
            1 <= rows <= 3,
    ;
    lemma_position_in_grid(span as nat, rows as nat, x - left, y - top);
    let centre = (y - top) * span + (x - left);
    assert(cube[centre] == r.pixel(x, y));
    assert forall|k: int| 0 <= k < cube.len() implies r.pixels.contains(#[trigger] cube[k]) by {
        lemma_grid_position(span as nat, rows as nat, k);
        lemma_position_in_grid(r.width, r.height, left + k % span, top + k / span);
        assert(cube[k] == r.pixels[(top + k / span) * r.width + (left + k % span)]);
    }
}

/// The despeckler leaves every pixel alone whose colour is no noise colour.
pub proof fn lemma_clean_pixel_unchanged(r: Raster, noise: Seq<Colour>, x: int, y: int)
    requires
        r.wf(),
        r.contains(x, y),
        !noise.contains(r.pixel(x, y)),
    ensures
        despeckled(r, noise).pixel(x, y) == r.pixel(x, y),
{
    lemma_position_in_grid(r.width, r.height, x, y);
}

/// Every pixel that leaves the despeckler is the pixel that went in, or the
/// winner of the vote among its neighbours where that winner is no noise
/// colour, or black.
pub proof fn lemma_despeckled_pixel(r: Raster, noise: Seq<Colour>, x: int, y: int)
    requires
        r.wf(),
        r.contains(x, y),
    ensures
        ({
            let out = despeckled(r, noise).pixel(x, y);
            let winner = majority_colour(neighbourhood(r, x, y));
            ||| out == r.pixel(x, y)
            ||| (out == winner && !noise.contains(winner) && neighbourhood(r, x, y).contains(winner))
            ||| out == black()
        }),
{
    lemma_position_in_grid(r.width, r.height, x, y);
    lemma_neighbourhood(r, x, y);
    lemma_majority_exists(neighbourhood(r, x, y));
}

/// Collects the neighbourhood of `(x, y)` in `chunk`.
pub fn create_cube(x: u32, y: u32, chunk: &Image) -> (cube: Vec<Colour>)
    requires
        chunk@.contains(x as int, y as int),
    ensures
        cube@ == neighbourhood(chunk@, x as int, y as int),
        1 <= cube@.len() <= 9,
{
    let width: u32 = chunk.width();
    let height: u32 = chunk.height();
    let start_x: u32 = if x > 0 { x - 1 } else { 0 };
    let start_y: u32 = if y > 0 { y - 1 } else { 0 };
    let end_x: u32 = if x + 1 < width { x + 1 } else { width - 1 };
    let end_y: u32 = if y + 1 < height { y + 1 } else { height - 1 };
    let ghost span: int = end_x - start_x + 1;
    let ghost rows: int = end_y - start_y + 1;
    let mut cube: Vec<Colour> = Vec::with_capacity(9);
    let mut yy: u32 = start_y;
    while yy <= end_y
        invariant
            start_y <= yy <= end_y + 1,
            start_x <= end_x < width,
            end_y < height,
            width == chunk@.width,
            height == chunk@.height,
            span == end_x - start_x + 1,
            1 <= span <= 3,
            cube@.len() == (yy - start_y) * span,
            forall|k: int|
                0 <= k < (yy - start_y) * span ==> #[trigger] cube@[k] == chunk@.pixel(
                    start_x + k % span,
                    start_y + k / span,
                ),
        decreases end_y + 1 - yy,
    {
        let mut xx: u32 = start_x;
        while xx <= end_x
            invariant
                start_y <= yy <= end_y,
                start_x <= xx <= end_x + 1,
                end_x < width,
                end_y < height,
                width == chunk@.width,
                height == chunk@.height,
                span == end_x - start_x + 1,
                1 <= span <= 3,
                cube@.len() == (yy - start_y) * span + (xx - start_x),
                forall|k: int|
                    0 <= k < (yy - start_y) * span + (xx - start_x) ==> #[trigger] cube@[k]
                        == chunk@.pixel(start_x + k % span, start_y + k / span),
            decreases end_x + 1 - xx,
        {
            proof {
                lemma_position_in_grid(
                    span as nat,
                    (yy - start_y + 1) as nat,
                    xx - start_x,
                    yy - start_y,
                );
            }
            cube.push(chunk.get_pixel(xx, yy));
            xx += 1;
        }
        assert((yy - start_y) * span + span == (yy + 1 - start_y) * span) by (nonlinear_arith);
        yy += 1;
    }
    proof {
        assert(1 <= rows <= 3);
        assert(rows * span == span * rows) by (nonlinear_arith);
        assert(1 <= span * rows <= 9) by (nonlinear_arith)
            requires
                1 <= span <= 3,
                1 <= rows <= 3,
        ;
        assert(cube@ =~= neighbourhood(chunk@, x as int, y as int));
    }
    cube
}

/// Counts how often `colour` occurs in `cube`.
fn count_colour(cube: &Vec<Colour>, colour: Colour) -> (n: usize)
    ensures
        n == occurrences(cube@, colour),
{
    let mut n: usize = 0;
    let mut i: usize = 0;
    while i < cube.len()
        invariant
            i <= cube@.len(),
            n <= i,
            n == occurrences(cube@.take(i as int), colour),
        decreases cube@.len() - i,
    {
        assert(cube@.take(i + 1).drop_last() =~= cube@.take(i as int));
        if same_colour(cube[i], colour) {
            n += 1;
        }
        i += 1;
    }
    assert(cube@.take(cube@.len() as int) =~= cube@);
    n
}

/// Finds the winner of the vote in a cube that is not empty.
pub fn majority_of(cube: &Vec<Colour>) -> (winner: Colour)
    requires
        cube@.len() > 0,
    ensures
        winner == majority_colour(cube@),
        is_majority(cube@, majority_index(cube@)),
{
    let mut best: usize = 0;
    let mut best_count: usize = count_colour(cube, cube[0]);
    let mut i: usize = 1;
    while i < cube.len()
        invariant
            0 <= best < i <= cube@.len(),
            best_count == occurrences(cube@, cube@[best as int]),
            forall|j: int|
                0 <= j < i ==> occurrences(cube@, #[trigger] cube@[j]) <= occurrences(
                    cube@,
                    cube@[best as int],
                ),
            forall|j: int|
                0 <= j < best ==> occurrences(cube@, #[trigger] cube@[j]) < occurrences(
                    cube@,
                    cube@[best as int],
                ),
        decreases cube@.len() - i,
    {
        let count: usize = count_colour(cube, cube[i]);
        if count > best_count {
            best = i;
            best_count = count;
        }
        i += 1;
    }
    proof {
        assert(is_majority(cube@, best as int));
        lemma_majority_unique(cube@, best as int, majority_index(cube@));
    }
    cube[best]
}

/// Repairs the pixel at `(x, y)` of `chunk`. The set of noise colours must
/// hold a colour.
pub fn cluster_colour(x: u32, y: u32, chunk: &Image, indesirables: &[Colour]) -> (colour: Colour)
    requires
        chunk@.contains(x as int, y as int),
        indesirables@.len() > 0,
    ensures
        colour == repaired(chunk@, indesirables@, x as int, y as int),
{
    let pixel = chunk.get_pixel(x, y);
    if !contains_colour(indesirables, pixel) {
        pixel
    } else {
        let cube = create_cube(x, y, chunk);
        let winner = majority_of(&cube);
        if contains_colour(indesirables, winner) {
            (0, 0, 0)
        } else {
            winner
        }
    }
}

/// Repairs every pixel of `chunk`. The set of noise colours must hold a
/// colour.
pub fn post_process_chunk(chunk: &Image, indesirables: &[Colour]) -> (processed: Image)
    requires
        indesirables@.len() > 0,
    ensures
        processed@ == despeckled(chunk@, indesirables@),
{
    let width: u32 = chunk.width();
    let height: u32 = chunk.height();
    let source = chunk.pixels();
    let mut pixels: Vec<Colour> = Vec::with_capacity(source.len());
    let mut y: u32 = 0;
    while y < height
        invariant
            y <= height,
            width == chunk@.width,
            height == chunk@.height,
            chunk@.wf(),
            indesirables@.len() > 0,
            pixels@.len() == y * width,
            forall|k: int|
                0 <= k < y * width ==> #[trigger] pixels@[k] == repaired(
                    chunk@,
                    indesirables@,
                    k % (width as int),
                    k / (width as int),
                ),
        decreases height - y,
    {
        let mut x: u32 = 0;
        while x < width
            invariant
                y < height,
                x <= width,
                width == chunk@.width,
                height == chunk@.height,
                chunk@.wf(),
                indesirables@.len() > 0,
                pixels@.len() == y * width + x,
                forall|k: int|
                    0 <= k < y * width + x ==> #[trigger] pixels@[k] == repaired(
                        chunk@,
                        indesirables@,
                        k % (width as int),
                        k / (width as int),
                    ),
            decreases width - x,
        {
            proof {
                lemma_position_in_grid(width as nat, height as nat, x as int, y as int);
            }
            pixels.push(cluster_colour(x, y, chunk, indesirables));
            x += 1;
        }
        assert(y * width + width == (y + 1) * width) by (nonlinear_arith);
        y += 1;
    }
    proof {
        assert(height * width == width * height) by (nonlinear_arith);
        assert(pixels@ =~= despeckled(chunk@, indesirables@).pixels);
    }
    Image::new(width, height, pixels).unwrap()
}

} // verus!
