//! The tile partitioner: an image is cut into a grid of equal tiles that
//! cover it exactly.

use vstd::prelude::*;
use vstd::arithmetic::div_mod::{
    lemma_div_pos_is_pos,
    lemma_fundamental_div_mod,
    lemma_fundamental_div_mod_converse,
    lemma_mod_bound,
};
use crate::raster::{lemma_grid_position, lemma_position_in_grid, Image, Raster};

verus! {

/// Whether `k` divides `n` without remainder.
pub open spec fn divides(k: int, n: int) -> bool {
    n % k == 0
}

/// Whether `d` is the divider chosen for an axis of the positive length
/// `n`: the smallest number greater than one that divides `n`. Where no such
/// number lies below `n` the divider is `n` itself; so it is for a prime, and
/// for 1.
pub open spec fn is_smallest_divider(n: int, d: int) -> bool
    recommends
        n >= 1,
{
    if n == 1 {
        d == 1
    } else {
        &&& 2 <= d <= n
        &&& divides(d, n)
        &&& forall|k: int| 2 <= k < d ==> !#[trigger] divides(k, n)
    }
}

/// The divider chosen for an axis of length `n`.
pub open spec fn smallest_divider_of(n: int) -> int {
    choose|d: int| is_smallest_divider(n, d)
}

/// An axis has only one smallest divider.
pub proof fn lemma_smallest_divider_unique(n: int, d: int, e: int)
    requires
        is_smallest_divider(n, d),
        is_smallest_divider(n, e),
    ensures
        d == e,
{
    if n >= 2 {
        if d < e {
            assert(divides(d, n));
        } else if e < d {
            assert(divides(e, n));
        }
    }
}

/// A number with no divider from 2 up to its square root has none below
/// itself.
proof fn lemma_no_divider_below_root(n: int, i: int)
    requires
        2 <= i,
        i * i > n,
        n >= 2,
        forall|k: int| 2 <= k < i ==> !#[trigger] divides(k, n),
    ensures
        forall|k: int| 2 <= k < n ==> !#[trigger] divides(k, n),
{
    assert forall|k: int| 2 <= k < n implies !#[trigger] divides(k, n) by {
        if divides(k, n) {
            let m = n / k;
            lemma_fundamental_div_mod(n, k);
            assert(n == k * m);
            assert(m >= 2) by (nonlinear_arith)
                requires
                    n == k * m,
                    2 <= k < n,
            ;
            assert(m < i) by (nonlinear_arith)
                requires
                    n == k * m,
                    k >= i,
                    i * i > n,
                    i >= 2,
                    m >= 2,
            ;
            assert(n == m * k + 0) by (nonlinear_arith)
                requires
                    n == k * m,
            ;
            lemma_fundamental_div_mod_converse(n, m, k, 0);
            assert(divides(m, n));
        }
    }
}

/// Finds the smallest number greater than one that divides `n`, or `n`
/// itself where no smaller one does. An axis has a positive length.
pub fn smallest_divider(n: u32) -> (d: u32)
    requires
        n > 0,
    ensures
        is_smallest_divider(n as int, d as int),
        d == smallest_divider_of(n as int),
{
    if n < 4 {
        proof {
            if n >= 2 {
                assert forall|k: int| 2 <= k < n implies !#[trigger] divides(k, n as int) by {
                    assert(n == 3 && k == 2);
                }
                assert(divides(n as int, n as int)) by {
                    lemma_fundamental_div_mod_converse(n as int, n as int, 1, 0);
                }
            }
            assert(is_smallest_divider(n as int, n as int));
            lemma_smallest_divider_unique(n as int, n as int, smallest_divider_of(n as int));
        }
        return n;
    }
    let mut i: u32 = 2;
    while i <= n / i
        invariant
            2 <= i <= n,
            n >= 4,
            forall|k: int| 2 <= k < i ==> !#[trigger] divides(k, n as int),
        decreases n - i,
    {
        if n % i == 0 {
            proof {
                assert(divides(i as int, n as int));
                assert(is_smallest_divider(n as int, i as int));
                lemma_smallest_divider_unique(n as int, i as int, smallest_divider_of(n as int));
            }
            return i;
        }
        proof {
            lemma_fundamental_div_mod(n as int, i as int);
            assert(i < n) by (nonlinear_arith)
                requires
                    i <= n / i,
                    i >= 2,
                    n == i * (n / i) + n % i,
                    n % i >= 0,
                    n >= 4,
            ;
        }
        i += 1;
    }
    proof {
        lemma_fundamental_div_mod(n as int, i as int);
        lemma_mod_bound(n as int, i as int);
        assert(i * i > n) by (nonlinear_arith)
            requires
                i > n / i,
                i >= 2,
                n == i * (n / i) + n % i,
                0 <= n % i < i,
        ;
        lemma_no_divider_below_root(n as int, i as int);
        assert(divides(n as int, n as int)) by {
            lemma_fundamental_div_mod_converse(n as int, n as int, 1, 0);
        }
        assert(is_smallest_divider(n as int, n as int));
        lemma_smallest_divider_unique(n as int, n as int, smallest_divider_of(n as int));
    }
    n
}

/// The shape of a tile grid: so many columns and rows of tiles, every tile
/// of the same width and height. Tiles are numbered row by row from the top,
/// each row from the left.
#[derive(Clone, Copy, Debug, PartialEq, Eq, Structural)]
pub struct GridShape {
    pub columns: u32,
    pub rows: u32,
    pub tile_width: u32,
    pub tile_height: u32,
}

impl GridShape {
    /// The number of tiles.
    pub open spec fn tile_count(self) -> int {
        self.columns * self.rows
    }

    /// The left edge of tile `i`.
    pub open spec fn origin_x(self, i: int) -> int {
        (i % (self.columns as int)) * self.tile_width
    }

    /// The top edge of tile `i`.
    pub open spec fn origin_y(self, i: int) -> int {
        (i / (self.columns as int)) * self.tile_height
    }

    /// Whether the rectangle of tile `i` holds the position `(x, y)`.
    pub open spec fn covers(self, i: int, x: int, y: int) -> bool {
        &&& self.origin_x(i) <= x < self.origin_x(i) + self.tile_width
        &&& self.origin_y(i) <= y < self.origin_y(i) + self.tile_height
    }

    /// The number of the tile in whose column `x` and in whose row `y` lies.
    pub open spec fn tile_at(self, x: int, y: int) -> int {
        (y / (self.tile_height as int)) * self.columns + x / (self.tile_width as int)
    }

    /// Whether this grid cuts a `width` by `height` rectangle without
    /// remainder.
    pub open spec fn tiles_exactly(self, width: int, height: int) -> bool {
        &&& self.columns >= 1
        &&& self.rows >= 1
        &&& self.tile_width >= 1
        &&& self.tile_height >= 1
        &&& self.columns * self.tile_width == width
        &&& self.rows * self.tile_height == height
    }
}

/// The grid chosen for a `width` by `height` image: each axis is cut into as
/// many parts as its smallest divider says.
pub open spec fn grid_shape_of(width: int, height: int) -> GridShape {
    let columns = smallest_divider_of(width);
    let rows = smallest_divider_of(height);
    GridShape {
        columns: columns as u32,
        rows: rows as u32,
        tile_width: (width / columns) as u32,
        tile_height: (height / rows) as u32,
    }
}

/// An axis of positive length is cut by its smallest divider into that many
/// parts of equal, positive length.
proof fn lemma_axis_split(n: int, d: int)
    requires
        n >= 1,
        is_smallest_divider(n, d),
    ensures
        1 <= d <= n,
        1 <= n / d <= n,
        d * (n / d) == n,
{
    lemma_fundamental_div_mod(n, d);
    assert(n / d >= 1 && n / d <= n) by (nonlinear_arith)
        requires
            n == d * (n / d),
            1 <= d <= n,
    ;
}

/// Along one axis cut into `d` parts of length `t`, every position lies in
/// exactly one part, and every part lies inside the axis.
proof fn lemma_axis_parts(d: int, t: int, c: int, x: int)
    requires
        d >= 1,
        t >= 1,
    ensures
        0 <= c < d ==> 0 <= c * t && c * t + t <= d * t,
        0 <= x < d * t ==> 0 <= x / t < d && (x / t) * t <= x < (x / t) * t + t,
        c * t <= x < c * t + t ==> c == x / t,
        c * t <= x < c * t + t ==> x % t == x - c * t,
{
    if 0 <= c < d {
        assert(0 <= c * t && c * t + t <= d * t) by (nonlinear_arith)
            requires
                0 <= c < d,
                t >= 1,
        ;
    }
    if 0 <= x < d * t {
        lemma_fundamental_div_mod(x, t);
        lemma_mod_bound(x, t);
        lemma_div_pos_is_pos(x, t);
        assert(t * (x / t) == (x / t) * t) by (nonlinear_arith);
        assert(x / t < d) by (nonlinear_arith)
            requires
                (x / t) * t <= x,
                x < d * t,
                t >= 1,
        ;
    }
    if c * t <= x < c * t + t {
        lemma_fundamental_div_mod_converse(x, t, c, x - c * t);
    }
}

/// The chosen grid cuts the image without remainder.
pub proof fn lemma_grid_tiles_exactly(width: int, height: int)
    requires
        1 <= width <= u32::MAX,
        1 <= height <= u32::MAX,
    ensures
        grid_shape_of(width, height).tiles_exactly(width, height),
        is_smallest_divider(width, grid_shape_of(width, height).columns as int),
        is_smallest_divider(height, grid_shape_of(width, height).rows as int),
{
    lemma_smallest_divider_exists(width);
    lemma_smallest_divider_exists(height);
    lemma_axis_split(width, smallest_divider_of(width));
    lemma_axis_split(height, smallest_divider_of(height));
}

/// Every axis of positive length has a smallest divider.
pub proof fn lemma_smallest_divider_exists(n: int)
    requires
        n >= 1,
    ensures
        is_smallest_divider(n, smallest_divider_of(n)),
{
    if n < 2 {
        assert(is_smallest_divider(n, n));
    } else {
        let d = lemma_first_divider_from(n, 2);
        assert(is_smallest_divider(n, d));
    }
}

/// Searching upwards from `from`, below which nothing divides `n`, finds the
/// smallest divider of `n`.
proof fn lemma_first_divider_from(n: int, from: int) -> (d: int)
    requires
        2 <= from <= n,
        forall|k: int| 2 <= k < from ==> !#[trigger] divides(k, n),
    ensures
        is_smallest_divider(n, d),
    decreases n - from,
{
    if divides(from, n) {
        from
    } else {
        if from == n {
            lemma_fundamental_div_mod_converse(n, n, 1, 0);
        }
        lemma_first_divider_from(n, from + 1)
    }
}

/// The tile grid covers the image exactly: every tile lies inside the image,
/// every pixel of the image lies in a tile, and no pixel lies in two tiles.
pub proof fn lemma_grid_covers_exactly(width: int, height: int)
    requires
        1 <= width <= u32::MAX,
        1 <= height <= u32::MAX,
    ensures
        forall|i: int, x: int, y: int|
            0 <= i < grid_shape_of(width, height).tile_count() && #[trigger] grid_shape_of(
                width,
                height,
            ).covers(i, x, y) ==> 0 <= x < width && 0 <= y < height,
        forall|x: int, y: int|
            0 <= x < width && 0 <= y < height ==> 0 <= #[trigger] grid_shape_of(
                width,
                height,
            ).tile_at(x, y) < grid_shape_of(width, height).tile_count() && grid_shape_of(
                width,
                height,
            ).covers(grid_shape_of(width, height).tile_at(x, y), x, y),
        forall|i: int, j: int, x: int, y: int|
            0 <= i < grid_shape_of(width, height).tile_count() && 0 <= j < grid_shape_of(
                width,
                height,
            ).tile_count() && #[trigger] grid_shape_of(width, height).covers(i, x, y)
                && #[trigger] grid_shape_of(width, height).covers(j, x, y) ==> i == j,
{
    let shape = grid_shape_of(width, height);
    lemma_grid_tiles_exactly(width, height);
    assert forall|i: int, x: int, y: int|
        0 <= i < shape.tile_count() && #[trigger] shape.covers(i, x, y) implies 0 <= x < width && 0
        <= y < height by {
        lemma_tile_covers(shape, width, height, i, x, y);
    }
    assert forall|x: int, y: int| 0 <= x < width && 0 <= y < height implies 0
        <= #[trigger] shape.tile_at(x, y) < shape.tile_count() && shape.covers(
        shape.tile_at(x, y),
        x,
        y,
    ) by {
        lemma_tile_at(shape, width, height, x, y);
    }
    assert forall|i: int, j: int, x: int, y: int|
        0 <= i < shape.tile_count() && 0 <= j < shape.tile_count() && #[trigger] shape.covers(
            i,
            x,
            y,
        ) && #[trigger] shape.covers(j, x, y) implies i == j by {
        lemma_tile_covers(shape, width, height, i, x, y);
        lemma_tile_covers(shape, width, height, j, x, y);
    }
}

/// A position covered by tile `i` lies inside the image, and `i` is the tile
/// found at that position.
pub proof fn lemma_tile_covers(shape: GridShape, width: int, height: int, i: int, x: int, y: int)
    requires
        shape.tiles_exactly(width, height),
        0 <= i < shape.tile_count(),
        shape.covers(i, x, y),
    ensures
        0 <= x < width,
        0 <= y < height,
        shape.tile_at(x, y) == i,
        x % (shape.tile_width as int) == x - shape.origin_x(i),
        y % (shape.tile_height as int) == y - shape.origin_y(i),
{
    let columns = shape.columns as int;
    let rows = shape.rows as int;
    let col = i % columns;
    let row = i / columns;
    lemma_grid_position(columns as nat, rows as nat, i);
    lemma_axis_parts(columns, shape.tile_width as int, col, x);
    lemma_axis_parts(rows, shape.tile_height as int, row, y);
}

/// A position inside the image is covered by the tile found at it.
pub proof fn lemma_tile_at(shape: GridShape, width: int, height: int, x: int, y: int)
    requires
        shape.tiles_exactly(width, height),
        0 <= x < width,
        0 <= y < height,
    ensures
        0 <= shape.tile_at(x, y) < shape.tile_count(),
        shape.covers(shape.tile_at(x, y), x, y),
        shape.tile_at(x, y) % (shape.columns as int) == x / (shape.tile_width as int),
        shape.tile_at(x, y) / (shape.columns as int) == y / (shape.tile_height as int),
{
    let columns = shape.columns as int;
    let rows = shape.rows as int;
    let col = x / (shape.tile_width as int);
    let row = y / (shape.tile_height as int);
    lemma_axis_parts(columns, shape.tile_width as int, col, x);
    lemma_axis_parts(rows, shape.tile_height as int, row, y);
    lemma_position_in_grid(columns as nat, rows as nat, col, row);
}

/// Computes the grid for a `width` by `height` image.
pub fn grid_shape(width: u32, height: u32) -> (shape: GridShape)
    requires
        width > 0,
        height > 0,
    ensures
        shape == grid_shape_of(width as int, height as int),
        shape.tiles_exactly(width as int, height as int),
{
    let columns = smallest_divider(width);
    let rows = smallest_divider(height);
    proof {
        lemma_grid_tiles_exactly(width as int, height as int);
    }
    GridShape { columns, rows, tile_width: width / columns, tile_height: height / rows }
}

/// The mathematical model of a tile: where its top left corner lies in the
/// image it was cut from, and its own pixels.
pub struct TileView {
    pub x0: nat,
    pub y0: nat,
    pub raster: Raster,
}

impl TileView {
    /// Whether the tile's rectangle holds the position `(x, y)` of the image.
    pub open spec fn covers(self, x: int, y: int) -> bool {
        &&& self.x0 <= x < self.x0 + self.raster.width
        &&& self.y0 <= y < self.y0 + self.raster.height
    }

    /// Whether the tile is dense and lies inside a `width` by `height` image.
    pub open spec fn fits(self, width: nat, height: nat) -> bool {
        &&& self.raster.wf()
        &&& self.x0 + self.raster.width <= width
        &&& self.y0 + self.raster.height <= height
    }
}

/// Whether every tile of the list is dense and lies inside a `width` by
/// `height` image.
pub open spec fn all_fit(width: nat, height: nat, tiles: Seq<TileView>) -> bool {
    forall|i: int| 0 <= i < tiles.len() ==> (#[trigger] tiles[i]).fits(width, height)
}

/// Whether no position is covered by two tiles of the list.
pub open spec fn pairwise_disjoint(tiles: Seq<TileView>) -> bool {
    forall|i: int, j: int, x: int, y: int|
        0 <= i < tiles.len() && 0 <= j < tiles.len() && i != j ==> !(#[trigger] tiles[i].covers(
            x,
            y,
        ) && #[trigger] tiles[j].covers(x, y))
}

/// Whether some tile of the list covers the position `(x, y)`.
pub open spec fn covered(tiles: Seq<TileView>, x: int, y: int) -> bool {
    exists|i: int| 0 <= i < tiles.len() && #[trigger] tiles[i].covers(x, y)
}

/// Whether every position of a `width` by `height` image is covered by a
/// tile of the list.
pub open spec fn cover_all(width: nat, height: nat, tiles: Seq<TileView>) -> bool {
    forall|x: int, y: int| 0 <= x < width && 0 <= y < height ==> #[trigger] covered(tiles, x, y)
}

/// A rectangular part of an image, with a copy of its pixels and the place
/// it was cut from.
#[derive(Clone, Debug, PartialEq, Eq)]
pub struct Tile {
    pub x0: u32,
    pub y0: u32,
    pub image: Image,
}

impl View for Tile {
    type V = TileView;

    open spec fn view(&self) -> TileView {
        TileView { x0: self.x0 as nat, y0: self.y0 as nat, raster: self.image@ }
    }
}

/// The models of the tiles in a list.
pub open spec fn tile_views(tiles: Seq<Tile>) -> Seq<TileView> {
    tiles.map_values(|t: Tile| t@)
}

/// Tile `i` of the grid `shape` laid over the raster `r`.
pub open spec fn grid_tile(r: Raster, shape: GridShape, i: int) -> TileView {
    TileView {
        x0: shape.origin_x(i) as nat,
        y0: shape.origin_y(i) as nat,
        raster: r.cropped(
            shape.origin_x(i) as nat,
            shape.origin_y(i) as nat,
            shape.tile_width as nat,
            shape.tile_height as nat,
        ),
    }
}

/// The tiles that a raster is cut into, in the order of their numbers.
pub open spec fn grid_tiles(r: Raster) -> Seq<TileView> {
    let shape = grid_shape_of(r.width as int, r.height as int);
    Seq::new(shape.tile_count() as nat, |i: int| grid_tile(r, shape, i))
}

/// A tile of the grid has the grid's tile size, holds the pixels of the
/// raster under it, and lies inside the raster.
pub proof fn lemma_grid_tile(r: Raster, shape: GridShape, i: int)
    requires
        r.wf(),
        shape.tiles_exactly(r.width as int, r.height as int),
        0 <= i < shape.tile_count(),
    ensures
        grid_tile(r, shape, i).raster.width == shape.tile_width,
        grid_tile(r, shape, i).raster.height == shape.tile_height,
        grid_tile(r, shape, i).fits(r.width, r.height),
        forall|x: int, y: int|
            0 <= x < shape.tile_width && 0 <= y < shape.tile_height ==> #[trigger] grid_tile(
                r,
                shape,
                i,
            ).raster.pixel(x, y) == r.pixel(shape.origin_x(i) + x, shape.origin_y(i) + y),
{
    let columns = shape.columns as int;
    let rows = shape.rows as int;
    lemma_grid_position(columns as nat, rows as nat, i);
    lemma_axis_parts(columns, shape.tile_width as int, i % columns, 0);
    lemma_axis_parts(rows, shape.tile_height as int, i / columns, 0);
    let tile = grid_tile(r, shape, i);
    assert forall|x: int, y: int| 0 <= x < shape.tile_width && 0 <= y < shape.tile_height implies
        #[trigger] tile.raster.pixel(x, y) == r.pixel(
        shape.origin_x(i) + x,
        shape.origin_y(i) + y,
    ) by {
        lemma_position_in_grid(shape.tile_width as nat, shape.tile_height as nat, x, y);
    }
}

/// The tiles that an image is cut into cover it exactly: every tile lies
/// inside the image, no position lies in two tiles, and every position of
/// the image lies in a tile. Each tile lies where the grid puts it and has
/// the grid's tile size.
pub proof fn lemma_grid_tiles_cover_exactly(r: Raster)
    requires
        r.wf(),
        1 <= r.width <= u32::MAX,
        1 <= r.height <= u32::MAX,
    ensures
        all_fit(r.width, r.height, grid_tiles(r)),
        pairwise_disjoint(grid_tiles(r)),
        cover_all(r.width, r.height, grid_tiles(r)),
        grid_tiles(r).len() == grid_shape_of(r.width as int, r.height as int).tile_count(),
        forall|i: int|
            0 <= i < grid_tiles(r).len() ==> {
                &&& (#[trigger] grid_tiles(r)[i]).x0 == grid_shape_of(
                    r.width as int,
                    r.height as int,
                ).origin_x(i)
                &&& grid_tiles(r)[i].y0 == grid_shape_of(r.width as int, r.height as int).origin_y(i)
                &&& grid_tiles(r)[i].raster.width == grid_shape_of(
                    r.width as int,
                    r.height as int,
                ).tile_width
                &&& grid_tiles(r)[i].raster.height == grid_shape_of(
                    r.width as int,
                    r.height as int,
                ).tile_height
            },
{
    let width = r.width as int;
    let height = r.height as int;
    let shape = grid_shape_of(width, height);
    let tiles = grid_tiles(r);
    lemma_grid_tiles_exactly(width, height);
    assert(shape.tile_count() >= 0) by (nonlinear_arith)
        requires
            shape.tile_count() == shape.columns * shape.rows,
    ;
    assert forall|i: int| 0 <= i < tiles.len() implies {
        &&& (#[trigger] tiles[i]).fits(r.width, r.height)
        &&& tiles[i].x0 == shape.origin_x(i)
        &&& tiles[i].y0 == shape.origin_y(i)
        &&& tiles[i].raster.width == shape.tile_width
        &&& tiles[i].raster.height == shape.tile_height
    } by {
        lemma_grid_tile(r, shape, i);
    }
    assert forall|i: int, j: int, x: int, y: int|
        0 <= i < tiles.len() && 0 <= j < tiles.len() && i != j implies !(#[trigger] tiles[i].covers(
        x,
        y,
    ) && #[trigger] tiles[j].covers(x, y)) by {
        if tiles[i].covers(x, y) && tiles[j].covers(x, y) {
            assert(shape.covers(i, x, y));
            assert(shape.covers(j, x, y));
            lemma_tile_covers(shape, width, height, i, x, y);
            lemma_tile_covers(shape, width, height, j, x, y);
        }
    }
    assert forall|x: int, y: int| 0 <= x < width && 0 <= y < height implies #[trigger] covered(
        tiles,
        x,
        y,
    ) by {
        lemma_tile_at(shape, width, height, x, y);
        let here = shape.tile_at(x, y);
        assert(tiles[here].covers(x, y));
    }
}

/// Cuts an image into the tiles of its grid.
pub fn partition(img: &Image) -> (tiles: Vec<Tile>)
    requires
        img@.width > 0,
        img@.height > 0,
    ensures
        tile_views(tiles@) == grid_tiles(img@),
        all_fit(img@.width, img@.height, tile_views(tiles@)),
        pairwise_disjoint(tile_views(tiles@)),
        cover_all(img@.width, img@.height, tile_views(tiles@)),
{
    let shape = grid_shape(img.width(), img.height());
    let mut tiles: Vec<Tile> = Vec::new();
    let mut row: u32 = 0;
    while row < shape.rows
        invariant
            row <= shape.rows,
            img@.width <= u32::MAX,
            img@.height <= u32::MAX,
            shape.tiles_exactly(img@.width as int, img@.height as int),
            tiles@.len() == row * shape.columns,
            forall|k: int|
                0 <= k < row * shape.columns ==> (#[trigger] tiles@[k])@ == grid_tile(img@, shape, k),
        decreases shape.rows - row,
    {
        let mut col: u32 = 0;
        while col < shape.columns
            invariant
                row < shape.rows,
                col <= shape.columns,
                img@.width <= u32::MAX,
                img@.height <= u32::MAX,
                shape.tiles_exactly(img@.width as int, img@.height as int),
                tiles@.len() == row * shape.columns + col,
                forall|k: int|
                    0 <= k < row * shape.columns + col ==> (#[trigger] tiles@[k])@ == grid_tile(
                        img@,
                        shape,
                        k,
                    ),
            decreases shape.columns - col,
        {
            proof {
                lemma_position_in_grid(
                    shape.columns as nat,
                    shape.rows as nat,
                    col as int,
                    row as int,
                );
                lemma_axis_parts(shape.columns as int, shape.tile_width as int, col as int, 0);
                lemma_axis_parts(shape.rows as int, shape.tile_height as int, row as int, 0);
            }
            let x0: u32 = col * shape.tile_width;
            let y0: u32 = row * shape.tile_height;
            let image = img.crop(x0, y0, shape.tile_width, shape.tile_height);
            tiles.push(Tile { x0, y0, image });
            col += 1;
        }
        assert(row * shape.columns + shape.columns == (row + 1) * shape.columns)
            by (nonlinear_arith);
        row += 1;
    }
    proof {
        assert(shape.rows * shape.columns == shape.columns * shape.rows) by (nonlinear_arith);
        assert(tile_views(tiles@) =~= grid_tiles(img@));
        lemma_grid_tiles_cover_exactly(img@);
    }
    tiles
}

} // verus!
