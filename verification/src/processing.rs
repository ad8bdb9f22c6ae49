//! The pipeline: an image is cut into tiles, every tile is classified and
//! then despeckled, and the tiles are put together again.

use vstd::prelude::*;
use crate::classify::{classified, processing_chunk};
use crate::colour::{black, Colour};
use crate::despeckle::{despeckled, post_process_chunk};
use crate::partition::{
    all_fit,
    grid_shape_of,
    grid_tile,
    grid_tiles,
    lemma_grid_tile,
    lemma_grid_tiles_exactly,
    lemma_grid_tiles_cover_exactly,
    lemma_tile_at,
    lemma_tile_covers,
    pairwise_disjoint,
    partition,
    tile_views,
    GridShape,
    Tile,
    TileView,
};
use crate::raster::{lemma_grid_position, lemma_position_in_grid, Image, Raster};

verus! {

/// What the two stages make of one raster: it is classified, and the result
/// is despeckled.
pub open spec fn processed_raster(r: Raster, palette: Seq<Colour>, noise: Seq<Colour>) -> Raster {
    despeckled(classified(r, palette), noise)
}

/// What the two stages make of one tile. The tile stays where it is.
pub open spec fn processed_tile(t: TileView, palette: Seq<Colour>, noise: Seq<Colour>) -> TileView {
    TileView { raster: processed_raster(t.raster, palette, noise), ..t }
}

/// The processed tiles of a raster's grid, in the order of their numbers.
pub open spec fn processed_tiles(r: Raster, palette: Seq<Colour>, noise: Seq<Colour>) -> Seq<
    TileView,
> {
    grid_tiles(r).map_values(|t: TileView| processed_tile(t, palette, noise))
}

/// What the pipeline makes of a raster: every pixel is taken from the tile
/// of the grid that it lies in, after that tile, on its own, has been
/// classified and despeckled.
pub open spec fn processed(r: Raster, palette: Seq<Colour>, noise: Seq<Colour>) -> Raster {
    let shape = grid_shape_of(r.width as int, r.height as int);
    Raster {
        width: r.width,
        height: r.height,
        pixels: Seq::new(
            r.width * r.height,
            |p: int|
                {
                    let x = p % (r.width as int);
                    let y = p / (r.width as int);
                    let tile = grid_tile(r, shape, shape.tile_at(x, y));
                    processed_raster(tile.raster, palette, noise).pixel(
                        x % (shape.tile_width as int),
                        y % (shape.tile_height as int),
                    )
                },
        ),
    }
}

/// The image put together from tiles: a black `width` by `height` canvas over
/// which the tiles are written one after the other, each at its own place.
pub open spec fn assembled(width: nat, height: nat, tiles: Seq<TileView>) -> Raster
    decreases tiles.len(),
{
    if tiles.len() == 0 {
        Raster::filled(width, height, black())
    } else {
        assembled(width, height, tiles.drop_last()).pasted(
            tiles.last().raster,
            tiles.last().x0,
            tiles.last().y0,
        )
    }
}

/// The number of the last tile of the list that covers `(x, y)`, or -1 where
/// none does.
pub open spec fn top_tile(tiles: Seq<TileView>, x: int, y: int) -> int
    decreases tiles.len(),
{
    if tiles.len() == 0 {
        -1
    } else if tiles.last().covers(x, y) {
        tiles.len() - 1
    } else {
        top_tile(tiles.drop_last(), x, y)
    }
}

/// Whether `order` names every number from 0 up to `n` exactly once.
pub open spec fn is_permutation(order: Seq<int>, n: nat) -> bool {
    &&& order.len() == n
    &&& forall|k: int| 0 <= k < n ==> 0 <= #[trigger] order[k] < n
    &&& forall|k: int, l: int| 0 <= k < n && 0 <= l < n && k != l ==> order[k] != order[l]
    &&& forall|i: int| 0 <= i < n ==> #[trigger] order.contains(i)
}

/// The tiles taken in the order that `order` names them.
pub open spec fn reordered(tiles: Seq<TileView>, order: Seq<int>) -> Seq<TileView> {
    Seq::new(order.len(), |k: int| tiles[order[k]])
}

/// The assembled image has the size of the canvas and is dense.
pub proof fn lemma_assembled_shape(width: nat, height: nat, tiles: Seq<TileView>)
    ensures
        assembled(width, height, tiles).width == width,
        assembled(width, height, tiles).height == height,
        assembled(width, height, tiles).wf(),
    decreases tiles.len(),
{
    if tiles.len() > 0 {
        lemma_assembled_shape(width, height, tiles.drop_last());
    }
}

/// What [`top_tile`] finds: a tile that covers the position, after which no
/// tile of the list covers it; or nothing, where no tile covers it.
pub proof fn lemma_top_tile(tiles: Seq<TileView>, x: int, y: int)
    ensures
        -1 <= top_tile(tiles, x, y) < tiles.len(),
        top_tile(tiles, x, y) >= 0 ==> tiles[top_tile(tiles, x, y)].covers(x, y),
        forall|j: int| top_tile(tiles, x, y) < j < tiles.len() ==> !(#[trigger] tiles[j]).covers(x, y),
    decreases tiles.len(),
{
    if tiles.len() > 0 && !tiles.last().covers(x, y) {
        let shorter = tiles.drop_last();
        lemma_top_tile(shorter, x, y);
        assert forall|j: int| top_tile(tiles, x, y) < j < tiles.len() implies !(#[trigger] tiles[j]).covers(
            x,
            y,
        ) by {
            if j < shorter.len() {
                assert(shorter[j] == tiles[j]);
            }
        }
    }
}

/// A pixel of the assembled image comes from the last tile that covers its
/// position, and is black where no tile does.
pub proof fn lemma_assembled_pixel(width: nat, height: nat, tiles: Seq<TileView>, x: int, y: int)
    requires
        0 <= x < width,
        0 <= y < height,
    ensures
        assembled(width, height, tiles).pixel(x, y) == if top_tile(tiles, x, y) < 0 {
            black()
        } else {
            tiles[top_tile(tiles, x, y)].raster.pixel(
                x - tiles[top_tile(tiles, x, y)].x0,
                y - tiles[top_tile(tiles, x, y)].y0,
            )
        },
    decreases tiles.len(),
{
    lemma_position_in_grid(width, height, x, y);
    if tiles.len() > 0 {
        let shorter = tiles.drop_last();
        lemma_assembled_shape(width, height, shorter);
        lemma_assembled_pixel(width, height, shorter, x, y);
        lemma_top_tile(shorter, x, y);
    }
}

/// Reassembly does not depend on the order of the tiles: where no two tiles
/// overlap, writing them in any order gives the same image.
pub proof fn lemma_reassembly_order(
    width: nat,
    height: nat,
    tiles: Seq<TileView>,
    order: Seq<int>,
)
    requires
        pairwise_disjoint(tiles),
        is_permutation(order, tiles.len()),
    ensures
        assembled(width, height, reordered(tiles, order)) == assembled(width, height, tiles),
{
    let shuffled = reordered(tiles, order);
    let a = assembled(width, height, shuffled);
    let b = assembled(width, height, tiles);
    lemma_assembled_shape(width, height, shuffled);
    lemma_assembled_shape(width, height, tiles);
    assert forall|p: int| 0 <= p < a.pixels.len() implies a.pixels[p] == b.pixels[p] by {
        lemma_grid_position(width, height, p);
        let x = p % (width as int);
        let y = p / (width as int);
        lemma_assembled_pixel(width, height, shuffled, x, y);
        lemma_assembled_pixel(width, height, tiles, x, y);
        lemma_top_tile(shuffled, x, y);
        lemma_top_tile(tiles, x, y);
        let s = top_tile(shuffled, x, y);
        let t = top_tile(tiles, x, y);
        if s >= 0 {
            assert(shuffled[s] == tiles[order[s]]);
            assert(tiles[order[s]].covers(x, y));
            assert(t >= 0);
            assert(tiles[t].covers(x, y));
            assert(order[s] == t);
        } else if t >= 0 {
            assert(order.contains(t));
            let k = choose|k: int| 0 <= k < order.len() && order[k] == t;
            assert(shuffled[k] == tiles[t]);
            assert(shuffled[k].covers(x, y));
        }
    }
    assert(a.pixels =~= b.pixels);
}

/// Whether the tiles lie on the grid: tile `i` at the place of number `i`,
/// with the grid's tile size.
pub open spec fn laid_out(tiles: Seq<TileView>, shape: GridShape) -> bool {
    &&& tiles.len() == shape.tile_count()
    &&& forall|i: int|
        0 <= i < tiles.len() ==> {
            &&& (#[trigger] tiles[i]).x0 == shape.origin_x(i)
            &&& tiles[i].y0 == shape.origin_y(i)
            &&& tiles[i].raster.width == shape.tile_width
            &&& tiles[i].raster.height == shape.tile_height
        }
}

/// Where the tiles lie on a grid that cuts the canvas without remainder,
/// every pixel of the assembled image comes from the tile of the grid that
/// its position lies in.
pub proof fn lemma_assembled_laid_out(
    width: nat,
    height: nat,
    tiles: Seq<TileView>,
    shape: GridShape,
    x: int,
    y: int,
)
    requires
        shape.tiles_exactly(width as int, height as int),
        laid_out(tiles, shape),
        0 <= x < width,
        0 <= y < height,
    ensures
        0 <= shape.tile_at(x, y) < tiles.len(),
        assembled(width, height, tiles).pixel(x, y) == tiles[shape.tile_at(x, y)].raster.pixel(
            x % (shape.tile_width as int),
            y % (shape.tile_height as int),
        ),
{
    lemma_assembled_pixel(width, height, tiles, x, y);
    lemma_top_tile(tiles, x, y);
    let here = shape.tile_at(x, y);
    lemma_tile_at(shape, width as int, height as int, x, y);
    assert(tiles[here].covers(x, y));
    let t = top_tile(tiles, x, y);
    assert(t >= 0);
    assert(shape.covers(t, x, y));
    lemma_tile_covers(shape, width as int, height as int, t, x, y);
}

/// The processed tiles of a grid lie inside the image and do not overlap.
pub proof fn lemma_processed_tiles_tile(r: Raster, palette: Seq<Colour>, noise: Seq<Colour>)
    requires
        r.wf(),
        1 <= r.width <= u32::MAX,
        1 <= r.height <= u32::MAX,
    ensures
        all_fit(r.width, r.height, processed_tiles(r, palette, noise)),
        pairwise_disjoint(processed_tiles(r, palette, noise)),
        laid_out(processed_tiles(r, palette, noise), grid_shape_of(r.width as int, r.height as int)),
{
    let shape = grid_shape_of(r.width as int, r.height as int);
    let plain = grid_tiles(r);
    let tiles = processed_tiles(r, palette, noise);
    lemma_grid_tiles_cover_exactly(r);
    assert forall|i: int| 0 <= i < tiles.len() implies (#[trigger] tiles[i]).fits(
        r.width,
        r.height,
    ) by {
        assert(plain[i].fits(r.width, r.height));
    }
    assert forall|i: int, j: int, x: int, y: int|
        0 <= i < tiles.len() && 0 <= j < tiles.len() && i != j implies !(#[trigger] tiles[i].covers(
        x,
        y,
    ) && #[trigger] tiles[j].covers(x, y)) by {
        assert(tiles[i].covers(x, y) == plain[i].covers(x, y));
        assert(tiles[j].covers(x, y) == plain[j].covers(x, y));
    }
    assert forall|i: int| 0 <= i < tiles.len() implies {
        &&& (#[trigger] tiles[i]).x0 == shape.origin_x(i)
        &&& tiles[i].y0 == shape.origin_y(i)
        &&& tiles[i].raster.width == shape.tile_width
        &&& tiles[i].raster.height == shape.tile_height
    } by {
        assert(plain[i].x0 == shape.origin_x(i));
    }
}

/// The tiles of an image, assembled untouched, give the image back.
pub proof fn lemma_assembled_partition(r: Raster)
    requires
        r.wf(),
        1 <= r.width <= u32::MAX,
        1 <= r.height <= u32::MAX,
    ensures
        assembled(r.width, r.height, grid_tiles(r)) == r,
{
    let shape = grid_shape_of(r.width as int, r.height as int);
    let tiles = grid_tiles(r);
    let a = assembled(r.width, r.height, tiles);
    lemma_grid_tiles_exactly(r.width as int, r.height as int);
    lemma_grid_tiles_cover_exactly(r);
    lemma_assembled_shape(r.width, r.height, tiles);
    assert forall|p: int| 0 <= p < a.pixels.len() implies a.pixels[p] == r.pixels[p] by {
        lemma_grid_position(r.width, r.height, p);
        let x = p % (r.width as int);
        let y = p / (r.width as int);
        lemma_assembled_laid_out(r.width, r.height, tiles, shape, x, y);
        let here = shape.tile_at(x, y);
        lemma_tile_at(shape, r.width as int, r.height as int, x, y);
        lemma_tile_covers(shape, r.width as int, r.height as int, here, x, y);
        lemma_grid_tile(r, shape, here);
        lemma_position_in_grid(r.width, r.height, x, y);
    }
    assert(a.pixels =~= r.pixels);
}

/// The processed tiles of a grid, assembled in the order of their numbers,
/// give the processed image.
pub proof fn lemma_assembled_grid(r: Raster, palette: Seq<Colour>, noise: Seq<Colour>)
    requires
        r.wf(),
        1 <= r.width <= u32::MAX,
        1 <= r.height <= u32::MAX,
    ensures
        assembled(r.width, r.height, processed_tiles(r, palette, noise)) == processed(
            r,
            palette,
            noise,
        ),
{
    let shape = grid_shape_of(r.width as int, r.height as int);
    let tiles = processed_tiles(r, palette, noise);
    let a = assembled(r.width, r.height, tiles);
    let b = processed(r, palette, noise);
    lemma_grid_tiles_exactly(r.width as int, r.height as int);
    lemma_processed_tiles_tile(r, palette, noise);
    lemma_assembled_shape(r.width, r.height, tiles);
    assert forall|p: int| 0 <= p < a.pixels.len() implies a.pixels[p] == b.pixels[p] by {
        lemma_grid_position(r.width, r.height, p);
        let x = p % (r.width as int);
        let y = p / (r.width as int);
        lemma_assembled_laid_out(r.width, r.height, tiles, shape, x, y);
    }
    assert(a.pixels =~= b.pixels);
}

/// Processing the tiles of an image in any order and writing each back at
/// its own place gives the processed image, whatever the order.
pub proof fn lemma_any_order_gives_processed(
    r: Raster,
    palette: Seq<Colour>,
    noise: Seq<Colour>,
    order: Seq<int>,
)
    requires
        r.wf(),
        1 <= r.width <= u32::MAX,
        1 <= r.height <= u32::MAX,
        is_permutation(order, processed_tiles(r, palette, noise).len()),
    ensures
        assembled(r.width, r.height, reordered(processed_tiles(r, palette, noise), order))
            == processed(r, palette, noise),
{
    lemma_processed_tiles_tile(r, palette, noise);
    lemma_reassembly_order(r.width, r.height, processed_tiles(r, palette, noise), order);
    lemma_assembled_grid(r, palette, noise);
}

/// Classifies and then despeckles one tile. The palette and the set of noise
/// colours must each hold a colour.
pub fn process_tile(tile: &Tile, colours: &[Colour], indesirables: &[Colour]) -> (done: Tile)
    requires
        colours@.len() > 0,
        indesirables@.len() > 0,
    ensures
        done@ == processed_tile(tile@, colours@, indesirables@),
{
    let classified_chunk = processing_chunk(&tile.image, colours);
    let image = post_process_chunk(&classified_chunk, indesirables);
    Tile { x0: tile.x0, y0: tile.y0, image }
}

/// Puts tiles together into a `width` by `height` image: each tile is written
/// at its own place over a black canvas, in the order of the list. There is
/// no such image where a tile reaches beyond the canvas, or where the canvas
/// has more pixels than can be addressed.
pub fn reassemble(width: u32, height: u32, tiles: &Vec<Tile>) -> (whole: Option<Image>)
    ensures
        whole is Some <==> width * height <= usize::MAX && all_fit(
            width as nat,
            height as nat,
            tile_views(tiles@),
        ),
        whole is Some ==> whole->0@ == assembled(width as nat, height as nat, tile_views(tiles@)),
        whole is Some ==> whole->0@.width == width && whole->0@.height == height,
{
    assert(width * height <= u64::MAX) by (nonlinear_arith)
        requires
            width <= u32::MAX,
            height <= u32::MAX,
    ;
    if width as u64 * height as u64 > usize::MAX as u64 {
        return None;
    }
    let ghost views = tile_views(tiles@);
    let mut canvas = Image::filled(width, height, (0, 0, 0));
    let mut i: usize = 0;
    while i < tiles.len()
        invariant
            i <= tiles@.len(),
            views == tile_views(tiles@),
            width * height <= usize::MAX,
            canvas@ == assembled(width as nat, height as nat, views.take(i as int)),
            forall|k: int| 0 <= k < i ==> (#[trigger] views[k]).fits(width as nat, height as nat),
        decreases tiles@.len() - i,
    {
        let tile = &tiles[i];
        let tile_width: u32 = tile.image.width();
        let tile_height: u32 = tile.image.height();
        assert(views[i as int] == tile@);
        if tile.x0 as u64 + tile_width as u64 > width as u64 || tile.y0 as u64 + tile_height as u64
            > height as u64 {
            assert(!views[i as int].fits(width as nat, height as nat));
            return None;
        }
        proof {
            lemma_assembled_shape(width as nat, height as nat, views.take(i as int));
            assert(views.take(i + 1).drop_last() =~= views.take(i as int));
        }
        canvas.paste(&tile.image, tile.x0, tile.y0);
        i += 1;
    }
    proof {
        assert(views.take(tiles@.len() as int) =~= views);
        lemma_assembled_shape(width as nat, height as nat, views);
    }
    Some(canvas)
}

/// Why an image cannot be processed.
#[derive(Clone, Copy, Debug, PartialEq, Eq, Structural)]
pub enum ProcessingError {
    /// The palette holds no colour to classify to.
    EmptyPalette,
    /// The set of noise colours is empty.
    EmptyNoiseSet,
    /// The image has no columns.
    ZeroWidth,
    /// The image has no rows.
    ZeroHeight,
}

/// The two kinds of failure: a configuration that cannot be used, and an
/// image that cannot be cut into tiles.
#[derive(Clone, Copy, Debug, PartialEq, Eq, Structural)]
pub enum ErrorKind {
    /// The palette or the noise set cannot be used.
    Structure,
    /// The image cannot be cut into tiles.
    Geometry,
}

impl ProcessingError {
    /// The kind of failure this is.
    pub open spec fn kind_of(self) -> ErrorKind {
        match self {
            ProcessingError::EmptyPalette | ProcessingError::EmptyNoiseSet => ErrorKind::Structure,
            ProcessingError::ZeroWidth | ProcessingError::ZeroHeight => ErrorKind::Geometry,
        }
    }

    /// The text that reports this error.
    pub open spec fn message_of(self) -> Seq<char> {
        match self {
            ProcessingError::EmptyPalette => "the palette holds no colour"@,
            ProcessingError::EmptyNoiseSet => "the set of noise colours is empty"@,
            ProcessingError::ZeroWidth => "the image has no columns"@,
            ProcessingError::ZeroHeight => "the image has no rows"@,
        }
    }

    /// Tells which kind of failure this is.
    pub fn kind(&self) -> (kind: ErrorKind)
        ensures
            kind == self.kind_of(),
    {
        match self {
            ProcessingError::EmptyPalette | ProcessingError::EmptyNoiseSet => ErrorKind::Structure,
            ProcessingError::ZeroWidth | ProcessingError::ZeroHeight => ErrorKind::Geometry,
        }
    }

    /// Says what went wrong, in words that name the empty set or the missing
    /// dimension.
    pub fn message(&self) -> (text: &'static str)
        ensures
            text@ == self.message_of(),
    {
        match self {
            ProcessingError::EmptyPalette => "the palette holds no colour",
            ProcessingError::EmptyNoiseSet => "the set of noise colours is empty",
            ProcessingError::ZeroWidth => "the image has no columns",
            ProcessingError::ZeroHeight => "the image has no rows",
        }
    }
}

/// The reason for which an image with this configuration is turned away, if
/// there is one. The configuration is looked at first, then the image.
pub open spec fn rejection(r: Raster, palette: Seq<Colour>, noise: Seq<Colour>) -> Option<
    ProcessingError,
> {
    if palette.len() == 0 {
        Some(ProcessingError::EmptyPalette)
    } else if noise.len() == 0 {
        Some(ProcessingError::EmptyNoiseSet)
    } else if r.width == 0 {
        Some(ProcessingError::ZeroWidth)
    } else if r.height == 0 {
        Some(ProcessingError::ZeroHeight)
    } else {
        None
    }
}

/// Decides whether an image with this configuration can be processed.
pub fn check_inputs(img: &Image, colours: &[Colour], indesirables: &[Colour]) -> (verdict: Result<
    (),
    ProcessingError,
>)
    ensures
        verdict is Ok <==> rejection(img@, colours@, indesirables@) is None,
        verdict is Err ==> Some(verdict->Err_0) == rejection(img@, colours@, indesirables@),
{
    if colours.len() == 0 {
        Err(ProcessingError::EmptyPalette)
    } else if indesirables.len() == 0 {
        Err(ProcessingError::EmptyNoiseSet)
    } else if img.width() == 0 {
        Err(ProcessingError::ZeroWidth)
    } else if img.height() == 0 {
        Err(ProcessingError::ZeroHeight)
    } else {
        Ok(())
    }
}

/// Runs the whole pipeline on one image: the image is cut into tiles, each
/// tile is classified and despeckled on its own, and the tiles are put
/// together again. The result has the size of the image.
pub fn process_image(img: &Image, colours: &[Colour], indesirables: &[Colour]) -> (result: Result<
    Image,
    ProcessingError,
>)
    ensures
        result is Ok <==> rejection(img@, colours@, indesirables@) is None,
        result is Err ==> Some(result->Err_0) == rejection(img@, colours@, indesirables@),
        result is Ok ==> result->Ok_0@ == processed(img@, colours@, indesirables@),
        result is Ok ==> result->Ok_0@.width == img@.width && result->Ok_0@.height == img@.height,
{
    match check_inputs(img, colours, indesirables) {
        Err(reason) => {
            return Err(reason);
        },
        Ok(()) => {},
    }
    let width: u32 = img.width();
    let height: u32 = img.height();
    let stored: usize = img.pixels().len();
    let tiles = partition(img);
    let mut done: Vec<Tile> = Vec::with_capacity(tiles.len());
    let mut i: usize = 0;
    while i < tiles.len()
        invariant
            i <= tiles@.len(),
            colours@.len() > 0,
            indesirables@.len() > 0,
            done@.len() == i,
            forall|k: int|
                0 <= k < i ==> (#[trigger] done@[k])@ == processed_tile(
                    tiles@[k]@,
                    colours@,
                    indesirables@,
                ),
        decreases tiles@.len() - i,
    {
        done.push(process_tile(&tiles[i], colours, indesirables));
        i += 1;
    }
    proof {
        assert forall|k: int| 0 <= k < tiles@.len() implies grid_tiles(img@)[k] == tiles@[k]@ by {
            assert(tile_views(tiles@)[k] == tiles@[k]@);
        }
        assert(tile_views(done@) =~= processed_tiles(img@, colours@, indesirables@));
        lemma_processed_tiles_tile(img@, colours@, indesirables@);
        lemma_assembled_grid(img@, colours@, indesirables@);
    }
    let whole = reassemble(width, height, &done);
    Ok(whole.unwrap())
}

/// What became of one source of a batch.
#[derive(Clone, Debug, PartialEq, Eq)]
pub enum Outcome {
    /// The image was processed; here is the result.
    Processed(Image),
    /// The image was turned away, for this reason.
    Rejected(ProcessingError),
    /// The host could not decode the source, so there was no image.
    Unreadable,
}

/// Whether `outcome` is what a batch owes for `source`, whatever the other
/// sources of the batch are.
pub open spec fn is_outcome_of(
    source: Option<Image>,
    outcome: Outcome,
    palette: Seq<Colour>,
    noise: Seq<Colour>,
) -> bool {
    match source {
        None => outcome is Unreadable,
        Some(img) => match rejection(img@, palette, noise) {
            Some(reason) => outcome is Rejected && outcome->Rejected_0 == reason,
            None => outcome is Processed && outcome->Processed_0@ == processed(
                img@,
                palette,
                noise,
            ),
        },
    }
}

/// Processes a batch. Every source is an image, or nothing where the host
/// could not decode it. Each source gets its own outcome, at its own place
/// in the answer; a source that fails does not keep the others from being
/// processed.
pub fn process_batch(
    sources: &Vec<Option<Image>>,
    colours: &[Colour],
    indesirables: &[Colour],
) -> (outcomes: Vec<Outcome>)
    ensures
        outcomes@.len() == sources@.len(),
        forall|i: int|
            0 <= i < sources@.len() ==> is_outcome_of(
                sources@[i],
                #[trigger] outcomes@[i],
                colours@,
                indesirables@,
            ),
{
    let mut outcomes: Vec<Outcome> = Vec::with_capacity(sources.len());
    let mut i: usize = 0;
    while i < sources.len()
        invariant
            i <= sources@.len(),
            outcomes@.len() == i,
            forall|k: int|
                0 <= k < i ==> is_outcome_of(
                    sources@[k],
                    #[trigger] outcomes@[k],
                    colours@,
                    indesirables@,
                ),
        decreases sources@.len() - i,
    {
        let outcome = match &sources[i] {
            None => Outcome::Unreadable,
            Some(img) => match process_image(img, colours, indesirables) {
                Ok(whole) => Outcome::Processed(whole),
                Err(reason) => Outcome::Rejected(reason),
            },
        };
        outcomes.push(outcome);
        i += 1;
    }
    outcomes
}

} // verus!
