//! The classifier: every pixel is replaced by the palette colour nearest to
//! it.

use vstd::prelude::*;
use crate::colour::{squared_distance, squared_distance_of, Colour};
use crate::raster::{Image, Raster};

verus! {

/// Whether position `i` of the palette holds the colour that `pixel` is
/// mapped to: no palette colour is nearer to `pixel`, and every colour
/// declared earlier is strictly farther away. Among equally near colours the
/// one declared first is therefore chosen.
pub open spec fn is_closest(pixel: Colour, colours: Seq<Colour>, i: int) -> bool {
    &&& 0 <= i < colours.len()
    &&& forall|j: int|
        0 <= j < colours.len() ==> squared_distance(pixel, colours[i]) <= squared_distance(
            pixel,
            #[trigger] colours[j],
        )
    &&& forall|j: int|
        0 <= j < i ==> squared_distance(pixel, colours[i]) < squared_distance(
            pixel,
            #[trigger] colours[j],
        )
}

/// The position in a palette that is not empty of the colour that `pixel` is
/// mapped to.
pub open spec fn closest_index(pixel: Colour, colours: Seq<Colour>) -> int {
    choose|i: int| is_closest(pixel, colours, i)
}

/// The colour of a palette that is not empty that `pixel` is mapped to: the
/// nearest one.
pub open spec fn closest(pixel: Colour, colours: Seq<Colour>) -> Colour
    recommends
        colours.len() > 0,
{
    colours[closest_index(pixel, colours)]
}

/// The raster with every pixel mapped to its colour of a palette that is not
/// empty.
pub open spec fn classified(r: Raster, colours: Seq<Colour>) -> Raster
    recommends
        colours.len() > 0,
{
    Raster { pixels: Seq::new(r.pixels.len(), |i: int| closest(r.pixels[i], colours)), ..r }
}

/// At most one position of a palette satisfies [`is_closest`].
pub proof fn lemma_closest_unique(pixel: Colour, colours: Seq<Colour>, i: int, j: int)
    requires
        is_closest(pixel, colours, i),
        is_closest(pixel, colours, j),
    ensures
        i == j,
{
    if i < j {
        assert(squared_distance(pixel, colours[j]) < squared_distance(pixel, colours[i]));
        assert(squared_distance(pixel, colours[i]) <= squared_distance(pixel, colours[j]));
    } else if j < i {
        assert(squared_distance(pixel, colours[i]) < squared_distance(pixel, colours[j]));
        assert(squared_distance(pixel, colours[j]) <= squared_distance(pixel, colours[i]));
    }
}

/// Among the first `n` positions of a palette, some position holds a colour
/// that is as near to the pixel as every colour of those positions, and
/// strictly nearer than every colour before it.
proof fn lemma_closest_among(pixel: Colour, colours: Seq<Colour>, n: int) -> (i: int)
    requires
        1 <= n <= colours.len(),
    ensures
        0 <= i < n,
        forall|j: int|
            0 <= j < n ==> squared_distance(pixel, colours[i]) <= squared_distance(
                pixel,
                #[trigger] colours[j],
            ),
        forall|j: int|
            0 <= j < i ==> squared_distance(pixel, colours[i]) < squared_distance(
                pixel,
                #[trigger] colours[j],
            ),
    decreases n,
{
    if n == 1 {
        0
    } else {
        let before = lemma_closest_among(pixel, colours, n - 1);
        if squared_distance(pixel, colours[n - 1]) < squared_distance(pixel, colours[before]) {
            n - 1
        } else {
            before
        }
    }
}

/// In a palette that is not empty, [`closest_index`] satisfies [`is_closest`].
pub proof fn lemma_closest_index(pixel: Colour, colours: Seq<Colour>)
    requires
        colours.len() > 0,
    ensures
        is_closest(pixel, colours, closest_index(pixel, colours)),
{
    let i = lemma_closest_among(pixel, colours, colours.len() as int);
    assert(is_closest(pixel, colours, i));
}

/// The classifier answers with a colour of the palette, and no colour of the
/// palette is strictly nearer to the pixel than the answer. Distances are
/// compared by their squares, which order as the Euclidean distances do.
pub proof fn lemma_closest_is_nearest(pixel: Colour, colours: Seq<Colour>)
    requires
        colours.len() > 0,
    ensures
        colours.contains(closest(pixel, colours)),
        forall|c: Colour| #[trigger]
            colours.contains(c) ==> squared_distance(pixel, closest(pixel, colours))
                <= squared_distance(pixel, c),
{
    lemma_closest_index(pixel, colours);
    let i = closest_index(pixel, colours);
    assert(colours[i] == closest(pixel, colours));
    assert forall|c: Colour| #[trigger] colours.contains(c) implies squared_distance(
        pixel,
        closest(pixel, colours),
    ) <= squared_distance(pixel, c) by {
        let j = choose|j: int| 0 <= j < colours.len() && colours[j] == c;
        assert(squared_distance(pixel, colours[i]) <= squared_distance(pixel, colours[j]));
    }
}

/// Where several palette colours are equally near to the pixel, the
/// classifier answers with the one declared first: no colour declared before
/// the answer is as near as the answer.
pub proof fn lemma_closest_is_earliest(pixel: Colour, colours: Seq<Colour>, j: int)
    requires
        0 <= j < colours.len(),
        squared_distance(pixel, colours[j]) == squared_distance(pixel, closest(pixel, colours)),
    ensures
        closest_index(pixel, colours) <= j,
        0 <= closest_index(pixel, colours),
        closest(pixel, colours) == colours[closest_index(pixel, colours)],
{
    lemma_closest_index(pixel, colours);
    let i = closest_index(pixel, colours);
    if j < i {
        assert(squared_distance(pixel, colours[i]) < squared_distance(pixel, colours[j]));
    }
}

/// Two colours at distance zero are the same colour.
proof fn lemma_zero_distance(a: Colour, b: Colour)
    requires
        squared_distance(a, b) <= 0,
    ensures
        a == b,
{
    let dr = a.0 - b.0;
    let dg = a.1 - b.1;
    let db = a.2 - b.2;
    assert(dr * dr >= 0 && (dr != 0 ==> dr * dr > 0)) by (nonlinear_arith);
    assert(dg * dg >= 0 && (dg != 0 ==> dg * dg > 0)) by (nonlinear_arith);
    assert(db * db >= 0 && (db != 0 ==> db * db > 0)) by (nonlinear_arith);
}

/// A colour of the palette is mapped to itself.
pub proof fn lemma_closest_of_member(pixel: Colour, colours: Seq<Colour>)
    requires
        colours.contains(pixel),
    ensures
        closest(pixel, colours) == pixel,
{
    let k = choose|k: int| 0 <= k < colours.len() && colours[k] == pixel;
    lemma_closest_index(pixel, colours);
    let i = closest_index(pixel, colours);
    assert(squared_distance(pixel, colours[i]) <= squared_distance(pixel, colours[k]));
    lemma_zero_distance(pixel, colours[i]);
}

/// Classifying is idempotent: a raster made of palette colours alone comes
/// back unchanged.
pub proof fn lemma_classified_of_palette_raster(r: Raster, colours: Seq<Colour>)
    requires
        forall|i: int| 0 <= i < r.pixels.len() ==> colours.contains(#[trigger] r.pixels[i]),
    ensures
        classified(r, colours) == r,
{
    assert forall|i: int| 0 <= i < r.pixels.len() implies closest(r.pixels[i], colours)
        == #[trigger] r.pixels[i] by {
        lemma_closest_of_member(r.pixels[i], colours);
    }
    assert(classified(r, colours).pixels =~= r.pixels);
}

/// Classifying twice changes nothing that classifying once has not changed.
pub proof fn lemma_classified_twice(r: Raster, colours: Seq<Colour>)
    requires
        colours.len() > 0,
    ensures
        classified(classified(r, colours), colours) == classified(r, colours),
{
    let once = classified(r, colours);
    assert forall|i: int| 0 <= i < once.pixels.len() implies colours.contains(
        #[trigger] once.pixels[i],
    ) by {
        lemma_closest_is_nearest(r.pixels[i], colours);
    }
    lemma_classified_of_palette_raster(once, colours);
}

/// Maps `pixel` to the nearest colour of the palette. Of several colours that
/// are equally near, the one declared first is chosen. The palette must hold
/// a colour.
pub fn closest_colour(pixel: Colour, colours: &[Colour]) -> (nearest: Colour)
    requires
        colours@.len() > 0,
    ensures
        nearest == closest(pixel, colours@),
        is_closest(pixel, colours@, closest_index(pixel, colours@)),
{
    let mut best: usize = 0;
    let mut best_distance: u32 = squared_distance_of(pixel, colours[0]);
    let mut i: usize = 1;
    while i < colours.len()
        invariant
            0 <= best < i <= colours@.len(),
            best_distance == squared_distance(pixel, colours@[best as int]),
            forall|j: int|
                0 <= j < i ==> squared_distance(pixel, colours@[best as int]) <= squared_distance(
                    pixel,
                    #[trigger] colours@[j],
                ),
            forall|j: int|
                0 <= j < best ==> squared_distance(pixel, colours@[best as int])
                    < squared_distance(pixel, #[trigger] colours@[j]),
        decreases colours@.len() - i,
    {
        let distance: u32 = squared_distance_of(pixel, colours[i]);
        if distance < best_distance {
            best = i;
            best_distance = distance;
        }
        i += 1;
    }
    proof {
        assert(is_closest(pixel, colours@, best as int));
        lemma_closest_unique(pixel, colours@, best as int, closest_index(pixel, colours@));
    }
    colours[best]
}

/// Classifies every pixel of `chunk`. The palette must hold a colour.
pub fn processing_chunk(chunk: &Image, colours: &[Colour]) -> (processed: Image)
    requires
        colours@.len() > 0,
    ensures
        processed@ == classified(chunk@, colours@),
{
    let width: u32 = chunk.width();
    let height: u32 = chunk.height();
    let source = chunk.pixels();
    let mut pixels: Vec<Colour> = Vec::with_capacity(source.len());
    let mut i: usize = 0;
    while i < source.len()
        invariant
            i <= source@.len(),
            colours@.len() > 0,
            pixels@.len() == i,
            forall|k: int| 0 <= k < i ==> #[trigger] pixels@[k] == closest(source@[k], colours@),
        decreases source@.len() - i,
    {
        pixels.push(closest_colour(source[i], colours));
        i += 1;
    }
    assert(pixels@ =~= classified(chunk@, colours@).pixels);
    Image::new(width, height, pixels).unwrap()
}

} // verus!
