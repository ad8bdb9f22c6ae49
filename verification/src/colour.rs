//! RGB colours and the distance by which they are compared.

use vstd::prelude::*;

verus! {

/// An opaque RGB colour: red, green and blue, each from 0 to 255.
pub type Colour = (u8, u8, u8);

/// The colour emitted where no better answer exists.
pub open spec fn black() -> Colour {
    (0u8, 0u8, 0u8)
}

/// The square of the Euclidean distance between two colours in RGB space.
///
/// For non-negative numbers `a < b` holds exactly when `a * a < b * b`, so two
/// colours compare by their Euclidean distance to a third exactly as they
/// compare by this square; working with the square keeps every comparison in
/// the integers.
pub open spec fn squared_distance(a: Colour, b: Colour) -> int {
    (a.0 - b.0) * (a.0 - b.0) + (a.1 - b.1) * (a.1 - b.1) + (a.2 - b.2) * (a.2 - b.2)
}

/// The square of the distance between two channel values.
fn channel_gap(a: u8, b: u8) -> (d: u32)
    ensures
        d == (a - b) * (a - b),
        d <= 65025,
{
    let wide_a: u32 = a as u32;
    let wide_b: u32 = b as u32;
    let gap: u32 = if wide_a >= wide_b { wide_a - wide_b } else { wide_b - wide_a };
    assert(gap * gap <= 65025) by (nonlinear_arith)
        requires gap <= 255;
    assert(gap * gap == (a - b) * (a - b)) by (nonlinear_arith)
        requires gap == a - b || gap == b - a;
    gap * gap
}

/// Computes [`squared_distance`].
pub fn squared_distance_of(a: Colour, b: Colour) -> (d: u32)
    ensures
        d == squared_distance(a, b),
        d <= 195075,
{
    channel_gap(a.0, b.0) + channel_gap(a.1, b.1) + channel_gap(a.2, b.2)
}

/// Whether two colours are the same colour.
pub fn same_colour(a: Colour, b: Colour) -> (same: bool)
    ensures
        same == (a == b),
{
    a.0 == b.0 && a.1 == b.1 && a.2 == b.2
}

/// Whether `colour` is one of `colours`.
pub fn contains_colour(colours: &[Colour], colour: Colour) -> (found: bool)
    ensures
        found == colours@.contains(colour),
{
    let mut i: usize = 0;
    while i < colours.len()
        invariant
            i <= colours@.len(),
            forall|k: int| 0 <= k < i ==> colours@[k] != colour,
        decreases colours@.len() - i,
    {
        if same_colour(colours[i], colour) {
            return true;
        }
        i += 1;
    }
    false
}

} // verus!
