//! The colour of a pixel, decided by how fast its point escaped.

use vstd::prelude::*;

verus! {

/// One pixel: red, green and blue, eight bits each.
#[derive(Clone, Copy, Debug, PartialEq, Eq, Structural)]
pub struct Color {
    pub r: u8,
    pub g: u8,
    pub b: u8,
}

/// The colour of a point that never escaped.
pub open spec fn black() -> Color {
    Color { r: 0, g: 0, b: 0 }
}

/// `255 - value` in eight-bit arithmetic: only the low eight bits of the
/// escape count take part, so the difference never leaves `0..=255`.
pub open spec fn fade(value: u32) -> u8 {
    (255 - value % 256) as u8
}

/// The colour of a point that escaped at iteration `value`.
pub open spec fn value_color(value: u32) -> Color {
    if value <= 30 {
        Color { r: 50, g: 60, b: 50 }
    } else if value <= 90 {
        Color { r: fade(value), g: fade(value), b: 20 }
    } else if value <= 200 {
        Color { r: 40, g: fade(value), b: fade(value) }
    } else {
        Color { r: 10, g: 20, b: fade(value) }
    }
}

/// Maps an escape count to its colour.
///
/// Counts above 255 wrap: the subtraction is done on the low eight bits.
pub fn color_from_value(value: u32) -> (c: Color)
    ensures
        c == value_color(value),
{
    let low: u8 = (value % 256) as u8;
    let faded: u8 = 255 - low;
    if value <= 30 {
        Color { r: 50, g: 60, b: 50 }
    } else if value <= 90 {
        Color { r: faded, g: faded, b: 20 }
    } else if value <= 200 {
        Color { r: 40, g: faded, b: faded }
    } else {
        Color { r: 10, g: 20, b: faded }
    }
}

/// The five rules of the banding scheme.
#[derive(Clone, Copy, Debug, PartialEq, Eq, Structural)]
pub enum Band {
    /// The point did not escape within the limit.
    Inside,
    /// Escaped at a count of at most 30.
    Distant,
    /// Escaped at a count above 30 and at most 90.
    Outer,
    /// Escaped at a count above 90 and at most 200.
    Inner,
    /// Escaped at a count above 200.
    Edge,
}

/// Whether the condition of `band` holds of `result`.
pub open spec fn applies(band: Band, result: Option<u32>) -> bool {
    match band {
        Band::Inside => result is None,
        Band::Distant => result matches Some(value) && value <= 30,
        Band::Outer => result matches Some(value) && 30 < value <= 90,
        Band::Inner => result matches Some(value) && 90 < value <= 200,
        Band::Edge => result matches Some(value) && value > 200,
    }
}

/// The colour that the rule of `band` gives to `result`.
pub open spec fn band_color(band: Band, result: Option<u32>) -> Color {
    let value = result.unwrap_or(0);
    match band {
        Band::Inside => black(),
        Band::Distant => Color { r: 50, g: 60, b: 50 },
        Band::Outer => Color { r: fade(value), g: fade(value), b: 20 },
        Band::Inner => Color { r: 40, g: fade(value), b: fade(value) },
        Band::Edge => Color { r: 10, g: 20, b: fade(value) },
    }
}

/// The colour of an iteration result: black where the point did not
/// escape within the limit, otherwise the colour of its escape count.
pub open spec fn result_color(result: Option<u32>) -> Color {
    match result {
        None => black(),
        Some(value) => value_color(value),
    }
}

/// Maps an iteration result to its colour.
pub fn color_from_result(result: Option<u32>) -> (c: Color)
    ensures
        c == result_color(result),
{
    match result {
        None => Color { r: 0, g: 0, b: 0 },
        Some(value) => color_from_value(value),
    }
}

/// The bands leave no gap and do not overlap: of every iteration result
/// exactly one rule's condition holds, and the colour of the result is the
/// one which that rule gives.
pub proof fn lemma_exactly_one_band(result: Option<u32>)
    ensures
        exists|band: Band| #[trigger] applies(band, result),
        forall|one: Band, other: Band|
            #[trigger] applies(one, result) && #[trigger] applies(other, result) ==> one == other,
        forall|band: Band| #[trigger]
            applies(band, result) ==> result_color(result) == band_color(band, result),
{
    match result {
        None => {
            assert(applies(Band::Inside, result));
        },
        Some(value) => {
            if value <= 30 {
                assert(applies(Band::Distant, result));
            } else if value <= 90 {
                assert(applies(Band::Outer, result));
            } else if value <= 200 {
                assert(applies(Band::Inner, result));
            } else {
                assert(applies(Band::Edge, result));
            }
        },
    }
}

/// Within the limit of 255 iterations the eight-bit subtraction is the
/// plain one: no escape count wraps.
pub proof fn lemma_fade_within_limit(value: u32)
    requires
        value <= 255,
    ensures
        fade(value) == 255 - value,
{
}

} // verus!
