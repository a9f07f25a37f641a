//! Filling a pixel buffer, row by row, from a rectangle of the plane.

use vstd::prelude::*;
use crate::color::{Color, color_from_result, result_color};
use crate::encode::rgb_bytes;

verus! {

/// The number of iterations after which a point counts as not escaping.
/// The banding of the colours is laid out for this limit.
pub const ITERATION_LIMIT: u32 = 255;

/// The number of pixels of an image of the given bounds, where a buffer of
/// that many pixels can be addressed at all.
pub fn pixel_count(bounds: (usize, usize)) -> (r: Option<usize>)
    ensures
        match r {
            Some(count) => count == bounds.0 * bounds.1,
            None => bounds.0 * bounds.1 > usize::MAX,
        },
{
    bounds.0.checked_mul(bounds.1)
}

/// Where pixel `(x, y)` lies in a row-major buffer of the given width.
pub open spec fn linear_index(width: usize, x: usize, y: usize) -> int {
    y * width + x
}

/// `color` is a colour that the pipeline may give to `pixel`: the colour of
/// a result of `evaluator`, at the fixed limit, for a point that `mapper`
/// returns for the pixel.
pub open spec fn pixel_rendered<P, M, E>(
    mapper: M,
    evaluator: E,
    bounds: (usize, usize),
    pixel: (usize, usize),
    upper_left: P,
    lower_right: P,
    color: Color,
) -> bool where M: Fn((usize, usize), (usize, usize), P, P) -> P, E: Fn(P, u32) -> Option<u32> {
    exists|point: P, result: Option<u32>|
        {
            &&& mapper.ensures((bounds, pixel, upper_left, lower_right), point)
            &&& #[trigger] evaluator.ensures((point, ITERATION_LIMIT), result)
            &&& color == result_color(result)
        }
}

/// Every pixel inside `bounds` holds, at its row-major index, a colour that
/// the pipeline may give it.
pub open spec fn rendered<P, M, E>(
    pixels: Seq<Color>,
    bounds: (usize, usize),
    upper_left: P,
    lower_right: P,
    mapper: M,
    evaluator: E,
) -> bool where M: Fn((usize, usize), (usize, usize), P, P) -> P, E: Fn(P, u32) -> Option<u32> {
    forall|x: usize, y: usize|
        x < bounds.0 && y < bounds.1 ==> pixel_rendered(
            mapper,
            evaluator,
            bounds,
            (x, y),
            upper_left,
            lower_right,
            pixels[#[trigger] linear_index(bounds.0, x, y)],
        )
}

/// Inside a `width` by `height` grid the row-major index of `(x, y)` stays
/// below `width * height`, and below the index of any pixel of a later row.
pub proof fn lemma_linear_index_bounds(width: usize, height: usize, x: usize, y: usize)
    requires
        x < width,
        y < height,
    ensures
        0 <= linear_index(width, x, y) < width * height,
        y * width <= linear_index(width, x, y) < (y + 1) * width,
        (y + 1) * width <= width * height,
{
    assert((y + 1) * width <= height * width) by (nonlinear_arith)
        requires
            y + 1 <= height,
    ;
    assert((y + 1) * width == y * width + width) by (nonlinear_arith);
    assert(height * width == width * height) by (nonlinear_arith);
}

/// Two pixels of one grid share a row-major index only if they are the
/// same pixel.
pub proof fn lemma_linear_index_injective(
    width: usize,
    x1: usize,
    y1: usize,
    x2: usize,
    y2: usize,
)
    requires
        x1 < width,
        x2 < width,
        linear_index(width, x1, y1) == linear_index(width, x2, y2),
    ensures
        x1 == x2,
        y1 == y2,
{
    if y1 < y2 {
        assert((y1 + 1) * width <= y2 * width) by (nonlinear_arith)
            requires
                y1 + 1 <= y2,
        ;
        assert((y1 + 1) * width == y1 * width + width) by (nonlinear_arith);
    } else if y2 < y1 {
        assert((y2 + 1) * width <= y1 * width) by (nonlinear_arith)
            requires
                y2 + 1 <= y1,
        ;
        assert((y2 + 1) * width == y2 * width + width) by (nonlinear_arith);
    }
}

/// Every index of a `width` by `height` buffer is the row-major index of
/// one pixel of the grid: column `index % width` of row `index / width`.
pub proof fn lemma_linear_index_onto(width: usize, height: usize, index: int)
    requires
        0 <= index < width * height,
    ensures
        width > 0,
        0 <= index % (width as int) < width,
        0 <= index / (width as int) < height,
        linear_index(width, (index % (width as int)) as usize, (index / (width as int)) as usize)
            == index,
{
    assert(width > 0) by (nonlinear_arith)
        requires
            0 <= index < width * height,
    ;
    let w = width as int;
    vstd::arithmetic::div_mod::lemma_fundamental_div_mod(index, w);
    vstd::arithmetic::div_mod::lemma_mod_bound(index, w);
    assert(0 <= index / w < height) by (nonlinear_arith)
        requires
            0 <= index < w * height,
            w > 0,
            index == w * (index / w) + index % w,
            0 <= index % w < w,
    ;
    assert(w * (index / w) == (index / w) * w) by (nonlinear_arith);
}

/// `mapper` and `evaluator` are functions of their arguments: each
/// returns one result for one argument, with nothing hidden that could
/// change between two calls.
pub open spec fn is_pure<P, M, E>(mapper: M, evaluator: E) -> bool where
    M: Fn((usize, usize), (usize, usize), P, P) -> P,
    E: Fn(P, u32) -> Option<u32>,
{
    &&& forall|args: ((usize, usize), (usize, usize), P, P), a: P, b: P|
        #[trigger] mapper.ensures(args, a) && #[trigger] mapper.ensures(args, b) ==> a == b
    &&& forall|args: (P, u32), a: Option<u32>, b: Option<u32>|
        #[trigger] evaluator.ensures(args, a) && #[trigger] evaluator.ensures(args, b) ==> a
            == b
}

/// Rendering is repeatable: with a pure mapper and evaluator, two buffers
/// rendered for the same bounds and rectangle hold the same pixels, and
/// so the same bytes.
pub proof fn lemma_render_repeatable<P, M, E>(
    first: Seq<Color>,
    second: Seq<Color>,
    bounds: (usize, usize),
    upper_left: P,
    lower_right: P,
    mapper: M,
    evaluator: E,
) where M: Fn((usize, usize), (usize, usize), P, P) -> P, E: Fn(P, u32) -> Option<u32>
    requires
        is_pure(mapper, evaluator),
        first.len() == bounds.0 * bounds.1,
        second.len() == bounds.0 * bounds.1,
        rendered(first, bounds, upper_left, lower_right, mapper, evaluator),
        rendered(second, bounds, upper_left, lower_right, mapper, evaluator),
    ensures
        first == second,
        rgb_bytes(first) == rgb_bytes(second),
{
    assert forall|index: int| 0 <= index < first.len() implies first[index] == second[index] by {
        lemma_linear_index_onto(bounds.0, bounds.1, index);
        let x = (index % (bounds.0 as int)) as usize;
        let y = (index / (bounds.0 as int)) as usize;
        assert(linear_index(bounds.0, x, y) == index);
        assert(pixel_rendered(
            mapper,
            evaluator,
            bounds,
            (x, y),
            upper_left,
            lower_right,
            first[index],
        ));
        assert(pixel_rendered(
            mapper,
            evaluator,
            bounds,
            (x, y),
            upper_left,
            lower_right,
            second[index],
        ));
    }
    assert(first =~= second);
}

/// Renders the rectangle between `upper_left` and `lower_right` into
/// `pixels`, a row-major buffer of `bounds.0` by `bounds.1` pixels.
///
/// For each pixel, top row first and left to right within a row,
/// `pixel_to_point` gives the point of the plane, `mandelbrot` gives its
/// iteration result at `ITERATION_LIMIT`, and the colour of that result is
/// stored at index `y * width + x`.
///
/// The buffer has to hold exactly `width * height` pixels. Bounds with a
/// zero in them have no pixel, and nothing is asked of the two functions.
#[verifier::loop_isolation(false)]
pub fn render<P: Copy, M, E>(
    pixels: &mut [Color],
    bounds: (usize, usize),
    upper_left: P,
    lower_right: P,
    pixel_to_point: M,
    mandelbrot: E,
) where M: Fn((usize, usize), (usize, usize), P, P) -> P, E: Fn(P, u32) -> Option<u32>
    requires
        old(pixels)@.len() == bounds.0 * bounds.1,
        forall|x: usize, y: usize|
            x < bounds.0 && y < bounds.1 ==> #[trigger] pixel_to_point.requires(
                (bounds, (x, y), upper_left, lower_right),
            ),
        forall|pixel: (usize, usize), point: P|
            #[trigger] pixel_to_point.ensures((bounds, pixel, upper_left, lower_right), point)
                ==> mandelbrot.requires((point, ITERATION_LIMIT)),
    ensures
        final(pixels)@.len() == old(pixels)@.len(),
        rendered(final(pixels)@, bounds, upper_left, lower_right, pixel_to_point, mandelbrot),
{
    let (width, height) = bounds;
    let count: usize = pixels.len();
    for y in 0..height
        invariant
            pixels@.len() == count,
            forall|px: usize, py: usize|
                px < width && py < y ==> pixel_rendered(
                    pixel_to_point,
                    mandelbrot,
                    bounds,
                    (px, py),
                    upper_left,
                    lower_right,
                    pixels@[#[trigger] linear_index(width, px, py)],
                ),
    {
        for x in 0..width
            invariant
                pixels@.len() == count,
                forall|px: usize, py: usize|
                    px < width && (py < y || (py == y && px < x)) ==> pixel_rendered(
                        pixel_to_point,
                        mandelbrot,
                        bounds,
                        (px, py),
                        upper_left,
                        lower_right,
                        pixels@[#[trigger] linear_index(width, px, py)],
                    ),
        {
            proof {
                lemma_linear_index_bounds(width, height, x, y);
            }
            let point = pixel_to_point(bounds, (x, y), upper_left, lower_right);
            let result = mandelbrot(point, ITERATION_LIMIT);
            let ghost before = pixels@;
            pixels[y * width + x] = color_from_result(result);
            proof {
                assert forall|px: usize, py: usize|
                    px < width && (py < y || (py == y && px < x + 1)) implies pixel_rendered(
                    pixel_to_point,
                    mandelbrot,
                    bounds,
                    (px, py),
                    upper_left,
                    lower_right,
                    pixels@[#[trigger] linear_index(width, px, py)],
                ) by {
                    if px != x || py != y {
                        if linear_index(width, px, py) == linear_index(width, x, y) {
                            lemma_linear_index_injective(width, px, py, x, y);
                        }
                        lemma_linear_index_bounds(width, height, px, py);
                        assert(pixels@[linear_index(width, px, py)] == before[linear_index(
                            width,
                            px,
                            py,
                        )]);
                    }
                }
            }
        }
    }
}

} // verus!
