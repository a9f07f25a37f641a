use mandelbrot::color::{color_from_result, color_from_value, Color};
use mandelbrot::encode::colors_to_u8s;
use mandelbrot::escape::escape_time;
use mandelbrot::render::{pixel_count, render, ITERATION_LIMIT};
use num::Complex;

const BLACK: Color = Color { r: 0, g: 0, b: 0 };
const FLAT: Color = Color { r: 50, g: 60, b: 50 };

/// The mapping from pixels to the plane that the program hands to `render`.
fn pixel_to_point(
    bounds: (usize, usize),
    pixel: (usize, usize),
    upper_left: Complex<f64>,
    lower_right: Complex<f64>,
) -> Complex<f64> {
    let (width, height) = (
        lower_right.re - upper_left.re,
        upper_left.im - lower_right.im,
    );
    Complex {
        re: upper_left.re + pixel.0 as f64 * width / bounds.0 as f64,
        im: upper_left.im - pixel.1 as f64 * height / bounds.1 as f64,
    }
}

/// The Mandelbrot iteration on doubles, handed to the library's loop.
fn mandelbrot(c: Complex<f64>, limit: u32) -> Option<u32> {
    escape_time(
        Complex { re: 0.0, im: 0.0 },
        limit,
        |z: Complex<f64>| z * z + c,
        |z: &Complex<f64>| z.norm_sqr() > 4.0,
    )
}

fn render_mandelbrot(
    bounds: (usize, usize),
    upper_left: Complex<f64>,
    lower_right: Complex<f64>,
) -> Vec<Color> {
    let mut pixels = vec![Color { r: 1, g: 2, b: 3 }; bounds.0 * bounds.1];
    render(
        &mut pixels,
        bounds,
        upper_left,
        lower_right,
        pixel_to_point,
        mandelbrot,
    );
    pixels
}

#[test]
fn one_pixel_at_the_origin_is_black() {
    let origin = Complex { re: 0.0, im: 0.0 };
    let pixels = render_mandelbrot((1, 1), origin, origin);
    assert_eq!(pixels, vec![BLACK]);
    assert_eq!(colors_to_u8s(&pixels), vec![0u8, 0, 0]);
}

#[test]
fn mapping_sends_the_first_pixel_to_the_upper_left() {
    let upper_left = Complex { re: -1.2, im: 0.35 };
    let lower_right = Complex { re: -1.0, im: 0.2 };
    for bounds in [(1usize, 1usize), (3, 7), (800, 600)] {
        assert_eq!(
            pixel_to_point(bounds, (0, 0), upper_left, lower_right),
            upper_left
        );
    }
}

#[test]
fn mapping_example() {
    assert_eq!(
        pixel_to_point(
            (100, 100),
            (25, 75),
            Complex { re: -1.0, im: 1.0 },
            Complex { re: 1.0, im: -1.0 }
        ),
        Complex { re: -0.5, im: -0.5 }
    );
}

#[test]
fn small_image_of_the_set() {
    let pixels = render_mandelbrot(
        (4, 3),
        Complex { re: -2.0, im: 1.0 },
        Complex { re: 1.0, im: -1.0 },
    );
    let expected = vec![
        FLAT, FLAT, FLAT, FLAT, //
        FLAT, FLAT, BLACK, BLACK, //
        FLAT, FLAT, BLACK, BLACK,
    ];
    assert_eq!(pixels, expected);
}

#[test]
fn rendering_twice_gives_the_same_bytes() {
    let upper_left = Complex { re: -1.2, im: 0.35 };
    let lower_right = Complex { re: -1.0, im: 0.2 };
    let first = render_mandelbrot((40, 30), upper_left, lower_right);
    let second = render_mandelbrot((40, 30), upper_left, lower_right);
    assert_eq!(first, second);
    assert_eq!(colors_to_u8s(&first), colors_to_u8s(&second));
    assert_eq!(colors_to_u8s(&first).len(), 40 * 30 * 3);
}

#[test]
fn pixels_are_stored_row_by_row() {
    let bounds = (5usize, 3usize);
    let mut pixels = vec![BLACK; 15];
    render(
        &mut pixels,
        bounds,
        0u32,
        0u32,
        |_bounds: (usize, usize), pixel: (usize, usize), _ul: u32, _lr: u32| {
            (pixel.1 * 50 + pixel.0) as u32
        },
        |point: u32, _limit: u32| Some(point),
    );
    for y in 0..3usize {
        for x in 0..5usize {
            assert_eq!(
                pixels[y * 5 + x],
                color_from_value((y * 50 + x) as u32),
                "pixel ({x}, {y})"
            );
        }
    }
    assert_eq!(pixels[0], FLAT);
    assert_eq!(pixels[5], Color { r: 205, g: 205, b: 20 });
    assert_eq!(pixels[14], Color { r: 40, g: 151, b: 151 });
}

#[test]
fn render_hands_on_bounds_rectangle_and_limit() {
    let bounds = (2usize, 2usize);
    let mut pixels = vec![BLACK; 4];
    render(
        &mut pixels,
        bounds,
        7u32,
        9u32,
        |bounds: (usize, usize), _pixel: (usize, usize), ul: u32, lr: u32| {
            assert_eq!(bounds, (2, 2));
            assert_eq!((ul, lr), (7, 9));
            ul + lr
        },
        |point: u32, limit: u32| {
            assert_eq!(point, 16);
            Some(limit)
        },
    );
    assert_eq!(ITERATION_LIMIT, 255);
    assert_eq!(pixels, vec![color_from_value(255); 4]);
    assert_eq!(pixels[0], Color { r: 10, g: 20, b: 0 });
}

#[test]
fn render_overwrites_every_pixel() {
    let mut pixels = vec![Color { r: 9, g: 9, b: 9 }; 6];
    render(
        &mut pixels,
        (3, 2),
        (),
        (),
        |_bounds: (usize, usize), _pixel: (usize, usize), _ul: (), _lr: ()| (),
        |_point: (), _limit: u32| None,
    );
    assert_eq!(pixels, vec![color_from_result(None); 6]);
    assert_eq!(pixels, vec![BLACK; 6]);
}

#[test]
fn empty_bounds_render_nothing() {
    let origin = Complex { re: 0.0, im: 0.0 };
    assert_eq!(render_mandelbrot((0, 0), origin, origin), vec![]);
    assert_eq!(render_mandelbrot((0, 5), origin, origin), vec![]);
    assert_eq!(render_mandelbrot((5, 0), origin, origin), vec![]);
}

#[test]
fn pixel_count_is_the_product_when_it_fits() {
    assert_eq!(pixel_count((800, 600)), Some(480_000));
    assert_eq!(pixel_count((1, 1)), Some(1));
    assert_eq!(pixel_count((0, 600)), Some(0));
    assert_eq!(pixel_count((usize::MAX, 1)), Some(usize::MAX));
    assert_eq!(pixel_count((usize::MAX, 2)), None);
    assert_eq!(pixel_count((usize::MAX / 2 + 1, 2)), None);
}
