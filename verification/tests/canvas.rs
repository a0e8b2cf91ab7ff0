use raytracer::canvas::Canvas;
use raytracer::canvas::Colour;
use raytracer::fixed::Fixed;

fn fx(v: f64) -> Fixed {
    Fixed::from_raw((v * 1e9).round() as i64)
}

fn colour(r: f64, g: f64, b: f64) -> Colour {
    Colour::new(fx(r), fx(g), fx(b))
}

#[test]
fn add_colours() {
    let c1 = colour(0.9, 0.6, 0.75);
    let c2 = colour(0.7, 0.1, 0.25);
    assert_eq!(c1 + c2, colour(1.6, 0.7, 1.0));
}

#[test]
fn subtract_colours() {
    let c1 = colour(0.9, 0.6, 0.75);
    let c2 = colour(0.7, 0.1, 0.25);
    assert_eq!(c1 - c2, colour(0.2, 0.5, 0.5));
}

#[test]
fn multiply_colours() {
    let c1 = colour(0.9, 0.6, 0.75);
    let c2 = colour(0.7, 0.1, 0.25);
    assert_eq!(c1 * c2, colour(0.63, 0.06, 0.1875));
}

#[test]
fn multiply_colour_by_scalar() {
    let c1 = colour(0.9, 0.6, 0.75);
    assert_eq!(c1 * fx(2.0), colour(1.8, 1.2, 1.5));
}

#[test]
fn write_colour_to_canvas() {
    let mut c = Canvas::new(10, 20);
    let red = colour(1.0, 0.0, 0.0);
    c.write_pixel((2, 3), red);
    assert_eq!(*c.pixel_at(2, 3), red);
}

#[test]
fn ppm_header_is_correct() {
    let c = Canvas::new(5, 3);
    let header = c.ppm_header();
    assert_eq!(header, "P3\n5 3\n255\n");
}

#[test]
fn ppm_pixel_data_is_correct() {
    let mut c = Canvas::new(5, 3);
    let c1 = colour(1.5, 0.0, 0.0);
    let c2 = colour(0.0, 0.5, 0.0);
    let c3 = colour(-0.5, 0.0, 1.0);
    c.write_pixel((0, 0), c1);
    c.write_pixel((2, 1), c2);
    c.write_pixel((4, 2), c3);
    let pix_data = c.ppm_pixel_data();
    assert_eq!(
        pix_data,
        "255 0 0\n0 0 0\n0 0 0\n0 0 0\n0 0 0\n\
         0 0 0\n0 0 0\n0 127 0\n0 0 0\n0 0 0\n\
         0 0 0\n0 0 0\n0 0 0\n0 0 0\n0 0 255\n\
         "
    )
}

#[test]
fn new_canvas_is_black() {
    let c = Canvas::new(4, 3);
    assert_eq!(c.width, 4);
    assert_eq!(c.height, 3);
    assert_eq!(c.pixels.len(), 3);
    for y in 0..3 {
        assert_eq!(c.pixels[y].len(), 4);
        for x in 0..4 {
            assert_eq!(c.pixel_at(x, y).red, fx(0.0));
            assert_eq!(c.pixel_at(x, y).green, fx(0.0));
            assert_eq!(c.pixel_at(x, y).blue, fx(0.0));
        }
    }
}

#[test]
fn write_pixel_changes_one_pixel_only() {
    let mut c = Canvas::new(3, 2);
    c.write_pixel((1, 1), colour(0.25, 0.5, 0.75));
    for y in 0..2 {
        for x in 0..3 {
            let expected = if (x, y) == (1, 1) { colour(0.25, 0.5, 0.75) } else { Colour::black() };
            assert_eq!(c.pixel_at(x, y).red, expected.red);
            assert_eq!(c.pixel_at(x, y).green, expected.green);
            assert_eq!(c.pixel_at(x, y).blue, expected.blue);
        }
    }
}

#[test]
fn component_levels_are_held_within_bounds() {
    assert_eq!(Colour::component_transform(fx(0.0)), 0);
    assert_eq!(Colour::component_transform(fx(1.0)), 255);
    assert_eq!(Colour::component_transform(fx(0.5)), 127);
    assert_eq!(Colour::component_transform(fx(1.5)), 255);
    assert_eq!(Colour::component_transform(fx(-0.5)), 0);
    assert_eq!(Colour::component_transform(fx(0.999)), 254);
    assert_eq!(Colour::component_transform(fx(-0.001)), 0);
}

#[test]
fn colour_text_is_three_levels_and_a_line_feed() {
    assert_eq!(colour(1.0, 0.5, 0.0).to_string(), "255 127 0\n");
    assert_eq!(Colour::white().to_string(), "255 255 255\n");
    assert_eq!(Colour::black().to_string(), "0 0 0\n");
    assert_eq!(colour(0.04, 0.4, 0.041).to_string(), "10 102 10\n");
}

#[test]
fn header_of_wide_canvas_has_every_digit() {
    assert_eq!(Canvas::new(1024, 0).ppm_header(), "P3\n1024 0\n255\n");
    assert_eq!(Canvas::new(0, 907).ppm_header(), "P3\n0 907\n255\n");
    assert_eq!(Canvas::new(0, 907).ppm_pixel_data(), "");
}

#[test]
fn colours_equal_within_tolerance() {
    assert_eq!(colour(0.5, 0.5, 0.5), colour(0.500009, 0.5, 0.5));
    assert_ne!(colour(0.5, 0.5, 0.5), colour(0.50001, 0.5, 0.5));
}

#[test]
fn save_ppm_file() {
    let mut c = Canvas::new(5, 3);
    let c1 = colour(1.5, 0.0, 0.0);
    let c2 = colour(0.0, 0.5, 0.0);
    let c3 = colour(-0.5, 0.0, 1.0);
    c.write_pixel((0, 0), c1);
    c.write_pixel((2, 1), c2);
    c.write_pixel((4, 2), c3);
    let file = format!("{}{}", c.ppm_header(), c.ppm_pixel_data());
    assert_eq!(file.lines().count(), 3 + 15);
    assert_eq!(file.lines().nth(3), Some("255 0 0"));
    assert_eq!(1, 1)
}
