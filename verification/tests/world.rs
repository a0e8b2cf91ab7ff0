use raytracer::canvas::Colour;
use raytracer::fixed::Fixed;
use raytracer::lighting::colour_at;
use raytracer::matrices::scale;
use raytracer::matrices::translation;
use raytracer::matrices::Matrix;
use raytracer::rays::Ray;
use raytracer::shapes::sphere;
use raytracer::shapes::Shape;
use raytracer::tuple::Tuple;
use raytracer::world::pixel_colour;
use raytracer::world::render;
use raytracer::world::view_transform;
use raytracer::world::Camera;
use raytracer::world::World;
use raytracer::REFLECTION_RECURSION_DEPTH;
use std::f64::consts::FRAC_1_SQRT_2;
use std::f64::consts::FRAC_PI_2;
use std::f64::consts::FRAC_PI_4;

fn fx(v: f64) -> Fixed {
    Fixed::from_raw((v * 1e9).round() as i64)
}

fn point(x: f64, y: f64, z: f64) -> Tuple {
    Tuple::point_new(fx(x), fx(y), fx(z))
}

fn vector(x: f64, y: f64, z: f64) -> Tuple {
    Tuple::vector_new(fx(x), fx(y), fx(z))
}

fn colour(r: f64, g: f64, b: f64) -> Colour {
    Colour::new(fx(r), fx(g), fx(b))
}

fn m4(a: [[f64; 4]; 4]) -> Matrix<4> {
    Matrix::from_array(&a.map(|row| row.map(fx)))
}

fn float_close(x: Fixed, y: f64) -> bool {
    x.is_within(fx(y), fx(0.0001))
}

#[test]
fn intersect_world_with_ray() {
    let w = World::default();
    let r = Ray::new(point(0.0, 0.0, -5.0), vector(0.0, 0.0, 1.0));
    let intersections = r.intersects_world(&w);
    assert_eq!(intersections.len(), 4);
    assert_eq!(intersections[0].t, fx(4.0));
    assert_eq!(intersections[1].t, fx(4.5));
    assert_eq!(intersections[2].t, fx(5.5));
    assert_eq!(intersections[3].t, fx(6.0));
}

#[test]
fn default_view_transformation() {
    let t = view_transform(&point(0.0, 0.0, 0.0), &point(0.0, 0.0, -1.0), &vector(0.0, 1.0, 0.0));
    assert_eq!(t, Matrix::<4>::identity());
}

#[test]
fn view_transform_positive_z_direction() {
    let t = view_transform(&point(0.0, 0.0, 0.0), &point(0.0, 0.0, 1.0), &vector(0.0, 1.0, 0.0));
    assert_eq!(t, scale(fx(-1.0), fx(1.0), fx(-1.0)));
}

#[test]
fn view_transform_moves_world() {
    let t = view_transform(&point(0.0, 0.0, 8.0), &point(0.0, 0.0, 0.0), &vector(0.0, 1.0, 0.0));
    assert_eq!(t, translation(fx(0.0), fx(0.0), fx(-8.0)));
}

#[test]
fn arbitrary_view_transform() {
    let t = view_transform(&point(1.0, 3.0, 2.0), &point(4.0, -2.0, 8.0), &vector(1.0, 1.0, 0.0));
    let expected = m4([
        [-0.50709, 0.50709, 0.67612, -2.36643],
        [0.76772, 0.60609, 0.12122, -2.82843],
        [-0.35857, 0.59761, -0.71714, 0.0],
        [0.0, 0.0, 0.0, 1.0],
    ]);
    assert_eq!(t, expected);
}

#[test]
fn camera_pixel_size_horizontal() {
    let c = Camera::new(200, 125, fx(FRAC_PI_2), Matrix::<4>::identity());
    assert!(float_close(c.pixel_size, 0.01));
}

#[test]
fn camera_pixel_size_vertical() {
    let c = Camera::new(125, 200, fx(FRAC_PI_2), Matrix::<4>::identity());
    assert!(float_close(c.pixel_size, 0.01));
}

#[test]
fn ray_through_centre_of_canvas() {
    let c = Camera::new(201, 101, fx(FRAC_PI_2), Matrix::<4>::identity());
    println!("{:?}", c.pixel_size);
    let r = c.ray_for_pixel(100, 50);
    assert_eq!(r.origin, point(0.0, 0.0, 0.0));
    assert_eq!(r.direction, vector(0.0, 0.0, -1.0));
}

#[test]
fn ray_through_corner_of_canvas() {
    let c = Camera::new(201, 101, fx(FRAC_PI_2), Matrix::<4>::identity());
    let r = c.ray_for_pixel(0, 0);
    assert_eq!(r.origin, point(0.0, 0.0, 0.0));
    assert_eq!(r.direction, vector(0.66519, 0.33259, -0.66851));
}

#[test]
fn ray_when_camera_transformed() {
    let c = Camera::new(
        201,
        101,
        fx(FRAC_PI_2),
        translation(fx(0.0), fx(-2.0), fx(5.0)).rotate_y(fx(FRAC_PI_4)),
    );
    let r = c.ray_for_pixel(100, 50);
    assert_eq!(r.origin, point(0.0, 2.0, -5.0));
    assert_eq!(r.direction, vector(FRAC_1_SQRT_2, 0.0, -FRAC_1_SQRT_2));
}

#[test]
fn rendering_world_with_camera() {
    let w = World::default();
    let t = view_transform(&point(0.0, 0.0, -5.0), &point(0.0, 0.0, 0.0), &vector(0.0, 1.0, 0.0));
    let mut c = Camera::new(11, 11, fx(FRAC_PI_2), t);
    let image = render(&mut c, &w);
    assert_eq!(*image.pixel_at(5, 5), colour(0.38066, 0.47583, 0.2855));
}

#[test]
fn default_world_holds_two_spheres_and_a_light() {
    let w = World::default();
    assert_eq!(w.objects.len(), 2);
    assert_eq!(w.lights.len(), 1);
    assert_eq!(w.objects[0].material.colour, colour(0.8, 1.0, 0.6));
    assert_eq!(w.objects[0].material.diffuse, fx(0.7));
    assert_eq!(w.objects[0].material.specular, fx(0.2));
    assert_eq!(w.objects[0].transform, Matrix::<4>::identity());
    assert_eq!(w.objects[1], Shape { transform: scale(fx(0.5), fx(0.5), fx(0.5)), ..sphere::default() });
    assert_eq!(w.lights[0].position, point(-10.0, 10.0, -10.0));
    assert_eq!(w.lights[0].intensity, Colour::white());
    assert!(w.is_wf());
    let empty = World::new();
    assert!(empty.objects.is_empty() && empty.lights.is_empty());
    assert!(empty.is_wf());
}

#[test]
fn world_with_flat_shape_is_not_well_formed() {
    let mut w = World::default();
    w.objects.push(Shape { transform: scale(fx(1.0), fx(0.0), fx(1.0)), ..sphere::default() });
    assert!(!w.is_wf());
}

#[test]
fn render_fills_every_pixel_row_by_row() {
    let w = World::default();
    let t = view_transform(&point(0.0, 0.0, -5.0), &point(0.0, 0.0, 0.0), &vector(0.0, 1.0, 0.0));
    let c = Camera::new(7, 5, fx(FRAC_PI_2), t);
    let image = render(&c, &w);
    assert_eq!(image.width, 7);
    assert_eq!(image.height, 5);
    for y in 0..5 {
        for x in 0..7 {
            let ray = c.ray_for_pixel(x, y);
            let expected = colour_at(&w, &ray, REFLECTION_RECURSION_DEPTH);
            let got = image.pixel_at(x, y);
            assert_eq!(got.red, expected.red);
            assert_eq!(got.green, expected.green);
            assert_eq!(got.blue, expected.blue);
            let again = pixel_colour(&c, &w, y * 7 + x);
            assert_eq!(again.red, expected.red);
        }
    }
    assert_ne!(*image.pixel_at(3, 2), *image.pixel_at(0, 0));
}

#[test]
fn render_of_camera_without_pixels_is_empty() {
    let w = World::default();
    let c = Camera::new(0, 4, fx(1.0), Matrix::<4>::identity());
    let image = render(&c, &w);
    assert_eq!(image.width, 0);
    assert_eq!(image.height, 4);
    assert_eq!(image.ppm_pixel_data(), "");
}

#[test]
fn camera_sizes_follow_the_aspect() {
    let wide = Camera::new(200, 100, fx(FRAC_PI_2), Matrix::<4>::identity());
    assert!(float_close(wide.half_width, 1.0));
    assert!(float_close(wide.half_height, 0.5));
    let tall = Camera::new(100, 200, fx(FRAC_PI_2), Matrix::<4>::identity());
    assert!(float_close(tall.half_width, 0.5));
    assert!(float_close(tall.half_height, 1.0));
    assert_eq!(wide.pixel_size, Camera::pixel_size(200, 100, fx(FRAC_PI_2)));
    assert_eq!(wide.half_width, Camera::half_width(200, 100, fx(FRAC_PI_2)));
    assert_eq!(wide.half_height, Camera::half_height(200, 100, fx(FRAC_PI_2)));
    let blank = Camera::default();
    assert_eq!(blank.hsize, 0);
    assert_eq!(blank.vsize, 0);
    assert_eq!(blank.pixel_size, fx(0.0));
}

#[test]
fn view_transform_is_affine() {
    let t = view_transform(&point(1.0, 3.0, 2.0), &point(4.0, -2.0, 8.0), &vector(1.0, 1.0, 0.0));
    assert!(t.is_affine());
    assert!(t.is_proper());
    assert!(t.is_usable());
}
