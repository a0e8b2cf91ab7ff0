use raytracer::canvas::Colour;
use raytracer::fixed::Fixed;
use raytracer::lighting::calculate_lighting;
use raytracer::lighting::colour_at;
use raytracer::lighting::is_shadowed;
use raytracer::lighting::prepare_computations;
use raytracer::lighting::reflected_colour;
use raytracer::lighting::refracted_colour;
use raytracer::lighting::refractive_indices;
use raytracer::lighting::schlick;
use raytracer::lighting::shade_hit;
use raytracer::lighting::PointLight;
use raytracer::matrices::scale;
use raytracer::matrices::translation;
use raytracer::matrices::Matrix;
use raytracer::rays::Intersection;
use raytracer::rays::Ray;
use raytracer::shapes::plane;
use raytracer::shapes::sphere;
use raytracer::shapes::Material;
use raytracer::shapes::Pattern;
use raytracer::shapes::Shape;
use raytracer::tuple::Tuple;
use raytracer::world::World;
use std::f64::consts::FRAC_1_SQRT_2;
use std::f64::consts::SQRT_2;

fn fx(v: f64) -> Fixed {
    Fixed::from_raw((v * 1e9).round() as i64)
}

fn point(x: f64, y: f64, z: f64) -> Tuple {
    Tuple::point_new(fx(x), fx(y), fx(z))
}

fn vector(x: f64, y: f64, z: f64) -> Tuple {
    Tuple::vector_new(fx(x), fx(y), fx(z))
}

fn colour(r: f64, g: f64, b: f64) -> Colour {
    Colour::new(fx(r), fx(g), fx(b))
}

fn float_eq(a: Fixed, b: f64) -> bool {
    raytracer::float_eq(a, fx(b))
}

fn world_of(objects: Vec<Shape>) -> World {
    World { objects, lights: Vec::new() }
}

fn white_light(x: f64, y: f64, z: f64) -> PointLight {
    PointLight::new(colour(1.0, 1.0, 1.0), point(x, y, z))
}

#[test]
fn eye_between_light_and_surface() {
    let s = Shape::default();
    let m = Material::default();
    let posn = point(0.0, 0.0, 0.0);
    let eye_vec = vector(0.0, 0.0, -1.0);
    let normal_vec = vector(0.0, 0.0, -1.0);
    let light = white_light(0.0, 0.0, -10.0);
    let result = calculate_lighting(&m, &s, &light, &posn, &eye_vec, &normal_vec, false);
    assert_eq!(result, colour(1.9, 1.9, 1.9));
}

#[test]
fn eye_between_light_and_surface_eye_offset_45deg() {
    let s = Shape::default();
    let m = Material::default();
    let posn = point(0.0, 0.0, 0.0);
    let eye_vec = vector(0.0, FRAC_1_SQRT_2, -FRAC_1_SQRT_2);
    let normal_vec = vector(0.0, 0.0, -1.0);
    let light = white_light(0.0, 0.0, -10.0);
    let result = calculate_lighting(&m, &s, &light, &posn, &eye_vec, &normal_vec, false);
    assert_eq!(result, colour(1.0, 1.0, 1.0));
}

#[test]
fn eye_opposite_surface_light_offset_45deg() {
    let s = Shape::default();
    let m = Material::default();
    let posn = point(0.0, 0.0, 0.0);
    let eye_vec = vector(0.0, 0.0, -1.0);
    let normal_vec = vector(0.0, 0.0, -1.0);
    let light = white_light(0.0, 10.0, -10.0);
    let result = calculate_lighting(&m, &s, &light, &posn, &eye_vec, &normal_vec, false);
    assert_eq!(result, colour(0.7364, 0.7364, 0.7364));
}

#[test]
fn eye_in_path_of_reflection_vector() {
    let s = Shape::default();
    let m = Material::default();
    let posn = point(0.0, 0.0, 0.0);
    let eye_vec = vector(0.0, -FRAC_1_SQRT_2, -FRAC_1_SQRT_2);
    let normal_vec = vector(0.0, 0.0, -1.0);
    let light = white_light(0.0, 10.0, -10.0);
    let result = calculate_lighting(&m, &s, &light, &posn, &eye_vec, &normal_vec, false);
    assert_eq!(result, colour(1.6364, 1.6364, 1.6364));
}

#[test]
fn lighting_with_light_behind_surface() {
    let s = Shape::default();
    let m = Material::default();
    let posn = point(0.0, 0.0, 0.0);
    let eye_vec = vector(0.0, 0.0, -1.0);
    let normal_vec = vector(0.0, 0.0, -1.0);
    let light = white_light(0.0, 0.0, 10.0);
    let result = calculate_lighting(&m, &s, &light, &posn, &eye_vec, &normal_vec, false);
    assert_eq!(result, colour(0.1, 0.1, 0.1));
}

#[test]
fn precomputating_state_of_intersection() {
    let r = Ray::new(point(0.0, 0.0, -5.0), vector(0.0, 0.0, 1.0));
    let w = world_of(vec![sphere::default()]);
    let i = Intersection::new(fx(4.0), 0);
    let comps = prepare_computations(&i, &r, &vec![i], &w);
    assert_eq!(comps.t, i.t);
    assert_eq!(comps.object, i.object);
    assert_eq!(comps.eye_vec, vector(0.0, 0.0, -1.0));
    assert_eq!(comps.normal, vector(0.0, 0.0, -1.0));
    assert_eq!(comps.point, point(0.0, 0.0, -1.0));
}

#[test]
fn hit_on_outside_of_shape() {
    let r = Ray::new(point(0.0, 0.0, -5.0), vector(0.0, 0.0, 1.0));
    let w = world_of(vec![sphere::default()]);
    let i = Intersection::new(fx(4.0), 0);
    let comps = prepare_computations(&i, &r, &vec![i], &w);
    assert!(!comps.inside);
}

#[test]
fn hit_on_inside_of_shape() {
    let r = Ray::new(point(0.0, 0.0, 0.0), vector(0.0, 0.0, 1.0));
    let w = world_of(vec![sphere::default()]);
    let i = Intersection::new(fx(4.0), 0);
    let comps = prepare_computations(&i, &r, &vec![i], &w);
    assert!(comps.inside);
}

#[test]
fn shading_an_intersection() {
    let w = World::default();
    let r = Ray::new(point(0.0, 0.0, -5.0), vector(0.0, 0.0, 1.0));
    let i = Intersection::new(fx(4.0), 0);
    let comp = prepare_computations(&i, &r, &vec![i], &w);
    let c = shade_hit(&w, &comp, 5);
    assert_eq!(c, colour(0.38066, 0.47583, 0.2855));
}

#[test]
fn shading_an_intersection_from_inside() {
    let mut w = World::default();
    w.lights[0] = white_light(0.0, 0.25, 0.0);
    let r = Ray::new(point(0.0, 0.0, 0.0), vector(0.0, 0.0, 1.0));
    let i = Intersection::new(fx(0.5), 1);
    let comp = prepare_computations(&i, &r, &vec![i], &w);
    let c = shade_hit(&w, &comp, 5);
    assert_eq!(c, colour(0.90498, 0.90498, 0.90498));
}

#[test]
fn ray_miss_colour() {
    let w = World::default();
    let r = Ray::new(point(0.0, 0.0, -5.0), vector(0.0, 1.0, 0.0));
    let c = colour_at(&w, &r, 5);
    assert_eq!(c, colour(0.0, 0.0, 0.0));
}

#[test]
fn ray_hit_colour() {
    let w = World::default();
    let r = Ray::new(point(0.0, 0.0, -5.0), vector(0.0, 0.0, 1.0));
    let c = colour_at(&w, &r, 5);
    assert_eq!(c, colour(0.38066, 0.47583, 0.2855));
}

#[test]
fn colour_intersection_behind_ray() {
    let mut w = World::default();
    w.objects[0].material.ambient = fx(1.0);
    w.objects[1].material.ambient = fx(1.0);
    let r = Ray::new(point(0.0, 0.0, 0.75), vector(0.0, 0.0, -1.0));
    let c = colour_at(&w, &r, 5);
    assert_eq!(c, w.objects[1].material.colour);
}

#[test]
fn lighting_surface_in_shadow() {
    let s = Shape::default();
    let m = Material::default();
    let posn = point(0.0, 0.0, 0.0);
    let eye_vec = vector(0.0, 0.0, -1.0);
    let normal_vec = vector(0.0, 0.0, -1.0);
    let light = white_light(0.0, 0.0, -10.0);
    let result = calculate_lighting(&m, &s, &light, &posn, &eye_vec, &normal_vec, true);
    assert_eq!(result, colour(0.1, 0.1, 0.1));
}

#[test]
fn no_shadow_when_nothing_between_point_and_light() {
    let w = World::default();
    let p = point(0.0, 10.0, 0.0);
    assert!(!is_shadowed(&w, &p));
}

#[test]
fn shadow_when_object_between_point_and_light() {
    let w = World::default();
    let p = point(10.0, -10.0, 10.0);
    assert!(is_shadowed(&w, &p));
}

#[test]
fn no_shadow_when_object_behind_light() {
    let w = World::default();
    let p = point(-20.0, 20.0, -20.0);
    assert!(!is_shadowed(&w, &p));
}

#[test]
fn no_shadow_when_object_behind_point() {
    let w = World::default();
    let p = point(-20.0, 20.0, -20.0);
    assert!(!is_shadowed(&w, &p));
}

#[test]
fn precomputing_reflection_vector() {
    let w = world_of(vec![plane::default()]);
    let r = Ray::new(point(0.0, 1.0, -1.0), vector(0.0, -SQRT_2 / 2.0, SQRT_2 / 2.0));
    let i = Intersection::new(fx(SQRT_2), 0);
    let comps = prepare_computations(&i, &r, &vec![i], &w);
    assert_eq!(comps.reflect_vec, vector(0.0, SQRT_2 / 2.0, SQRT_2 / 2.0));
}

#[test]
fn reflected_colour_for_nonreflective_material() {
    let w = World::default();
    let r = Ray::new(point(0.0, 0.0, 0.0), vector(0.0, 0.0, 1.0));
    let i = Intersection::new(fx(1.0), 1);
    let comps = prepare_computations(&i, &r, &vec![i], &w);
    let colour_seen = reflected_colour(&w, &comps, 5);
    assert_eq!(colour_seen, colour(0.0, 0.0, 0.0));
}

fn reflective_floor(reflectivity: f64, y: f64) -> Shape {
    Shape {
        material: Material { reflectivity: fx(reflectivity), ..Default::default() },
        transform: translation(fx(0.0), fx(y), fx(0.0)),
        ..plane::default()
    }
}

#[test]
fn reflected_colour_for_reflective_material() {
    let mut w = World::default();
    w.objects.push(reflective_floor(0.5, -1.0));
    let r = Ray::new(point(0.0, 0.0, -3.0), vector(0.0, -SQRT_2 / 2.0, SQRT_2 / 2.0));
    let i = Intersection::new(fx(SQRT_2), 2);
    let comps = prepare_computations(&i, &r, &vec![i], &w);
    let colour_seen = reflected_colour(&w, &comps, 5);
    assert_eq!(colour_seen, colour(0.19033, 0.23791, 0.14275));
}

#[test]
fn shade_hit_with_reflective_material() {
    let mut w = World::default();
    w.objects.push(reflective_floor(0.5, -1.0));
    let r = Ray::new(point(0.0, 0.0, -3.0), vector(0.0, -SQRT_2 / 2.0, SQRT_2 / 2.0));
    let i = Intersection::new(fx(SQRT_2), 2);
    let comps = prepare_computations(&i, &r, &vec![i], &w);
    let colour_seen = shade_hit(&w, &comps, 5);
    assert_eq!(colour_seen, colour(0.876756, 0.924338, 0.829173));
}

#[test]
fn colour_at_mutually_recursive_surfaces() {
    let mut w = World::default();
    w.objects.push(reflective_floor(1.0, -1.0));
    w.objects.push(reflective_floor(1.0, 1.0));
    let r = Ray::new(point(0.0, 0.0, 0.0), vector(0.0, 1.0, 0.0));
    colour_at(&w, &r, 5);
}

#[test]
fn reflected_colour_at_max_recursion() {
    let mut w = World::default();
    w.objects.push(reflective_floor(0.5, -1.0));
    let r = Ray::new(point(0.0, 0.0, -3.0), vector(0.0, -SQRT_2 / 2.0, SQRT_2 / 2.0));
    let i = Intersection::new(fx(SQRT_2), 2);
    let comps = prepare_computations(&i, &r, &vec![i], &w);
    let colour_seen = reflected_colour(&w, &comps, 0);
    assert_eq!(colour_seen, colour(0.0, 0.0, 0.0));
}

fn three_glass_spheres() -> World {
    let mut a = sphere::glass_sphere();
    let mut b = sphere::glass_sphere();
    let mut c = sphere::glass_sphere();
    a.transform = scale(fx(2.0), fx(2.0), fx(2.0));
    b.transform = translation(fx(0.0), fx(0.0), fx(-0.25));
    c.transform = translation(fx(0.0), fx(0.0), fx(0.25));
    a.material.refractive_index = fx(1.5);
    b.material.refractive_index = fx(2.0);
    c.material.refractive_index = fx(2.5);
    world_of(vec![a, b, c])
}

#[test]
fn finding_n1_and_n2_at_various_intersections() {
    let w = three_glass_spheres();
    let r = Ray::new(point(0.0, 0.0, -4.0), vector(0.0, 0.0, 1.0));
    let intersections = vec![
        Intersection::new(fx(2.0), 0),
        Intersection::new(fx(2.75), 1),
        Intersection::new(fx(3.25), 2),
        Intersection::new(fx(4.75), 1),
        Intersection::new(fx(5.25), 2),
        Intersection::new(fx(6.0), 0),
    ];
    let refractive_index_vals = vec![1.0, 1.5, 2.0, 2.5, 2.5, 1.5, 1.0];
    for (index, intersection) in intersections.iter().enumerate() {
        let comps = prepare_computations(intersection, &r, &intersections, &w);
        let failstring = format![
            "\n\nFailed on {}, returning n1: {:?} and n2: {:?} rather than {} and {}\n",
            index,
            comps.n1,
            comps.n2,
            refractive_index_vals[index],
            refractive_index_vals[index + 1]
        ];
        assert!(float_eq(comps.n1, refractive_index_vals[index]), "{}", failstring);
        assert!(float_eq(comps.n2, refractive_index_vals[index + 1]), "{}", failstring);
    }
}

#[test]
fn refracted_colour_opaque_surface() {
    let w = World::default();
    let r = Ray::new(point(0.0, 0.0, -5.0), vector(0.0, 0.0, 1.0));
    let intersections = vec![Intersection::new(fx(4.0), 1), Intersection::new(fx(6.0), 1)];
    let comps = prepare_computations(&intersections[0], &r, &intersections, &w);
    let c = refracted_colour(&w, &comps, 5);
    assert_eq!(c, Colour::black());
}

#[test]
fn refracted_colour_when_total_internal_reflection() {
    let mut w = World::default();
    w.objects[1].material.transparency = fx(1.0);
    w.objects[1].material.refractive_index = fx(1.5);
    let r = Ray::new(point(0.0, 0.0, SQRT_2 / 2.0), vector(0.0, 1.0, 0.0));
    let intersections =
        vec![Intersection::new(fx(-SQRT_2 / 2.0), 1), Intersection::new(fx(SQRT_2 / 2.0), 1)];
    let comps = prepare_computations(&intersections[1], &r, &intersections, &w);
    let c = refracted_colour(&w, &comps, 5);
    assert_eq!(c, Colour::black());
}

#[test]
fn refracted_colour_with_refracted_ray() {
    let mut w = World::default();
    w.objects[0].material.ambient = fx(1.0);
    w.objects[0].material.pattern = Some(Pattern::Test { transform: Matrix::<4>::identity() });
    w.objects[1].material.transparency = fx(1.0);
    w.objects[1].material.refractive_index = fx(1.5);
    let r = Ray::new(point(0.0, 0.0, 0.1), vector(0.0, 1.0, 0.0));
    let intersections = vec![
        Intersection::new(fx(-0.9899), 0),
        Intersection::new(fx(-0.4899), 1),
        Intersection::new(fx(0.4899), 1),
        Intersection::new(fx(0.9899), 0),
    ];
    let comps = prepare_computations(&intersections[2], &r, &intersections, &w);
    let col = refracted_colour(&w, &comps, 5);
    assert_eq!(col, colour(0.0, 0.99888, 0.04722));
}

fn glassy_floor_and_ball(w: &mut World, reflectivity: f64) {
    let floor = Shape {
        transform: translation(fx(0.0), fx(-1.0), fx(0.0)),
        material: Material {
            reflectivity: fx(reflectivity),
            transparency: fx(0.5),
            refractive_index: fx(1.5),
            ..Default::default()
        },
        ..plane::default()
    };
    let ball = Shape {
        transform: translation(fx(0.0), fx(-3.5), fx(-0.5)),
        material: Material { colour: colour(1.0, 0.0, 0.0), ambient: fx(0.5), ..Default::default() },
        ..sphere::default()
    };
    w.objects.push(floor);
    w.objects.push(ball);
}

#[test]
fn shade_hit_with_transparent_material() {
    let mut w = World::default();
    glassy_floor_and_ball(&mut w, 0.0);
    let r = Ray::new(point(0.0, 0.0, -3.0), vector(0.0, -SQRT_2 / 2.0, SQRT_2 / 2.0));
    let intersections = vec![Intersection::new(fx(SQRT_2), 2)];
    let comps = prepare_computations(&intersections[0], &r, &intersections, &w);
    let colour_seen = shade_hit(&w, &comps, 5);
    assert_eq!(colour_seen, colour(0.93642, 0.68642, 0.68642));
}

#[test]
fn shlick_approximation_under_total_internal_reflection() {
    let w = world_of(vec![sphere::glass_sphere()]);
    let r = Ray::new(point(0.0, 0.0, SQRT_2 / 2.0), vector(0.0, 1.0, 0.0));
    let intersections =
        vec![Intersection::new(fx(-SQRT_2 / 2.0), 0), Intersection::new(fx(SQRT_2 / 2.0), 0)];
    let comps = prepare_computations(&intersections[1], &r, &intersections, &w);
    let reflectance = schlick(&comps);
    assert!(float_eq(reflectance, 1.0));
}

#[test]
fn shlick_approximation_perpendicular_viewing_angle() {
    let w = world_of(vec![sphere::glass_sphere()]);
    let r = Ray::new(point(0.0, 0.0, 0.0), vector(0.0, 1.0, 0.0));
    let intersections = vec![Intersection::new(fx(-1.0), 0), Intersection::new(fx(1.0), 0)];
    let comps = prepare_computations(&intersections[1], &r, &intersections, &w);
    let reflectance = schlick(&comps);
    assert!(float_eq(reflectance, 0.04));
}

#[test]
fn shlick_approximation_small_angle_n2_gt_n1() {
    let w = world_of(vec![sphere::glass_sphere()]);
    let r = Ray::new(point(0.0, 0.99, -2.0), vector(0.0, 0.0, 1.0));
    let intersections = vec![Intersection::new(fx(1.8589), 0)];
    let comps = prepare_computations(&intersections[0], &r, &intersections, &w);
    let reflectance = schlick(&comps);
    assert!(float_eq(reflectance, 0.48873));
}

#[test]
fn shade_hit_with_reflective_and_transparent_material() {
    let mut w = World::default();
    glassy_floor_and_ball(&mut w, 0.5);
    let r = Ray::new(point(0.0, 0.0, -3.0), vector(0.0, -SQRT_2 / 2.0, SQRT_2 / 2.0));
    let intersections = vec![Intersection::new(fx(SQRT_2), 2)];
    let comps = prepare_computations(&intersections[0], &r, &intersections, &w);
    let colour_seen = shade_hit(&w, &comps, 5);
    assert_eq!(colour_seen, colour(0.93391, 0.69643, 0.69243));
}

#[test]
fn refractive_indices_along_nested_spheres() {
    let w = three_glass_spheres();
    let xs = vec![
        Intersection::new(fx(2.0), 0),
        Intersection::new(fx(2.75), 1),
        Intersection::new(fx(3.25), 2),
        Intersection::new(fx(4.75), 1),
        Intersection::new(fx(5.25), 2),
        Intersection::new(fx(6.0), 0),
    ];
    let expected = [(1.0, 1.5), (1.5, 2.0), (2.0, 2.5), (2.5, 2.5), (2.5, 1.5), (1.5, 1.0)];
    for (k, x) in xs.iter().enumerate() {
        let (n1, n2) = refractive_indices(x, &xs, &w.objects);
        assert_eq!(n1, fx(expected[k].0));
        assert_eq!(n2, fx(expected[k].1));
    }
    let stranger = Intersection::new(fx(9.0), 0);
    assert_eq!(refractive_indices(&stranger, &xs, &w.objects), (fx(0.0), fx(0.0)));
}

#[test]
fn offset_points_lie_to_either_side_of_the_surface() {
    let w = world_of(vec![sphere::glass_sphere()]);
    let r = Ray::new(point(0.0, 0.0, -5.0), vector(0.0, 0.0, 1.0));
    let i = Intersection::new(fx(4.0), 0);
    let comps = prepare_computations(&i, &r, &vec![i], &w);
    assert_eq!(comps.point.z, fx(-1.0));
    assert_eq!(comps.over_point.z, fx(-1.0000001));
    assert_eq!(comps.under_point.z, fx(-0.9999999));
    assert_eq!(comps.over_point.w, fx(1.0));
    assert_eq!(comps.under_point.w, fx(1.0));
    assert_eq!(comps.normal.w, fx(0.0));
    assert_eq!(comps.eye_vec.w, fx(0.0));
    assert_eq!(comps.reflect_vec.w, fx(0.0));
}

#[test]
fn only_the_first_light_casts_shadows() {
    let mut w = World::default();
    let p = point(10.0, -10.0, 10.0);
    assert!(is_shadowed(&w, &p));
    w.lights.insert(0, white_light(10.0, -10.0, 20.0));
    assert!(!is_shadowed(&w, &p));
}

#[test]
fn every_light_adds_to_the_shade() {
    let mut w = World::default();
    let r = Ray::new(point(0.0, 0.0, -5.0), vector(0.0, 0.0, 1.0));
    let i = Intersection::new(fx(4.0), 0);
    let comp = prepare_computations(&i, &r, &vec![i], &w);
    let one = shade_hit(&w, &comp, 5);
    w.lights.push(white_light(-10.0, 10.0, -10.0));
    let two = shade_hit(&w, &comp, 5);
    assert_eq!(two, one + one);
    w.lights.clear();
    assert_eq!(shade_hit(&w, &comp, 5), Colour::black());
}

#[test]
fn reflection_with_no_recursion_left_is_black() {
    let mut w = World::default();
    w.objects.push(reflective_floor(1.0, -1.0));
    w.objects.push(reflective_floor(1.0, 1.0));
    let r = Ray::new(point(5.0, 0.0, 0.0), vector(0.0, 1.0, 0.0));
    let shallow = colour_at(&w, &r, 0);
    let deep = colour_at(&w, &r, 7);
    let xs = r.intersects_world(&w);
    let hit = Intersection::hit(&xs).unwrap();
    let comps = prepare_computations(&hit, &r, &xs, &w);
    assert_eq!(reflected_colour(&w, &comps, 0), Colour::black());
    assert_eq!(refracted_colour(&w, &comps, 0), Colour::black());
    assert_eq!(shallow, shade_hit(&w, &comps, 0));
    assert_ne!(shallow, deep);
}
