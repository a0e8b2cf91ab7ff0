//! The unit sphere about the origin.
use crate::fixed::Fixed;
use crate::rays::Intersection;
use crate::rays::Ray;
use crate::shapes::Material;
use crate::shapes::Shape;
use crate::shapes::ShapeType;
use crate::tuple::Tuple;
use vstd::prelude::*;

verus! {

/// The centre of the sphere.
pub open spec fn centre() -> Tuple {
    Tuple::point_spec(Fixed::zero_spec(), Fixed::zero_spec(), Fixed::zero_spec())
}

/// The normal at a point of the sphere's own space: the point less the
/// centre.
pub open spec fn local_normal(point: Tuple) -> Tuple {
    point.minus(centre())
}

/// A sphere of glass: wholly transparent, with refractive index 1.5.
pub open spec fn glass_spec() -> Shape {
    Shape {
        shape: ShapeType::Sphere,
        material: Material {
            transparency: Fixed::one_spec(),
            refractive_index: Fixed { raw: 1_500_000_000 },
            ..Material::default_spec()
        },
        ..Shape::default_spec()
    }
}

/// The discriminant of the quadratic whose roots are the distances at
/// which the ray meets the sphere.
pub open spec fn discriminant(r: Ray) -> Fixed {
    let sphere_to_ray = r.origin.minus(centre());
    let a = r.direction.dot_spec(r.direction);
    let b = Fixed::from_int_spec(2).times(r.direction.dot_spec(sphere_to_ray));
    let c = sphere_to_ray.dot_spec(sphere_to_ray).minus(Fixed::one_spec());
    b.times(b).minus(Fixed::from_int_spec(4).times(a).times(c))
}

/// The intersections of the sphere with a ray of its own space: none
/// where the discriminant is negative, else the two roots, the smaller
/// first (and twice the same where the ray is a tangent).
pub open spec fn hits(r: Ray, object: usize) -> Seq<Intersection> {
    let sphere_to_ray = r.origin.minus(centre());
    let a = r.direction.dot_spec(r.direction);
    let b = Fixed::from_int_spec(2).times(r.direction.dot_spec(sphere_to_ray));
    let d = discriminant(r);
    if d.raw < 0 {
        Seq::<Intersection>::empty()
    } else {
        let twice_a = Fixed::from_int_spec(2).times(a);
        seq![
            Intersection { t: b.negated().minus(d.root()).over(twice_a), object },
            Intersection { t: b.negated().plus(d.root()).over(twice_a), object },
        ]
    }
}

/// The normal at a point of the sphere's own space.
pub fn normal_at(point: &Tuple) -> (r: Tuple)
    ensures
        r == local_normal(*point),
{
    *point - Tuple::point_new(Fixed::zero(), Fixed::zero(), Fixed::zero())
}

/// A sphere with the default material and the identity transform.
pub fn default() -> (r: Shape)
    ensures
        r == Shape::default_spec(),
        r.wf(),
{
    Shape { shape: ShapeType::Sphere, ..Shape::default() }
}

/// A sphere of glass.
pub fn glass_sphere() -> (r: Shape)
    ensures
        r == glass_spec(),
        r.wf(),
{
    Shape {
        shape: ShapeType::Sphere,
        material: Material {
            transparency: Fixed::one(),
            refractive_index: Fixed::from_raw(1_500_000_000),
            ..Material::default()
        },
        ..Shape::default()
    }
}

/// The intersections of the sphere with a ray of its own space.
pub fn intersects(r: &Ray, object: usize) -> (xs: Vec<Intersection>)
    requires
        r.origin.is_point_spec(),
        r.direction.is_vector_spec(),
    ensures
        xs@ == hits(*r, object),
        discriminant(*r).raw < 0 ==> xs@.len() == 0,
        discriminant(*r).raw >= 0 ==> xs@.len() == 2 && xs@[0].object == object && xs@[1].object
            == object,
{
    let sphere_to_ray = r.origin - Tuple::point_new(Fixed::zero(), Fixed::zero(), Fixed::zero());
    let a = r.direction.dot(&r.direction);
    let b = Fixed::from_int(2) * r.direction.dot(&sphere_to_ray);
    let c = sphere_to_ray.dot(&sphere_to_ray) - Fixed::one();
    let discriminant = b * b - (Fixed::from_int(4) * a * c);
    let mut out: Vec<Intersection> = Vec::new();
    if discriminant.raw >= 0 {
        let t1 = (b.negate() - discriminant.sqrt()) / (Fixed::from_int(2) * a);
        let t2 = (b.negate() + discriminant.sqrt()) / (Fixed::from_int(2) * a);
        out.push(Intersection::new(t1, object));
        out.push(Intersection::new(t2, object));
    }
    assert(out@ =~= hits(*r, object));
    out
}

} // verus!
