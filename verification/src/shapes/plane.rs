//! The plane `y = 0`.
use crate::fixed::Fixed;
use crate::rays::Intersection;
use crate::rays::Ray;
use crate::shapes::Shape;
use crate::shapes::ShapeType;
use crate::shapes::SHAPE_EPSILON;
use crate::tuple::Tuple;
use vstd::prelude::*;

verus! {

/// The normal of the plane, the same at every point.
pub open spec fn local_normal() -> Tuple {
    Tuple::vector_spec(Fixed::zero_spec(), Fixed::one_spec(), Fixed::zero_spec())
}

/// A plane with the default material and the identity transform.
pub open spec fn default_spec() -> Shape {
    Shape { shape: ShapeType::Plane, ..Shape::default_spec() }
}

/// Whether a ray of the plane's own space runs along the plane: its
/// direction has a `y` within the tolerance of zero. A ray that lies in
/// the plane counts as parallel too.
pub open spec fn parallel(r: Ray) -> bool {
    r.direction.y.abs_spec().raw < SHAPE_EPSILON
}

/// The intersections of the plane with a ray of its own space: none
/// for a parallel ray, else the one at `-origin.y / direction.y`.
pub open spec fn hits(r: Ray, object: usize) -> Seq<Intersection> {
    if parallel(r) {
        Seq::<Intersection>::empty()
    } else {
        seq![Intersection { t: r.origin.y.negated().over(r.direction.y), object }]
    }
}

/// The normal of the plane.
pub fn normal_at() -> (r: Tuple)
    ensures
        r == local_normal(),
{
    Tuple::vector_new(Fixed::zero(), Fixed::one(), Fixed::zero())
}

/// A plane with the default material and the identity transform.
pub fn default() -> (r: Shape)
    ensures
        r == default_spec(),
        r.wf(),
{
    Shape { shape: ShapeType::Plane, ..Shape::default() }
}

/// The intersections of the plane with a ray of its own space.
pub fn intersects(r: &Ray, object: usize) -> (xs: Vec<Intersection>)
    ensures
        xs@ == hits(*r, object),
        parallel(*r) ==> xs@.len() == 0,
        !parallel(*r) ==> xs@.len() == 1 && xs@[0].object == object,
{
    let mut out: Vec<Intersection> = Vec::new();
    if !(r.direction.y.abs().raw < SHAPE_EPSILON) {
        out.push(Intersection::new(r.origin.y.negate() / r.direction.y, object));
    }
    assert(out@ =~= hits(*r, object));
    out
}

} // verus!
