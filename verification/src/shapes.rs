//! Shapes, their materials and the patterns that colour them.
//!
//! A shape is a unit sphere about the origin or the plane `y = 0`, put
//! into the world by its transform alone.
use crate::canvas::Colour;
use crate::fixed::Fixed;
use crate::matrices::lemma_identity_usable;
use crate::matrices::lemma_inverse_affine;
use crate::matrices::Matrix;
use crate::rays::lemma_transformed_wf;
use crate::rays::Intersection;
use crate::rays::Ray;
use crate::tuple::Tuple;
use vstd::prelude::*;

pub mod plane;
pub mod sphere;

verus! {

/// Tolerance, in raw units, below which a coordinate counts as zero.
pub const SHAPE_EPSILON: i64 = 10_000;

#[derive(Debug, PartialEq, Eq, Clone, Copy, Structural)]
pub enum ShapeType {
    Sphere,
    Plane,
}

#[derive(Debug, PartialEq, Clone, Copy)]
pub struct Shape {
    pub material: Material,
    pub transform: Matrix<4>,
    pub shape: ShapeType,
}

#[derive(Debug, PartialEq, Clone, Copy)]
pub struct Material {
    pub colour: Colour,
    pub ambient: Fixed,
    pub diffuse: Fixed,
    pub specular: Fixed,
    /// Exponent of the specular highlight, a whole number.
    pub shininess: u32,
    pub reflectivity: Fixed,
    pub transparency: Fixed,
    pub refractive_index: Fixed,
    pub pattern: Option<Pattern>,
}

#[derive(Debug, PartialEq, Clone, Copy)]
pub enum Pattern {
    Stripe { colour_a: Colour, colour_b: Colour, transform: Matrix<4> },
    Check3D { colour_a: Colour, colour_b: Colour, transform: Matrix<4> },
    Test { transform: Matrix<4> },
}

/// `v`, or zero where `v` is within the tolerance of zero.
pub open spec fn snapped(v: Fixed) -> Fixed {
    if v.abs_spec().raw < SHAPE_EPSILON {
        Fixed::zero_spec()
    } else {
        v
    }
}

fn snap(v: Fixed) -> (r: Fixed)
    ensures
        r == snapped(v),
{
    if v.abs().raw < SHAPE_EPSILON {
        Fixed::zero()
    } else {
        v
    }
}

/// Whether a whole number is even.
pub open spec fn even(n: int) -> bool {
    n % 2 == 0
}

/// Whether the sum of three floors is even.
fn even_sum(a: i64, b: i64, c: i64) -> (r: bool)
    requires
        -10_000_000_000 <= a <= 10_000_000_000,
        -10_000_000_000 <= b <= 10_000_000_000,
        -10_000_000_000 <= c <= 10_000_000_000,
    ensures
        r == even(a + b + c),
{
    let shifted: i64 = a + b + c + 30_000_000_000;
    shifted % 2 == 0
}

impl Pattern {
    /// The pattern's own transform.
    pub open spec fn transform_spec(self) -> Matrix<4> {
        match self {
            Pattern::Stripe { transform, .. } => transform,
            Pattern::Check3D { transform, .. } => transform,
            Pattern::Test { transform } => transform,
        }
    }

    /// The pattern's transform can be inverted.
    pub open spec fn wf(self) -> bool {
        self.transform_spec().invertible()
    }

    /// The colour at a point of the pattern's own space. Stripes
    /// alternate with the floor of `x`; checks with the sum of the floors
    /// of the three coordinates, each taken as zero where it is within
    /// the tolerance; the test pattern gives the coordinates themselves.
    pub open spec fn colour_at(self, point: Tuple) -> Colour {
        match self {
            Pattern::Check3D { colour_a, colour_b, .. } => {
                if even(
                    snapped(point.x).floor_spec() + snapped(point.y).floor_spec() + snapped(
                        point.z,
                    ).floor_spec(),
                ) {
                    colour_a
                } else {
                    colour_b
                }
            },
            Pattern::Stripe { colour_a, colour_b, .. } => {
                if even(point.x.floor_spec()) {
                    colour_a
                } else {
                    colour_b
                }
            },
            Pattern::Test { .. } => Colour { red: point.x, green: point.y, blue: point.z },
        }
    }

    /// The colour at a point of the world on `object`.
    pub open spec fn colour_on(self, object: Shape, point: Tuple) -> Colour {
        pattern_colour_on(self, object, point)
    }

    pub fn transform(&self) -> (r: &Matrix<4>)
        ensures
            *r == self.transform_spec(),
    {
        match self {
            Pattern::Stripe { transform, .. } => transform,
            Pattern::Check3D { transform, .. } => transform,
            Pattern::Test { transform } => transform,
        }
    }

    pub fn is_wf(&self) -> (r: bool)
        ensures
            r == self.wf(),
    {
        self.transform().is_invertible()
    }

    /// The colour at a point of the pattern's own space.
    pub fn pattern_at(&self, point: &Tuple) -> (r: Colour)
        ensures
            r == self.colour_at(*point),
    {
        match self {
            Pattern::Check3D { colour_a, colour_b, .. } => {
                let x = snap(point.x);
                let y = snap(point.y);
                let z = snap(point.z);
                if even_sum(x.floor(), y.floor(), z.floor()) {
                    *colour_a
                } else {
                    *colour_b
                }
            },
            Pattern::Stripe { colour_a, colour_b, .. } => {
                if even_sum(point.x.floor(), 0, 0) {
                    *colour_a
                } else {
                    *colour_b
                }
            },
            Pattern::Test { .. } => Colour::new(point.x, point.y, point.z),
        }
    }

    /// The colour at a point of the world on `object`.
    pub fn pattern_at_object(&self, object: &Shape, point: &Tuple) -> (r: Colour)
        requires
            self.wf(),
            object.transform.invertible(),
        ensures
            r == self.colour_on(*object, *point),
    {
        reveal(pattern_colour_on);
        let object_space_point = object.transform.inverse().mul_tuple(point);
        let pattern_point = self.transform().inverse().mul_tuple(&object_space_point);
        self.pattern_at(&pattern_point)
    }
}

/// The unit normal of `shape` at a point of the world: the point is taken
/// into the shape's space, the normal there is taken back by the
/// transpose of the inverse, and brought to length one.
#[verifier::opaque]
pub open spec fn normal_of(shape: Shape, point: Tuple) -> Tuple {
    let inverse = shape.transform.inverted();
    inverse.transposed().apply(shape.local_normal(inverse.apply(point))).normalised()
}

/// The intersections of `shape` with a ray of the world: those of the
/// shape's kind with the ray taken into the shape's space.
#[verifier::opaque]
pub open spec fn hits_of(shape: Shape, r: Ray, object: usize) -> Seq<Intersection> {
    let local = r.transformed(shape.transform.inverted());
    match shape.shape {
        ShapeType::Sphere => sphere::hits(local, object),
        ShapeType::Plane => plane::hits(local, object),
    }
}

/// The colour of `pattern` at a point of the world on `object`: the point
/// is taken into the object's space, then into the pattern's.
#[verifier::opaque]
pub open spec fn pattern_colour_on(pattern: Pattern, object: Shape, point: Tuple) -> Colour {
    pattern.colour_at(
        pattern.transform_spec().inverted().apply(object.transform.inverted().apply(point)),
    )
}

impl Material {
    /// White, ambient 0.1, diffuse 0.9, specular 0.9, shininess 200,
    /// neither reflective nor transparent, the refractive index of a
    /// vacuum, no pattern.
    pub open spec fn default_spec() -> Material {
        Material {
            colour: Colour::white_spec(),
            ambient: Fixed { raw: 100_000_000 },
            diffuse: Fixed { raw: 900_000_000 },
            specular: Fixed { raw: 900_000_000 },
            shininess: 200,
            reflectivity: Fixed::zero_spec(),
            refractive_index: Fixed::one_spec(),
            transparency: Fixed::zero_spec(),
            pattern: None,
        }
    }

    /// The material's pattern, if it has one, can be used.
    pub open spec fn wf(self) -> bool {
        match self.pattern {
            Some(p) => p.wf(),
            None => true,
        }
    }

    pub fn is_wf(&self) -> (r: bool)
        ensures
            r == self.wf(),
    {
        match &self.pattern {
            Some(p) => p.is_wf(),
            None => true,
        }
    }
}

impl Default for Material {
    fn default() -> (r: Material)
        ensures
            r == Material::default_spec(),
    {
        Material {
            colour: Colour::white(),
            ambient: Fixed::from_raw(100_000_000),
            diffuse: Fixed::from_raw(900_000_000),
            specular: Fixed::from_raw(900_000_000),
            shininess: 200,
            reflectivity: Fixed::zero(),
            refractive_index: Fixed::one(),
            transparency: Fixed::zero(),
            pattern: None,
        }
    }
}

impl Shape {
    /// A sphere with the default material and the identity transform.
    pub open spec fn default_spec() -> Shape {
        Shape {
            material: Material::default_spec(),
            transform: Matrix::<4>::identity_spec(),
            shape: ShapeType::Sphere,
        }
    }

    /// The transform is affine and invertible, and the material can be
    /// used.
    pub open spec fn wf(self) -> bool {
        self.transform.usable() && self.material.wf()
    }

    /// The normal in the shape's own space.
    pub open spec fn local_normal(self, point: Tuple) -> Tuple {
        match self.shape {
            ShapeType::Sphere => sphere::local_normal(point),
            ShapeType::Plane => plane::local_normal(),
        }
    }

    /// The unit normal at a point of the world.
    pub open spec fn normal(self, point: Tuple) -> Tuple {
        normal_of(self, point)
    }

    /// The intersections of the shape with a ray of the world, each
    /// naming the shape as `object`.
    pub open spec fn hits(self, r: Ray, object: usize) -> Seq<Intersection> {
        hits_of(self, r, object)
    }

    /// Whether the ray can be intersected with the shape: the transform
    /// can be inverted, and for a sphere the ray, taken into the sphere's
    /// own space, has a point as its origin and a vector as its
    /// direction.
    pub open spec fn meets(self, r: Ray) -> bool {
        &&& self.transform.invertible()
        &&& self.shape == ShapeType::Sphere ==> {
            let local = r.transformed(self.transform.inverted());
            local.origin.is_point_spec() && local.direction.is_vector_spec()
        }
    }

    pub fn is_wf(&self) -> (r: bool)
        ensures
            r == self.wf(),
    {
        self.transform.is_usable() && self.material.is_wf()
    }

    /// The unit normal of the shape at a point of the world.
    pub fn normal_at(&self, point: &Tuple) -> (r: Tuple)
        requires
            self.transform.invertible(),
        ensures
            r == self.normal(*point),
            r.w == Fixed::zero_spec(),
    {
        reveal(normal_of);
        let transform_inverse = self.transform.inverse();
        let object_space_point = transform_inverse.mul_tuple(point);
        let object_space_normal = match self.shape {
            ShapeType::Sphere => sphere::normal_at(&object_space_point),
            ShapeType::Plane => plane::normal_at(),
        };
        let world_space_normal = transform_inverse.transpose().mul_tuple(&object_space_normal);
        world_space_normal.normalise()
    }

    /// The intersections of the shape with a ray of the world, each
    /// naming the shape as `object`.
    pub fn intersects(&self, r: &Ray, object: usize) -> (xs: Vec<Intersection>)
        requires
            self.meets(*r),
        ensures
            xs@ == self.hits(*r, object),
            xs@.len() <= 2,
            forall|i: int| 0 <= i < xs@.len() ==> (#[trigger] xs@[i]).object == object,
            self.shape == ShapeType::Plane ==> xs@.len() == (if plane::parallel(
                r.transformed(self.transform.inverted()),
            ) {
                0nat
            } else {
                1nat
            }),
            self.shape == ShapeType::Sphere ==> xs@.len() == (if sphere::discriminant(
                r.transformed(self.transform.inverted()),
            ).raw < 0 {
                0nat
            } else {
                2nat
            }),
    {
        reveal(hits_of);
        let transform_inverse = self.transform.inverse();
        let object_space_ray = r.transform(&transform_inverse);
        match self.shape {
            ShapeType::Sphere => sphere::intersects(&object_space_ray, object),
            ShapeType::Plane => plane::intersects(&object_space_ray, object),
        }
    }
}

/// A well-formed ray can be intersected with every shape whose transform
/// can be used.
pub proof fn lemma_usable_meets(shape: Shape, r: Ray)
    requires
        shape.transform.usable(),
        r.wf(),
    ensures
        shape.meets(r),
{
    lemma_inverse_affine(shape.transform);
    lemma_transformed_wf(r, shape.transform.inverted());
}

impl Default for Shape {
    fn default() -> (r: Shape)
        ensures
            r == Shape::default_spec(),
            r.wf(),
    {
        proof {
            lemma_identity_usable();
        }
        Shape {
            material: Material::default(),
            transform: Matrix::<4>::identity(),
            shape: ShapeType::Sphere,
        }
    }
}

} // verus!
