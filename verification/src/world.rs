//! The world of shapes and lights, the camera, and the render.
use crate::canvas::Canvas;
use crate::canvas::Colour;
use crate::fixed::Fixed;
use crate::lighting::colour_at;
use crate::lighting::colour_of;
use crate::lighting::PointLight;
use crate::matrices::lemma_affine_keeps_w;
use crate::matrices::lemma_identity_usable;
use crate::matrices::lemma_inverse_affine;
use crate::matrices::lemma_product_affine;
use crate::matrices::lemma_product_proper;
use crate::matrices::lemma_scale_determinant;
use crate::matrices::scale;
use crate::matrices::scale_spec;
use crate::matrices::translation;
use crate::matrices::translation_spec;
use crate::matrices::Matrix;
use crate::rays::Ray;
use crate::shapes::Material;
use crate::shapes::Shape;
use crate::shapes::ShapeType;
use crate::tuple::Tuple;
use crate::REFLECTION_RECURSION_DEPTH;
use rayon::iter::IndexedParallelIterator;
use rayon::iter::IntoParallelIterator;
use rayon::iter::ParallelIterator;
use vstd::arithmetic::div_mod::lemma_fundamental_div_mod;
use vstd::arithmetic::div_mod::lemma_fundamental_div_mod_converse;
use vstd::arithmetic::div_mod::lemma_multiply_divide_lt;
use vstd::prelude::*;

verus! {

pub struct World {
    pub objects: Vec<Shape>,
    pub lights: Vec<PointLight>,
}

/// What a world holds: its shapes and its lights, each in order.
pub struct Scene {
    pub objects: Seq<Shape>,
    pub lights: Seq<PointLight>,
}

#[derive(Debug, PartialEq, Clone, Copy)]
pub struct Camera {
    pub hsize: usize,
    pub vsize: usize,
    pub field_of_view: Fixed,
    pub transform: Matrix<4>,
    pub pixel_size: Fixed,
    pub half_width: Fixed,
    pub half_height: Fixed,
}

impl View for World {
    type V = Scene;

    open spec fn view(&self) -> Scene {
        Scene { objects: self.objects@, lights: self.lights@ }
    }
}

/// Half the extent of the view at distance one: the tangent of half the
/// field of view.
pub open spec fn half_view_of(fov: Fixed) -> Fixed {
    fov.over(Fixed::from_int_spec(2)).tangent()
}

/// Width over height.
pub open spec fn aspect_of(hsize: usize, vsize: usize) -> Fixed {
    Fixed::from_int_spec(hsize as int).over(Fixed::from_int_spec(vsize as int))
}

/// Half the width of the canvas at distance one.
pub open spec fn half_width_of(hsize: usize, vsize: usize, fov: Fixed) -> Fixed {
    if aspect_of(hsize, vsize).raw >= Fixed::one_spec().raw {
        half_view_of(fov)
    } else {
        half_view_of(fov).times(aspect_of(hsize, vsize))
    }
}

/// Half the height of the canvas at distance one.
pub open spec fn half_height_of(hsize: usize, vsize: usize, fov: Fixed) -> Fixed {
    if aspect_of(hsize, vsize).raw >= Fixed::one_spec().raw {
        half_view_of(fov).over(aspect_of(hsize, vsize))
    } else {
        half_view_of(fov)
    }
}

/// The side of a pixel at distance one.
pub open spec fn pixel_size_of(hsize: usize, vsize: usize, fov: Fixed) -> Fixed {
    half_width_of(hsize, vsize, fov).times(Fixed::from_int_spec(2)).over(
        Fixed::from_int_spec(hsize as int),
    )
}

/// The ray from the camera through the middle of the pixel in column `x`
/// of row `y`.
#[verifier::opaque]
pub open spec fn pixel_ray(cam: Camera, x: usize, y: usize) -> Ray {
    let half = Fixed { raw: 500_000_000 };
    let x_offset = Fixed::from_int_spec(x as int).plus(half).times(cam.pixel_size);
    let y_offset = Fixed::from_int_spec(y as int).plus(half).times(cam.pixel_size);
    let world_x = cam.half_width.minus(x_offset);
    let world_y = cam.half_height.minus(y_offset);
    let inverse = cam.transform.inverted();
    let px = inverse.apply(Tuple::point_spec(world_x, world_y, Fixed::one_spec().negated()));
    let origin = inverse.apply(
        Tuple::point_spec(Fixed::zero_spec(), Fixed::zero_spec(), Fixed::zero_spec()),
    );
    Ray { origin, direction: px.minus(origin).normalised() }
}

/// The transform of a camera that stands at `from`, looks at `to`, and
/// has `up` above it: the orientation, after the move of `from` to the
/// origin.
#[verifier::opaque]
pub open spec fn view_transform_of(from: Tuple, to: Tuple, up: Tuple) -> Matrix<4> {
    let forward = to.minus(from).normalised();
    let left = forward.cross_spec(up.normalised());
    let true_up = left.cross_spec(forward);
    let o = Fixed::one_spec();
    let n = Fixed::zero_spec();
    let orientation = Matrix {
        data: [
            [left.x, left.y, left.z, n],
            [true_up.x, true_up.y, true_up.z, n],
            [forward.x.negated(), forward.y.negated(), forward.z.negated(), n],
            [n, n, n, o],
        ],
    };
    orientation.product(translation_spec(from.x.negated(), from.y.negated(), from.z.negated()))
}

/// The colour of the pixel with the running number `i`, counted row by
/// row.
pub open spec fn pixel_colour_of(cam: Camera, s: Scene, i: int) -> Colour {
    colour_of(
        s,
        pixel_ray(cam, (i % cam.hsize as int) as usize, (i / cam.hsize as int) as usize),
        REFLECTION_RECURSION_DEPTH as nat,
    )
}

impl Camera {
    /// A camera with its three derived sizes.
    pub open spec fn new_spec(hsize: usize, vsize: usize, fov: Fixed, t: Matrix<4>) -> Camera {
        Camera {
            hsize,
            vsize,
            field_of_view: fov,
            transform: t,
            half_width: half_width_of(hsize, vsize, fov),
            half_height: half_height_of(hsize, vsize, fov),
            pixel_size: pixel_size_of(hsize, vsize, fov),
        }
    }

    /// A camera of no size, with every number and every entry zero.
    pub open spec fn blank_spec() -> Camera {
        let z = Fixed::zero_spec();
        Camera {
            hsize: 0,
            vsize: 0,
            field_of_view: z,
            transform: Matrix { data: [[z, z, z, z], [z, z, z, z], [z, z, z, z], [z, z, z, z]] },
            pixel_size: z,
            half_width: z,
            half_height: z,
        }
    }

    pub fn new(hsize: usize, vsize: usize, fov: Fixed, t: Matrix<4>) -> (r: Camera)
        ensures
            r == Camera::new_spec(hsize, vsize, fov, t),
    {
        Camera {
            hsize,
            vsize,
            field_of_view: fov,
            transform: t,
            half_width: Camera::half_width(hsize, vsize, fov),
            half_height: Camera::half_height(hsize, vsize, fov),
            pixel_size: Camera::pixel_size(hsize, vsize, fov),
        }
    }

    pub fn half_width(hsize: usize, vsize: usize, fov: Fixed) -> (r: Fixed)
        ensures
            r == half_width_of(hsize, vsize, fov),
    {
        let half_view = (fov / Fixed::from_int(2)).tan();
        let aspect = Fixed::from_usize(hsize) / Fixed::from_usize(vsize);
        if aspect.raw >= Fixed::one().raw {
            half_view
        } else {
            half_view * aspect
        }
    }

    pub fn half_height(hsize: usize, vsize: usize, fov: Fixed) -> (r: Fixed)
        ensures
            r == half_height_of(hsize, vsize, fov),
    {
        let half_view = (fov / Fixed::from_int(2)).tan();
        let aspect = Fixed::from_usize(hsize) / Fixed::from_usize(vsize);
        if aspect.raw >= Fixed::one().raw {
            half_view / aspect
        } else {
            half_view
        }
    }

    pub fn pixel_size(hsize: usize, vsize: usize, fov: Fixed) -> (r: Fixed)
        ensures
            r == pixel_size_of(hsize, vsize, fov),
    {
        Camera::half_width(hsize, vsize, fov) * Fixed::from_int(2) / Fixed::from_usize(hsize)
    }

    /// The ray from the camera through the middle of the pixel in column
    /// `x` of row `y`.
    pub fn ray_for_pixel(&self, x: usize, y: usize) -> (r: Ray)
        requires
            self.transform.invertible(),
        ensures
            r == pixel_ray(*self, x, y),
            self.transform.usable() ==> r.wf(),
    {
        reveal(pixel_ray);
        let half = Fixed::from_raw(500_000_000);
        let x_offset = (Fixed::from_usize(x) + half) * self.pixel_size;
        let y_offset = (Fixed::from_usize(y) + half) * self.pixel_size;
        let world_x = self.half_width - x_offset;
        let world_y = self.half_height - y_offset;
        let target = Tuple::point_new(world_x, world_y, Fixed::one().negate());
        let centre = Tuple::point_new(Fixed::zero(), Fixed::zero(), Fixed::zero());
        let px = self.transform.inverse().mul_tuple(&target);
        let origin = self.transform.inverse().mul_tuple(&centre);
        proof {
            if self.transform.usable() {
                lemma_inverse_affine(self.transform);
                lemma_affine_keeps_w(self.transform.inverted(), centre);
            }
        }
        let direction = (px - origin).normalise();
        Ray::new(origin, direction)
    }
}

impl Default for Camera {
    fn default() -> (r: Camera)
        ensures
            r == Camera::blank_spec(),
    {
        let z = Fixed::zero();
        Camera {
            hsize: 0,
            vsize: 0,
            field_of_view: z,
            transform: Matrix { data: [[z, z, z, z], [z, z, z, z], [z, z, z, z], [z, z, z, z]] },
            pixel_size: z,
            half_width: z,
            half_height: z,
        }
    }
}

impl World {
    /// Every shape of the world can be used.
    pub open spec fn wf(self) -> bool {
        forall|i: int| 0 <= i < self.objects@.len() ==> (#[trigger] self.objects@[i]).wf()
    }

    /// The outer sphere of the default world: the unit sphere, of a
    /// greenish, mostly diffuse material.
    pub open spec fn default_outer() -> Shape {
        Shape {
            material: Material {
                colour: Colour {
                    red: Fixed { raw: 800_000_000 },
                    green: Fixed { raw: 1_000_000_000 },
                    blue: Fixed { raw: 600_000_000 },
                },
                diffuse: Fixed { raw: 700_000_000 },
                specular: Fixed { raw: 200_000_000 },
                ..Material::default_spec()
            },
            transform: Matrix::<4>::identity_spec(),
            shape: ShapeType::Sphere,
        }
    }

    /// The inner sphere of the default world: half the size, of the
    /// default material.
    pub open spec fn default_inner() -> Shape {
        let half = Fixed { raw: 500_000_000 };
        Shape { transform: scale_spec(half, half, half), ..Shape::default_spec() }
    }

    /// The light of the default world: white, at `(-10, 10, -10)`.
    pub open spec fn default_light() -> PointLight {
        PointLight {
            intensity: Colour::white_spec(),
            position: Tuple::point_spec(
                Fixed::from_int_spec(-10),
                Fixed::from_int_spec(10),
                Fixed::from_int_spec(-10),
            ),
        }
    }

    pub fn new() -> (r: World)
        ensures
            r.objects@.len() == 0,
            r.lights@.len() == 0,
    {
        World { objects: Vec::new(), lights: Vec::new() }
    }

    pub fn is_wf(&self) -> (r: bool)
        ensures
            r == self.wf(),
    {
        let mut k: usize = 0;
        while k < self.objects.len()
            invariant
                k <= self.objects@.len(),
                forall|i: int| 0 <= i < k ==> (#[trigger] self.objects@[i]).wf(),
            decreases self.objects@.len() - k,
        {
            if !self.objects[k].is_wf() {
                return false;
            }
            k = k + 1;
        }
        true
    }
}

impl Default for World {
    fn default() -> (r: World)
        ensures
            r.objects@ == seq![World::default_outer(), World::default_inner()],
            r.lights@ == seq![World::default_light()],
            r.wf(),
    {
        proof {
            let half = Fixed { raw: 500_000_000 };
            lemma_identity_usable();
            lemma_scale_determinant(half, half, half);
            assert(half.times(half).raw == 250_000_000) by {
                assert(500_000_000int * 500_000_000 == 250_000_000_000_000_000) by (nonlinear_arith);
            }
            assert(half.times(half.times(half)).raw == 125_000_000) by {
                assert(500_000_000int * 250_000_000 == 125_000_000_000_000_000) by (nonlinear_arith);
            }
        }
        let s1 = Shape {
            material: Material {
                colour: Colour::new(
                    Fixed::from_raw(800_000_000),
                    Fixed::from_raw(1_000_000_000),
                    Fixed::from_raw(600_000_000),
                ),
                diffuse: Fixed::from_raw(700_000_000),
                specular: Fixed::from_raw(200_000_000),
                ..Material::default()
            },
            transform: Matrix::<4>::identity(),
            ..crate::shapes::sphere::default()
        };
        let half = Fixed::from_raw(500_000_000);
        let s2 = Shape { transform: scale(half, half, half), ..crate::shapes::sphere::default() };
        let light = PointLight::new(
            Colour::new(Fixed::one(), Fixed::one(), Fixed::one()),
            Tuple::point_new(Fixed::from_int(-10), Fixed::from_int(10), Fixed::from_int(-10)),
        );
        let mut objects: Vec<Shape> = Vec::new();
        objects.push(s1);
        objects.push(s2);
        let mut lights: Vec<PointLight> = Vec::new();
        lights.push(light);
        assert(objects@ =~= seq![World::default_outer(), World::default_inner()]);
        assert(lights@ =~= seq![World::default_light()]);
        World { objects, lights }
    }
}

/// The transform of a camera that stands at `from`, looks at `to` and
/// has `up` above it.
pub fn view_transform(from: &Tuple, to: &Tuple, up: &Tuple) -> (r: Matrix<4>)
    ensures
        r == view_transform_of(*from, *to, *up),
        r.affine(),
        r.proper(),
{
    reveal(view_transform_of);
    let forward = (*to - *from).normalise();
    let left = forward.cross(&up.normalise());
    let true_up = left.cross(&forward);
    let o = Fixed::one();
    let n = Fixed::zero();
    let orientation = Matrix {
        data: [
            [left.x, left.y, left.z, n],
            [true_up.x, true_up.y, true_up.z, n],
            [forward.x.negate(), forward.y.negate(), forward.z.negate(), n],
            [n, n, n, o],
        ],
    };
    let shift = translation(from.x.negate(), from.y.negate(), from.z.negate());
    proof {
        lemma_product_affine(orientation, shift);
        lemma_product_proper(orientation, shift);
    }
    orientation.mul_matrix(&shift)
}

/// The colour of the pixel with the running number `i`, counted row by
/// row.
pub fn pixel_colour(cam: &Camera, world: &World, i: usize) -> (c: Colour)
    requires
        cam.transform.usable(),
        world.wf(),
        cam.hsize > 0,
    ensures
        c == pixel_colour_of(*cam, world@, i as int),
{
    let x = i % cam.hsize;
    let y = i / cam.hsize;
    let ray = cam.ray_for_pixel(x, y);
    colour_at(world, &ray, REFLECTION_RECURSION_DEPTH)
}

/// Calls rayon's `into_par_iter`, `map` and `collect_into_vec` on the
/// running numbers below `count`. The contract states that the vector
/// holds, at each position, what `pixel_colour` returns for that
/// position: rayon runs the closure once for each item of the range, on
/// whichever thread, and `collect_into_vec` keeps the items in the
/// range's order.
#[verifier::external_body]
fn trace_pixels(cam: &Camera, world: &World, count: usize) -> (out: Vec<Colour>)
    requires
        cam.transform.usable(),
        world.wf(),
        cam.hsize > 0 || count == 0,
    ensures
        out@.len() == count,
        forall|i: int| 0 <= i < count ==> out@[i] == pixel_colour_of(*cam, world@, i),
{
    let mut out: Vec<Colour> = Vec::new();
    (0..count).into_par_iter().map(|i| pixel_colour(cam, world, i)).collect_into_vec(&mut out);
    out
}

/// Renders the world as the camera sees it: every pixel of the canvas
/// gets the colour of the ray through its middle.
pub fn render(cam: &Camera, world: &World) -> (image: Canvas)
    requires
        cam.transform.usable(),
        world.wf(),
        cam.hsize * cam.vsize <= usize::MAX,
    ensures
        image.wf(),
        image.width == cam.hsize,
        image.height == cam.vsize,
        forall|x: int, y: int|
            0 <= x < cam.hsize && 0 <= y < cam.vsize ==> image.pixel(x, y) == pixel_colour_of(
                *cam,
                world@,
                y * cam.hsize + x,
            ),
{
    let mut image = Canvas::new(cam.hsize, cam.vsize);
    let count = cam.hsize * cam.vsize;
    assert(cam.hsize > 0 || count == 0) by (nonlinear_arith)
        requires
            count == cam.hsize * cam.vsize,
    ;
    let colours = trace_pixels(cam, world, count);
    let mut i: usize = 0;
    while i < count
        invariant
            i <= count,
            count == cam.hsize * cam.vsize,
            cam.hsize > 0 || count == 0,
            colours@.len() == count,
            image.wf(),
            image.width == cam.hsize,
            image.height == cam.vsize,
            forall|j: int|
                0 <= j < i ==> image.pixel(j % cam.hsize as int, j / cam.hsize as int)
                    == #[trigger] colours@[j],
        decreases count - i,
    {
        let x = i % cam.hsize;
        let y = i / cam.hsize;
        proof {
            lemma_multiply_divide_lt(i as int, cam.hsize as int, cam.vsize as int);
            lemma_fundamental_div_mod(i as int, cam.hsize as int);
        }
        let ghost before = image;
        image.write_pixel((x, y), colours[i]);
        proof {
            assert forall|j: int| 0 <= j < i + 1 implies image.pixel(
                j % cam.hsize as int,
                j / cam.hsize as int,
            ) == #[trigger] colours@[j] by {
                if j < i {
                    lemma_multiply_divide_lt(j, cam.hsize as int, cam.vsize as int);
                    lemma_fundamental_div_mod(j, cam.hsize as int);
                    assert(before.pixel(j % cam.hsize as int, j / cam.hsize as int) == colours@[j]);
                }
            }
        }
        i = i + 1;
    }
    proof {
        assert forall|x: int, y: int| 0 <= x < cam.hsize && 0 <= y < cam.vsize implies image.pixel(
            x,
            y,
        ) == pixel_colour_of(*cam, world@, y * cam.hsize + x) by {
            let j = y * cam.hsize + x;
            lemma_fundamental_div_mod_converse(j, cam.hsize as int, y, x);
            assert(j < count) by (nonlinear_arith)
                requires
                    j == y * cam.hsize + x,
                    0 <= x < cam.hsize,
                    0 <= y < cam.vsize,
                    count == cam.hsize * cam.vsize,
            ;
            assert(image.pixel(j % cam.hsize as int, j / cam.hsize as int) == colours@[j]);
        }
    }
    image
}

} // verus!
