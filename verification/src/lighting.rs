//! The shading of a point that a ray has hit: the light that reaches it
//! directly, and what it reflects and refracts.
//!
//! `colour_at`, `shade_hit`, `reflected_colour` and `refracted_colour`
//! call each other; the count of remaining recursions goes down by one
//! with every reflected or refracted ray, and at zero such a ray
//! contributes black.
use crate::canvas::Colour;
use crate::fixed::Fixed;
use crate::rays::all_below;
use crate::rays::all_hits;
use crate::rays::all_meet;
use crate::rays::hit_spec;
use crate::rays::lemma_position_is_point;
use crate::rays::lemma_wf_all_meet;
use crate::rays::Intersection;
use crate::rays::Ray;
use crate::shapes::Material;
use crate::shapes::Shape;
use crate::tuple::lemma_combined_is_vector;
use crate::tuple::lemma_offset_is_point;
use crate::tuple::lemma_reflected_is_vector;
use crate::tuple::Tuple;
use crate::world::Scene;
use crate::world::World;
use vstd::prelude::*;

verus! {

/// Distance, in raw units, by which a hit point is moved off the surface
/// before a ray is cast from it.
pub const ACNE_EPSILON: i64 = 100;

#[derive(Debug, PartialEq, Clone, Copy)]
pub struct PointLight {
    pub intensity: Colour,
    pub position: Tuple,
}

/// What shading needs to know of a hit, computed once.
#[derive(Debug, Clone, Copy)]
pub struct PreComputation {
    pub object: usize,
    pub point: Tuple,
    pub eye_vec: Tuple,
    pub reflect_vec: Tuple,
    pub normal: Tuple,
    pub t: Fixed,
    pub inside: bool,
    pub over_point: Tuple,
    pub under_point: Tuple,
    pub n1: Fixed,
    pub n2: Fixed,
}

impl PointLight {
    pub fn new(intensity: Colour, position: Tuple) -> (r: PointLight)
        ensures
            r == (PointLight { intensity, position }),
    {
        PointLight { intensity, position }
    }
}

impl PreComputation {
    /// The three directions are vectors and the two offset points are
    /// points, exactly.
    pub open spec fn wf(self) -> bool {
        &&& self.eye_vec.w == Fixed::zero_spec()
        &&& self.normal.w == Fixed::zero_spec()
        &&& self.reflect_vec.w == Fixed::zero_spec()
        &&& self.over_point.w == Fixed::one_spec()
        &&& self.under_point.w == Fixed::one_spec()
    }
}

/// The first position at or behind `from` at which `stack` holds
/// `object`.
pub open spec fn first_at(stack: Seq<usize>, object: usize, from: int) -> Option<int>
    decreases stack.len() - from,
{
    if from < 0 || from >= stack.len() {
        None
    } else if stack[from] == object {
        Some(from)
    } else {
        first_at(stack, object, from + 1)
    }
}

/// The stack of entered shapes after one more crossing of `object`'s
/// surface: without `object` where the ray was inside it, with it on top
/// where the ray was not.
pub open spec fn toggled(stack: Seq<usize>, object: usize) -> Seq<usize> {
    match first_at(stack, object, 0) {
        Some(k) => stack.remove(k),
        None => stack.push(object),
    }
}

/// The shapes that the ray is inside of after the first `n` of its
/// intersections, the one entered last on top.
pub open spec fn containers(xs: Seq<Intersection>, n: nat) -> Seq<usize>
    decreases n,
{
    if n == 0 {
        Seq::<usize>::empty()
    } else {
        toggled(containers(xs, (n - 1) as nat), xs[n - 1].object)
    }
}

/// The refractive index of the shape on top of the stack, or that of a
/// vacuum where the stack is empty.
pub open spec fn medium(stack: Seq<usize>, objects: Seq<Shape>) -> Fixed {
    if stack.len() == 0 {
        Fixed::one_spec()
    } else {
        objects[stack.last() as int].material.refractive_index
    }
}

/// The first position at or behind `from` at which `xs` holds `hit`.
pub open spec fn first_match(xs: Seq<Intersection>, hit: Intersection, from: int) -> Option<int>
    decreases xs.len() - from,
{
    if from < 0 || from >= xs.len() {
        None
    } else if xs[from] == hit {
        Some(from)
    } else {
        first_match(xs, hit, from + 1)
    }
}

/// The refractive indices on the two sides of the surface at `hit`: of
/// what the ray leaves, and of what it enters. Both are found by walking
/// the intersections up to the hit and keeping the stack of shapes that
/// the ray is inside of. Where `hit` is not among `xs`, both are zero.
pub open spec fn refractive_pair(hit: Intersection, xs: Seq<Intersection>, objects: Seq<Shape>) -> (
    Fixed,
    Fixed,
) {
    match first_match(xs, hit, 0) {
        Some(k) => (
            medium(containers(xs, k as nat), objects),
            medium(containers(xs, (k + 1) as nat), objects),
        ),
        None => (Fixed::zero_spec(), Fixed::zero_spec()),
    }
}

/// The record of the hit `i` of the ray `r`, where `xs` holds all
/// intersections of the ray in ascending order.
#[verifier::opaque]
pub open spec fn prepared(
    i: Intersection,
    r: Ray,
    xs: Seq<Intersection>,
    objects: Seq<Shape>,
) -> PreComputation {
    let point = r.position_spec(i.t);
    let outward = objects[i.object as int].normal(point);
    let eye_vec = r.direction.negated();
    let inside = outward.dot_spec(eye_vec).raw < 0;
    let normal = if inside {
        outward.negated()
    } else {
        outward
    };
    let nudge = normal.scaled(Fixed { raw: ACNE_EPSILON });
    let pair = refractive_pair(i, xs, objects);
    PreComputation {
        object: i.object,
        t: i.t,
        normal,
        point,
        eye_vec,
        reflect_vec: normal.reflected(r.direction),
        inside,
        over_point: point.plus(nudge),
        under_point: point.minus(nudge),
        n1: pair.0,
        n2: pair.1,
    }
}

/// The colour that one light gives a point of a surface: ambient, and
/// where the point is not in shadow, diffuse and specular as well.
#[verifier::opaque]
pub open spec fn lighting_of(
    material: Material,
    object: Shape,
    light: PointLight,
    posn: Tuple,
    eye_vec: Tuple,
    normal: Tuple,
    in_shadow: bool,
) -> Colour {
    let light_vec = light.position.minus(posn).normalised();
    let surface = match material.pattern {
        None => material.colour,
        Some(p) => p.colour_on(object, posn),
    };
    let effective_colour = surface.blend(light.intensity);
    let ambient_term = effective_colour.scaled(material.ambient);
    if in_shadow {
        ambient_term
    } else {
        let light_normal_dot = light_vec.dot_spec(normal);
        let diffuse = if light_normal_dot.raw < 0 {
            Colour::black_spec()
        } else {
            effective_colour.scaled(material.diffuse).scaled(light_normal_dot)
        };
        let reflect_eye_dot = normal.reflected(light_vec.negated()).dot_spec(eye_vec);
        let specular = if light_normal_dot.raw < 0 || reflect_eye_dot.raw <= 0 {
            Colour::black_spec()
        } else {
            light.intensity.scaled(material.specular).scaled(
                reflect_eye_dot.power(material.shininess as nat),
            )
        };
        ambient_term.plus(diffuse).plus(specular)
    }
}

/// Whether something stands between the point and the first light of
/// the scene: the nearest hit of the ray from the point toward the light
/// is nearer than the light.
#[verifier::opaque]
pub open spec fn shadowed(s: Scene, p: Tuple) -> bool {
    let distance_to_light = s.lights[0].position.minus(p).magnitude_spec();
    match hit_spec(all_hits(light_ray(s, p), s.objects)) {
        None => false,
        Some(h) => h.t.raw < distance_to_light.raw,
    }
}

/// The ray from the point toward the first light of the scene.
pub open spec fn light_ray(s: Scene, p: Tuple) -> Ray {
    Ray { origin: p, direction: s.lights[0].position.minus(p).normalised() }
}

/// Whether the lighting can be computed: the pattern, where the
/// material has one, can be evaluated on the object, and every dot
/// product and reflection that is taken is of vectors.
pub open spec fn lighting_defined(
    material: Material,
    object: Shape,
    light: PointLight,
    posn: Tuple,
    eye_vec: Tuple,
    normal: Tuple,
    in_shadow: bool,
) -> bool {
    let light_vec = light.position.minus(posn).normalised();
    &&& material.pattern.is_some() ==> material.wf() && object.transform.invertible()
    &&& !in_shadow ==> normal.is_vector_spec()
    &&& !in_shadow && light_vec.dot_spec(normal).raw >= 0 ==> eye_vec.is_vector_spec()
        && normal.reflected(light_vec.negated()).is_vector_spec()
}

/// `n^2 (1 - cos^2)`: the squared sine of the angle of the refracted ray,
/// for the ratio `n` of the two refractive indices and the cosine of the
/// angle of the incoming one.
pub open spec fn sin2_t_of(n: Fixed, cos_i: Fixed) -> Fixed {
    n.times(n).times(Fixed::one_spec().minus(cos_i.times(cos_i)))
}

/// `r0 + (1 - r0) (1 - cosine)^5`, where `r0` is the square of
/// `(n1 - n2) / (n1 + n2)`.
pub open spec fn schlick_formula(n1: Fixed, n2: Fixed, cosine: Fixed) -> Fixed {
    let root = n1.minus(n2).over(n1.plus(n2));
    let r0 = root.times(root);
    r0.plus(Fixed::one_spec().minus(r0).times(Fixed::one_spec().minus(cosine).power(5)))
}

/// The share of the light that the surface reflects: one under total
/// internal reflection; else the formula, with the cosine of the
/// refracted ray where the ray leaves the denser medium.
#[verifier::opaque]
pub open spec fn schlick_of(c: PreComputation) -> Fixed {
    let cosine = c.eye_vec.dot_spec(c.normal);
    if c.n1.raw > c.n2.raw {
        let sin2_t = sin2_t_of(c.n1.over(c.n2), cosine);
        if sin2_t.raw > Fixed::one_spec().raw {
            Fixed::one_spec()
        } else {
            schlick_formula(c.n1, c.n2, Fixed::one_spec().minus(sin2_t).root())
        }
    } else {
        schlick_formula(c.n1, c.n2, cosine)
    }
}

/// The ray that a hit refracts into the surface.
pub open spec fn refracted_ray(c: PreComputation) -> Ray {
    let n_ratio = c.n1.over(c.n2);
    let cos_i = c.eye_vec.dot_spec(c.normal);
    let cos_t = Fixed::one_spec().minus(sin2_t_of(n_ratio, cos_i)).root();
    Ray {
        origin: c.under_point,
        direction: c.normal.scaled(n_ratio.times(cos_i).minus(cos_t)).minus(
            c.eye_vec.scaled(n_ratio),
        ),
    }
}

/// The sum of what the first `n` lights of the scene give the hit.
pub open spec fn direct_of(s: Scene, c: PreComputation, n: nat) -> Colour
    decreases n,
{
    if n == 0 {
        Colour::black_spec()
    } else {
        direct_of(s, c, (n - 1) as nat).plus(
            lighting_of(
                s.objects[c.object as int].material,
                s.objects[c.object as int],
                s.lights[n - 1],
                c.over_point,
                c.eye_vec,
                c.normal,
                shadowed(s, c.over_point),
            ),
        )
    }
}

/// The colour that the ray sees: black where it hits nothing, else the
/// shade of its visible intersection.
pub open spec fn colour_of(s: Scene, r: Ray, depth: nat) -> Colour
    decreases depth, 3int,
{
    let xs = all_hits(r, s.objects);
    match hit_spec(xs) {
        Some(h) => shade_of(s, prepared(h, r, xs, s.objects), depth),
        None => Colour::black_spec(),
    }
}

/// The shade of a hit: the light of every light of the scene, and what
/// the surface reflects and refracts. Where the material is both
/// reflective and transparent the last two are weighted by the
/// reflectance and by what it leaves of one.
pub open spec fn shade_of(s: Scene, c: PreComputation, depth: nat) -> Colour
    decreases depth, 2int,
{
    let surface = direct_of(s, c, s.lights.len());
    let reflected = reflected_of(s, c, depth);
    let refracted = refracted_of(s, c, depth);
    let material = s.objects[c.object as int].material;
    if material.reflectivity.raw > 0 && material.transparency.raw > 0 {
        let reflectance = schlick_of(c);
        surface.plus(reflected.scaled(reflectance)).plus(
            refracted.scaled(Fixed::one_spec().minus(reflectance)),
        )
    } else {
        surface.plus(reflected).plus(refracted)
    }
}

/// What the surface reflects: black with no recursion left or on a
/// material that does not reflect; else the colour seen along the
/// reflected ray with one recursion less, times the reflectivity.
pub open spec fn reflected_of(s: Scene, c: PreComputation, depth: nat) -> Colour
    decreases depth, 1int,
{
    let material = s.objects[c.object as int].material;
    if depth == 0 || material.reflectivity.raw == 0 {
        Colour::black_spec()
    } else {
        colour_of(
            s,
            Ray { origin: c.over_point, direction: c.reflect_vec },
            (depth - 1) as nat,
        ).scaled(material.reflectivity)
    }
}

/// What the surface refracts: black on an opaque material, with no
/// recursion left, or under total internal reflection; else the colour
/// seen along the refracted ray with one recursion less, times the
/// transparency.
pub open spec fn refracted_of(s: Scene, c: PreComputation, depth: nat) -> Colour
    decreases depth, 1int,
{
    let material = s.objects[c.object as int].material;
    let sin2_t = sin2_t_of(c.n1.over(c.n2), c.eye_vec.dot_spec(c.normal));
    if material.transparency.raw == 0 || depth == 0 || sin2_t.raw > Fixed::one_spec().raw {
        Colour::black_spec()
    } else {
        colour_of(s, refracted_ray(c), (depth - 1) as nat).scaled(material.transparency)
    }
}

/// The lighting can be computed for an eye vector and a normal that are
/// vectors exactly, on an object that can be used.
pub proof fn lemma_lighting_defined(
    material: Material,
    object: Shape,
    light: PointLight,
    posn: Tuple,
    eye_vec: Tuple,
    normal: Tuple,
    in_shadow: bool,
)
    requires
        eye_vec.w == Fixed::zero_spec(),
        normal.w == Fixed::zero_spec(),
        material.pattern.is_some() ==> material.wf() && object.transform.invertible(),
    ensures
        lighting_defined(material, object, light, posn, eye_vec, normal, in_shadow),
{
    lemma_reflected_is_vector(normal, light.position.minus(posn).normalised().negated());
}

/// Takes `object` off the stack where it is on it, and puts it on top
/// where it is not.
fn toggle(stack: &mut Vec<usize>, object: usize)
    ensures
        final(stack)@ == toggled(old(stack)@, object),
{
    let mut k: usize = 0;
    while k < stack.len()
        invariant
            k <= stack@.len(),
            stack@ == old(stack)@,
            first_at(stack@, object, 0) == first_at(stack@, object, k as int),
        decreases stack@.len() - k,
    {
        if stack[k] == object {
            stack.remove(k);
            return ;
        }
        k = k + 1;
    }
    stack.push(object);
}

fn medium_of(stack: &Vec<usize>, objects: &Vec<Shape>) -> (r: Fixed)
    requires
        forall|j: int| 0 <= j < stack@.len() ==> stack@[j] < objects@.len(),
    ensures
        r == medium(stack@, objects@),
{
    if stack.len() == 0 {
        Fixed::one()
    } else {
        objects[stack[stack.len() - 1]].material.refractive_index
    }
}

/// The refractive indices on the two sides of the surface at `hit`.
pub fn refractive_indices(
    hit: &Intersection,
    intersections: &Vec<Intersection>,
    objects: &Vec<Shape>,
) -> (r: (Fixed, Fixed))
    requires
        all_below(intersections@, objects@.len() as int),
    ensures
        r == refractive_pair(*hit, intersections@, objects@),
{
    let mut stack: Vec<usize> = Vec::new();
    let mut k: usize = 0;
    while k < intersections.len()
        invariant
            k <= intersections@.len(),
            all_below(intersections@, objects@.len() as int),
            stack@ == containers(intersections@, k as nat),
            forall|j: int| 0 <= j < stack@.len() ==> stack@[j] < objects@.len(),
            first_match(intersections@, *hit, 0) == first_match(intersections@, *hit, k as int),
        decreases intersections@.len() - k,
    {
        let x = intersections[k];
        let found = x == *hit;
        let n1 = medium_of(&stack, objects);
        let ghost before = stack@;
        toggle(&mut stack, x.object);
        proof {
            assert(x.object < objects@.len());
            assert forall|j: int| 0 <= j < stack@.len() implies stack@[j] < objects@.len() by {
                match first_at(before, x.object, 0) {
                    Some(p) => {
                        lemma_first_at(before, x.object, 0);
                        if j < p {
                            assert(stack@[j] == before[j]);
                        } else {
                            assert(stack@[j] == before[j + 1]);
                        }
                    },
                    None => {
                        if j < before.len() {
                            assert(stack@[j] == before[j]);
                        }
                    },
                }
            }
        }
        if found {
            let n2 = medium_of(&stack, objects);
            return (n1, n2);
        }
        k = k + 1;
    }
    (Fixed::zero(), Fixed::zero())
}

/// Where `first_at` finds the object, it is a position of the stack.
pub proof fn lemma_first_at(stack: Seq<usize>, object: usize, from: int)
    requires
        0 <= from,
    ensures
        match first_at(stack, object, from) {
            Some(p) => from <= p < stack.len() && stack[p] == object,
            None => true,
        },
    decreases stack.len() - from,
{
    if from < stack.len() && stack[from] != object {
        lemma_first_at(stack, object, from + 1);
    }
}

/// Computes the record of the hit `i` of the ray `r`, where
/// `intersections` holds all intersections of the ray in ascending
/// order and names shapes of `w`.
pub fn prepare_computations(
    i: &Intersection,
    r: &Ray,
    intersections: &Vec<Intersection>,
    w: &World,
) -> (c: PreComputation)
    requires
        i.object < w.objects@.len(),
        w.objects@[i.object as int].transform.invertible(),
        r.direction.is_vector_spec(),
        all_below(intersections@, w.objects@.len() as int),
    ensures
        c == prepared(*i, *r, intersections@, w.objects@),
        c.object == i.object,
        r.wf() ==> c.wf(),
{
    reveal(prepared);
    let object = &w.objects[i.object];
    let point = r.position(i.t);
    let outward = object.normal_at(&point);
    let eye_vec = r.direction.negate();
    let inside = outward.dot(&eye_vec).raw < 0;
    let normal = if inside {
        outward.negate()
    } else {
        outward
    };
    let nudge = normal * Fixed::from_raw(ACNE_EPSILON);
    let pair = refractive_indices(i, intersections, &w.objects);
    proof {
        if r.wf() {
            lemma_position_is_point(*r, i.t);
            lemma_reflected_is_vector(normal, r.direction);
            lemma_offset_is_point(point, normal, Fixed { raw: ACNE_EPSILON });
        }
    }
    PreComputation {
        object: i.object,
        t: i.t,
        normal,
        point,
        eye_vec,
        reflect_vec: normal.reflect(&r.direction),
        inside,
        over_point: point + nudge,
        under_point: point - nudge,
        n1: pair.0,
        n2: pair.1,
    }
}

/// The colour that `light` gives the point `posn` of `object`, seen
/// along `eye_vec`, where the surface has the normal `normal`.
pub fn calculate_lighting(
    material: &Material,
    object: &Shape,
    light: &PointLight,
    posn: &Tuple,
    eye_vec: &Tuple,
    normal: &Tuple,
    in_shadow: bool,
) -> (r: Colour)
    requires
        lighting_defined(*material, *object, *light, *posn, *eye_vec, *normal, in_shadow),
    ensures
        r == lighting_of(*material, *object, *light, *posn, *eye_vec, *normal, in_shadow),
{
    reveal(lighting_of);
    let light_vec = (light.position - *posn).normalise();
    let surface = match &material.pattern {
        None => material.colour,
        Some(p) => p.pattern_at_object(object, posn),
    };
    let effective_colour = surface * light.intensity;
    let ambient_term = effective_colour * material.ambient;
    if in_shadow {
        ambient_term
    } else {
        let light_normal_dot = light_vec.dot(normal);
        let diffuse = if light_normal_dot.raw < 0 {
            Colour::black()
        } else {
            effective_colour * material.diffuse * light_normal_dot
        };
        let specular = if light_normal_dot.raw < 0 {
            Colour::black()
        } else {
            let reflect_vec = normal.reflect(&light_vec.negate());
            let reflect_eye_dot = reflect_vec.dot(eye_vec);
            if reflect_eye_dot.raw <= 0 {
                Colour::black()
            } else {
                light.intensity * material.specular * reflect_eye_dot.powi(material.shininess)
            }
        };
        ambient_term + diffuse + specular
    }
}

/// Whether a shape stands between the point and the first light of the
/// world. The other lights cast no shadows.
pub fn is_shadowed(w: &World, p: &Tuple) -> (r: bool)
    requires
        w.lights@.len() > 0,
        all_meet(w.objects@, light_ray(w@, *p)),
    ensures
        r == shadowed(w@, *p),
{
    reveal(shadowed);
    let point_to_light = w.lights[0].position - *p;
    let distance_to_light = point_to_light.magnitude();
    let point_to_light_ray = Ray::new(*p, point_to_light.normalise());
    let intersections = point_to_light_ray.intersects_world(w);
    match Intersection::hit(&intersections) {
        None => false,
        Some(h) => h.t.raw < distance_to_light.raw,
    }
}

/// The share of the light that the surface reflects at the hit.
pub fn schlick(c: &PreComputation) -> (r: Fixed)
    requires
        c.eye_vec.is_vector_spec(),
        c.normal.is_vector_spec(),
    ensures
        r == schlick_of(*c),
{
    reveal(schlick_of);
    let mut cosine = c.eye_vec.dot(&c.normal);
    if c.n1.raw > c.n2.raw {
        let n = c.n1 / c.n2;
        let sin2_t = n * n * (Fixed::one() - cosine * cosine);
        if sin2_t.raw > Fixed::one().raw {
            return Fixed::one();
        }
        cosine = (Fixed::one() - sin2_t).sqrt();
    }
    let root = (c.n1 - c.n2) / (c.n1 + c.n2);
    let r0 = root * root;
    r0 + (Fixed::one() - r0) * (Fixed::one() - cosine).powi(5)
}

/// The colour that the ray sees, following reflections and refractions
/// `remaining_recursions` deep.
pub fn colour_at(w: &World, r: &Ray, remaining_recursions: usize) -> (c: Colour)
    requires
        w.wf(),
        r.wf(),
    ensures
        c == colour_of(w@, *r, remaining_recursions as nat),
    decreases remaining_recursions, 3int,
{
    proof {
        lemma_wf_all_meet(w.objects@, *r);
    }
    let inters = r.intersects_world(w);
    let hit = Intersection::hit(&inters);
    match hit {
        Some(h) => {
            let comps = prepare_computations(&h, r, &inters, w);
            shade_hit(w, &comps, remaining_recursions)
        },
        None => Colour::black(),
    }
}

/// The colour of the surface at a hit.
pub fn shade_hit(w: &World, c: &PreComputation, remaining_recursions: usize) -> (r: Colour)
    requires
        w.wf(),
        c.wf(),
        c.object < w.objects@.len(),
    ensures
        r == shade_of(w@, *c, remaining_recursions as nat),
    decreases remaining_recursions, 2int,
{
    let object = &w.objects[c.object];
    let mut out = Colour::black();
    let mut k: usize = 0;
    while k < w.lights.len()
        invariant
            k <= w.lights@.len(),
            w.wf(),
            c.wf(),
            c.object < w.objects@.len(),
            *object == w.objects@[c.object as int],
            out == direct_of(w@, *c, k as nat),
        decreases w.lights@.len() - k,
    {
        proof {
            lemma_wf_all_meet(w.objects@, light_ray(w@, c.over_point));
            lemma_lighting_defined(
                object.material,
                *object,
                w.lights@[k as int],
                c.over_point,
                c.eye_vec,
                c.normal,
                shadowed(w@, c.over_point),
            );
        }
        out = out + calculate_lighting(
            &object.material,
            object,
            &w.lights[k],
            &c.over_point,
            &c.eye_vec,
            &c.normal,
            is_shadowed(w, &c.over_point),
        );
        k = k + 1;
    }
    let reflected = reflected_colour(w, c, remaining_recursions);
    let refracted = refracted_colour(w, c, remaining_recursions);
    let material = &object.material;
    if material.reflectivity.raw > 0 && material.transparency.raw > 0 {
        let reflectance = schlick(c);
        out + (reflected * reflectance) + (refracted * (Fixed::one() - reflectance))
    } else {
        out + reflected + refracted
    }
}

/// What the surface reflects at a hit.
pub fn reflected_colour(w: &World, c: &PreComputation, remaining_recursions: usize) -> (r: Colour)
    requires
        w.wf(),
        c.wf(),
        c.object < w.objects@.len(),
    ensures
        r == reflected_of(w@, *c, remaining_recursions as nat),
    decreases remaining_recursions, 1int,
{
    let material = &w.objects[c.object].material;
    if remaining_recursions == 0 || material.reflectivity.raw == 0 {
        Colour::black()
    } else {
        let reflected_ray = Ray::new(c.over_point, c.reflect_vec);
        let colour = colour_at(w, &reflected_ray, remaining_recursions - 1);
        colour * material.reflectivity
    }
}

/// What the surface lets through at a hit.
pub fn refracted_colour(w: &World, c: &PreComputation, remaining_recursions: usize) -> (r: Colour)
    requires
        w.wf(),
        c.wf(),
        c.object < w.objects@.len(),
    ensures
        r == refracted_of(w@, *c, remaining_recursions as nat),
    decreases remaining_recursions, 1int,
{
    let material = &w.objects[c.object].material;
    let n_ratio = c.n1 / c.n2;
    let cos_i = c.eye_vec.dot(&c.normal);
    let sin2_t = n_ratio * n_ratio * (Fixed::one() - cos_i * cos_i);
    if material.transparency.raw == 0 || remaining_recursions == 0 || sin2_t.raw > Fixed::one().raw {
        Colour::black()
    } else {
        let cos_t = (Fixed::one() - sin2_t).sqrt();
        let dirn = c.normal * (n_ratio * cos_i - cos_t) - c.eye_vec * n_ratio;
        proof {
            lemma_combined_is_vector(c.normal, n_ratio.times(cos_i).minus(cos_t), c.eye_vec, n_ratio);
        }
        let refracted_ray = Ray::new(c.under_point, dirn);
        colour_at(w, &refracted_ray, remaining_recursions - 1) * material.transparency
    }
}

} // verus!
