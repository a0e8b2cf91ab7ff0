//! Rays, their intersections with the shapes of a world, and the choice
//! of the visible intersection.
use crate::fixed::lemma_plus_zero;
use crate::fixed::lemma_times_zero;
use crate::fixed::Fixed;
use crate::matrices::lemma_affine_keeps_w;
use crate::matrices::Matrix;
use crate::shapes::lemma_usable_meets;
use crate::shapes::Shape;
use crate::tuple::Tuple;
use crate::world::World;
use vstd::prelude::*;

verus! {

#[derive(Debug, Clone, Copy)]
pub struct Ray {
    pub origin: Tuple,
    pub direction: Tuple,
}

/// A crossing of a ray with the surface of a shape. `object` is the
/// position of the shape in the list it was intersected from.
#[derive(Clone, Copy, Debug, PartialEq, Eq, Structural)]
pub struct Intersection {
    pub t: Fixed,
    pub object: usize,
}

/// No intersection earlier in the sequence has a larger `t` than a later
/// one.
pub open spec fn ascending(s: Seq<Intersection>) -> bool {
    forall|i: int, j: int| 0 <= i < j < s.len() ==> s[i].t.raw <= s[j].t.raw
}

/// `s` with `x` put behind the last intersection that is not later
/// than `x`, where `s` is ascending.
pub open spec fn inserted(s: Seq<Intersection>, x: Intersection) -> Seq<Intersection>
    decreases s.len(),
{
    if s.len() == 0 {
        seq![x]
    } else if s.last().t.raw <= x.t.raw {
        s.push(x)
    } else {
        inserted(s.drop_last(), x).push(s.last())
    }
}

/// `s` in ascending order of `t`; intersections with the same `t` keep
/// the order that they have in `s`.
pub open spec fn sorted_by_t(s: Seq<Intersection>) -> Seq<Intersection>
    decreases s.len(),
{
    if s.len() == 0 {
        Seq::<Intersection>::empty()
    } else {
        inserted(sorted_by_t(s.drop_last()), s.last())
    }
}

/// The intersections of `ray` with the first `n` of `objects`, shape
/// after shape.
pub open spec fn gathered(ray: Ray, objects: Seq<Shape>, n: nat) -> Seq<Intersection>
    decreases n,
{
    if n == 0 {
        Seq::<Intersection>::empty()
    } else {
        gathered(ray, objects, (n - 1) as nat) + objects[n - 1].hits(ray, (n - 1) as usize)
    }
}

/// All intersections of `ray` with `objects`, in ascending order of `t`.
pub open spec fn all_hits(ray: Ray, objects: Seq<Shape>) -> Seq<Intersection> {
    sorted_by_t(gathered(ray, objects, objects.len()))
}

/// Among the first `n` of `xs`, the first of those with the least `t`
/// that is not negative.
pub open spec fn nearest(xs: Seq<Intersection>, n: nat) -> Option<Intersection>
    decreases n,
{
    if n == 0 {
        None
    } else {
        let best = nearest(xs, (n - 1) as nat);
        let x = xs[n - 1];
        if x.t.raw >= 0 && (best.is_none() || x.t.raw < best.unwrap().t.raw) {
            Some(x)
        } else {
            best
        }
    }
}

/// The visible intersection of `xs`.
pub open spec fn hit_spec(xs: Seq<Intersection>) -> Option<Intersection> {
    nearest(xs, xs.len())
}

/// The ray can be intersected with every one of the shapes.
pub open spec fn all_meet(objects: Seq<Shape>, ray: Ray) -> bool {
    forall|i: int| 0 <= i < objects.len() ==> (#[trigger] objects[i]).meets(ray)
}

/// Every intersection names a shape below `n`.
pub open spec fn all_below(xs: Seq<Intersection>, n: int) -> bool {
    forall|i: int| 0 <= i < xs.len() ==> (#[trigger] xs[i]).object < n
}

/// Where `x` goes into an ascending `s`: `inserted` puts it at the one
/// position `p` with nothing later than `x` before it and only later
/// ones behind it.
pub proof fn lemma_inserted_at(s: Seq<Intersection>, x: Intersection, p: int)
    requires
        0 <= p <= s.len(),
        p == 0 || s[p - 1].t.raw <= x.t.raw,
        forall|j: int| p <= j < s.len() ==> s[j].t.raw > x.t.raw,
    ensures
        inserted(s, x) == s.insert(p, x),
    decreases s.len(),
{
    if s.len() == 0 {
        assert(seq![x] =~= s.insert(p, x));
    } else if s.last().t.raw <= x.t.raw {
        assert(p == s.len());
        assert(s.push(x) =~= s.insert(p, x));
    } else {
        assert(p < s.len());
        lemma_inserted_at(s.drop_last(), x, p);
        assert(s.drop_last().insert(p, x).push(s.last()) =~= s.insert(p, x));
    }
}

/// Inserting into an ascending sequence leaves it ascending.
pub proof fn lemma_inserted_ascending(s: Seq<Intersection>, x: Intersection)
    requires
        ascending(s),
    ensures
        ascending(inserted(s, x)),
        inserted(s, x).len() == s.len() + 1,
        inserted(s, x).to_multiset() == s.to_multiset().insert(x),
    decreases s.len(),
{
    broadcast use vstd::seq_lib::group_to_multiset_ensures;

    if s.len() == 0 {
        assert(s =~= Seq::<Intersection>::empty());
        assert(seq![x] =~= s.push(x));
    } else if s.last().t.raw <= x.t.raw {
    } else {
        let front = s.drop_last();
        lemma_inserted_ascending(front, x);
        let mid = inserted(front, x);
        let out = mid.push(s.last());
        assert(s =~= front.push(s.last()));
        assert forall|i: int| 0 <= i < mid.len() implies (#[trigger] mid[i]).t.raw
            <= s.last().t.raw by {
            assert(mid.to_multiset().count(mid[i]) > 0);
            if mid[i] != x {
                assert(front.to_multiset().count(mid[i]) > 0);
                assert(front.contains(mid[i]));
                let k = choose|k: int| 0 <= k < front.len() && front[k] == mid[i];
                assert(s[k] == front[k]);
            }
        }
        assert(mid.push(s.last()).to_multiset() =~= s.to_multiset().insert(x));
    }
}

/// Sorting gives an ascending sequence with the same intersections,
/// each as often as before.
pub proof fn lemma_sorted_by_t(s: Seq<Intersection>)
    ensures
        ascending(sorted_by_t(s)),
        sorted_by_t(s).len() == s.len(),
        sorted_by_t(s).to_multiset() == s.to_multiset(),
    decreases s.len(),
{
    broadcast use vstd::seq_lib::group_to_multiset_ensures;

    if s.len() == 0 {
        assert(s =~= Seq::<Intersection>::empty());
    } else {
        lemma_sorted_by_t(s.drop_last());
        lemma_inserted_ascending(sorted_by_t(s.drop_last()), s.last());
        assert(s =~= s.drop_last().push(s.last()));
    }
}

/// Sorting keeps every intersection's shape below the bound that all of
/// them were below.
pub proof fn lemma_sorted_all_below(s: Seq<Intersection>, n: int)
    requires
        all_below(s, n),
    ensures
        all_below(sorted_by_t(s), n),
{
    broadcast use vstd::seq_lib::group_to_multiset_ensures;

    lemma_sorted_by_t(s);
    let out = sorted_by_t(s);
    assert forall|i: int| 0 <= i < out.len() implies (#[trigger] out[i]).object < n by {
        assert(out.to_multiset().count(out[i]) > 0);
        assert(s.contains(out[i]));
        let k = choose|k: int| 0 <= k < s.len() && s[k] == out[i];
        assert(s[k].object < n);
    }
}

/// What `nearest` picks among the first `n`: nothing exactly when every
/// `t` is negative; else an intersection of the sequence whose `t` is not
/// negative and not above that of any other such intersection, and the
/// first of those.
pub proof fn lemma_nearest(xs: Seq<Intersection>, n: nat)
    requires
        n <= xs.len(),
    ensures
        nearest(xs, n).is_none() <==> (forall|i: int| 0 <= i < n ==> xs[i].t.raw < 0),
        nearest(xs, n).is_some() ==> {
            let h = nearest(xs, n).unwrap();
            &&& h.t.raw >= 0
            &&& exists|k: int|
                0 <= k < n && xs[k] == h && (forall|i: int|
                    0 <= i < k ==> !(0 <= (#[trigger] xs[i]).t.raw <= h.t.raw))
            &&& forall|i: int| 0 <= i < n && xs[i].t.raw >= 0 ==> h.t.raw <= xs[i].t.raw
        },
    decreases n,
{
    if n > 0 {
        lemma_nearest(xs, (n - 1) as nat);
        let best = nearest(xs, (n - 1) as nat);
        let x = xs[n - 1];
        if x.t.raw >= 0 && (best.is_none() || x.t.raw < best.unwrap().t.raw) {
            let k = n - 1;
            assert(0 <= k < n && xs[k] == x && (forall|i: int|
                0 <= i < k ==> !(0 <= (#[trigger] xs[i]).t.raw <= x.t.raw)));
        } else if best.is_some() {
            let h = best.unwrap();
            let k = choose|k: int|
                0 <= k < n - 1 && xs[k] == h && (forall|i: int|
                    0 <= i < k ==> !(0 <= (#[trigger] xs[i]).t.raw <= h.t.raw));
            assert(0 <= k < n && xs[k] == h && (forall|i: int|
                0 <= i < k ==> !(0 <= (#[trigger] xs[i]).t.raw <= h.t.raw)));
        }
    }
}

/// The visible intersection: none exactly when every `t` is negative;
/// else the first of the intersections with the least `t` that is not
/// negative.
pub proof fn lemma_hit_is_nearest(xs: Seq<Intersection>)
    ensures
        hit_spec(xs).is_none() <==> (forall|i: int| 0 <= i < xs.len() ==> xs[i].t.raw < 0),
        hit_spec(xs).is_some() ==> {
            let h = hit_spec(xs).unwrap();
            &&& h.t.raw >= 0
            &&& exists|k: int|
                0 <= k < xs.len() && xs[k] == h && (forall|i: int|
                    0 <= i < k ==> !(0 <= (#[trigger] xs[i]).t.raw <= h.t.raw))
            &&& forall|i: int| 0 <= i < xs.len() && xs[i].t.raw >= 0 ==> h.t.raw <= xs[i].t.raw
        },
{
    lemma_nearest(xs, xs.len());
}

/// Orders the intersections by `t`, keeping the order of equal ones.
pub fn sort_by_t(v: Vec<Intersection>) -> (r: Vec<Intersection>)
    ensures
        r@ == sorted_by_t(v@),
        ascending(r@),
        r@.len() == v@.len(),
        r@.to_multiset() == v@.to_multiset(),
{
    let mut out: Vec<Intersection> = Vec::new();
    let mut k: usize = 0;
    proof {
        assert(v@.take(0) =~= Seq::<Intersection>::empty());
    }
    while k < v.len()
        invariant
            k <= v@.len(),
            out@ == sorted_by_t(v@.take(k as int)),
        decreases v@.len() - k,
    {
        let x = v[k];
        let mut p: usize = out.len();
        proof {
            lemma_sorted_by_t(v@.take(k as int));
        }
        while p > 0 && out[p - 1].t.raw > x.t.raw
            invariant
                p <= out@.len(),
                forall|j: int| p <= j < out@.len() ==> out@[j].t.raw > x.t.raw,
            decreases p,
        {
            p = p - 1;
        }
        proof {
            lemma_inserted_at(out@, x, p as int);
            assert(v@.take(k + 1).drop_last() =~= v@.take(k as int));
            assert(v@.take(k + 1).last() == x);
        }
        out.insert(p, x);
        k = k + 1;
    }
    proof {
        assert(v@.take(v@.len() as int) =~= v@);
        lemma_sorted_by_t(v@);
    }
    out
}

impl Intersection {
    pub fn new(t: Fixed, object: usize) -> (r: Intersection)
        ensures
            r == (Intersection { t, object }),
    {
        Intersection { t, object }
    }

    /// Whether `self` comes strictly before `other` along the ray.
    pub fn precedes(&self, other: &Intersection) -> (r: bool)
        ensures
            r == (self.t.raw < other.t.raw),
    {
        self.t.raw < other.t.raw
    }

    /// The visible intersection: of those whose `t` is not negative, the
    /// first with the least `t`.
    pub fn hit(intersections: &Vec<Intersection>) -> (r: Option<Intersection>)
        ensures
            r == hit_spec(intersections@),
            r.is_none() <==> (forall|i: int|
                0 <= i < intersections@.len() ==> intersections@[i].t.raw < 0),
            r.is_some() ==> r.unwrap().t.raw >= 0 && intersections@.contains(r.unwrap()) && (
            forall|i: int|
                0 <= i < intersections@.len() && intersections@[i].t.raw >= 0 ==> r.unwrap().t.raw
                    <= intersections@[i].t.raw),
    {
        let mut best: Option<Intersection> = None;
        let mut k: usize = 0;
        while k < intersections.len()
            invariant
                k <= intersections@.len(),
                best == nearest(intersections@, k as nat),
            decreases intersections@.len() - k,
        {
            let x = intersections[k];
            let better = match best {
                None => true,
                Some(b) => x.precedes(&b),
            };
            if x.t.raw >= 0 && better {
                best = Some(x);
            }
            k = k + 1;
        }
        proof {
            lemma_hit_is_nearest(intersections@);
        }
        best
    }
}

impl Ray {
    /// The origin is a point and the direction a vector, exactly.
    pub open spec fn wf(self) -> bool {
        self.origin.w == Fixed::one_spec() && self.direction.w == Fixed::zero_spec()
    }

    /// The point at distance `t` along the ray.
    pub open spec fn position_spec(self, t: Fixed) -> Tuple {
        self.origin.plus(self.direction.scaled(t))
    }

    /// The ray with origin and direction both mapped by `m`.
    pub open spec fn transformed(self, m: Matrix<4>) -> Ray {
        Ray { origin: m.apply(self.origin), direction: m.apply(self.direction) }
    }

    pub fn new(point: Tuple, vector: Tuple) -> (r: Ray)
        ensures
            r == (Ray { origin: point, direction: vector }),
    {
        Ray { origin: point, direction: vector }
    }

    pub fn is_wf(&self) -> (r: bool)
        ensures
            r == self.wf(),
    {
        self.origin.w.raw == crate::fixed::SCALE && self.direction.w.raw == 0
    }

    pub fn position(&self, t: Fixed) -> (r: Tuple)
        ensures
            r == self.position_spec(t),
    {
        self.origin + self.direction * t
    }

    /// All intersections of the ray with the shapes of the world, in
    /// ascending order of `t`.
    pub fn intersects_world(&self, w: &World) -> (r: Vec<Intersection>)
        requires
            all_meet(w.objects@, *self),
        ensures
            r@ == all_hits(*self, w.objects@),
            ascending(r@),
            all_below(r@, w.objects@.len() as int),
            r@.to_multiset() == gathered(*self, w.objects@, w.objects@.len()).to_multiset(),
    {
        let mut out: Vec<Intersection> = Vec::new();
        let mut k: usize = 0;
        while k < w.objects.len()
            invariant
                k <= w.objects@.len(),
                all_meet(w.objects@, *self),
                out@ == gathered(*self, w.objects@, k as nat),
                all_below(out@, k as int),
            decreases w.objects@.len() - k,
        {
            let mut found = w.objects[k].intersects(self, k);
            out.append(&mut found);
            k = k + 1;
        }
        proof {
            lemma_sorted_all_below(out@, w.objects@.len() as int);
        }
        sort_by_t(out)
    }

    pub fn transform(&self, m: &Matrix<4>) -> (r: Ray)
        ensures
            r == self.transformed(*m),
    {
        Ray { origin: m.mul_tuple(&self.origin), direction: m.mul_tuple(&self.direction) }
    }
}

/// A well-formed ray stays one under an affine transform.
pub proof fn lemma_transformed_wf(r: Ray, m: Matrix<4>)
    requires
        r.wf(),
        m.affine(),
    ensures
        r.transformed(m).wf(),
{
    lemma_affine_keeps_w(m, r.origin);
    lemma_affine_keeps_w(m, r.direction);
}

/// A well-formed ray can be intersected with every shape of a
/// well-formed world.
pub proof fn lemma_wf_all_meet(objects: Seq<Shape>, r: Ray)
    requires
        forall|i: int| 0 <= i < objects.len() ==> (#[trigger] objects[i]).wf(),
        r.wf(),
    ensures
        all_meet(objects, r),
{
    assert forall|i: int| 0 <= i < objects.len() implies (#[trigger] objects[i]).meets(r) by {
        lemma_usable_meets(objects[i], r);
    }
}

/// Every position along a well-formed ray is a point.
pub proof fn lemma_position_is_point(r: Ray, t: Fixed)
    requires
        r.wf(),
    ensures
        r.position_spec(t).w == Fixed::one_spec(),
{
    lemma_times_zero(t);
    lemma_plus_zero(Fixed::one_spec());
}

} // verus!
