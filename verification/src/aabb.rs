//! Axis-aligned bounding boxes: their union, and the slab test of a ray segment.

use crate::ray::Ray;
use crate::scalar::Scalar;
use crate::vec3::Vec3;
use vstd::prelude::*;

verus! {

/// An axis-aligned box, given by its least and its greatest corner.
#[derive(Clone, Copy, Debug, PartialEq, Eq, Structural)]
pub struct AABB {
    pub minimum: Vec3,
    pub maximum: Vec3,
}

impl AABB {
    /// The box is in order: on each axis the least corner is at or below the greatest.
    /// No coordinate of such a box is a NaN.
    pub open spec fn ordered(self) -> bool {
        &&& self.minimum.x.spec_le(self.maximum.x)
        &&& self.minimum.y.spec_le(self.maximum.y)
        &&& self.minimum.z.spec_le(self.maximum.z)
    }

    /// The point lies within the box, bounds included, on every axis.
    pub open spec fn spec_contains(self, p: Vec3) -> bool {
        &&& self.minimum.x.spec_le(p.x) && p.x.spec_le(self.maximum.x)
        &&& self.minimum.y.spec_le(p.y) && p.y.spec_le(self.maximum.y)
        &&& self.minimum.z.spec_le(p.z) && p.z.spec_le(self.maximum.z)
    }

    /// The box spanned by two corner candidates.
    pub open spec fn spec_new(a: Vec3, b: Vec3) -> AABB {
        AABB { minimum: a.spec_component_min(b), maximum: a.spec_component_max(b) }
    }

    pub open spec fn spec_zeros() -> AABB {
        AABB { minimum: Vec3::spec_zeros(), maximum: Vec3::spec_zeros() }
    }

    /// The union of two boxes: the least of the minima and the greatest of the maxima.
    pub open spec fn spec_surrounding_box(a: AABB, b: AABB) -> AABB {
        AABB {
            minimum: a.minimum.spec_component_min(b.minimum),
            maximum: a.maximum.spec_component_max(b.maximum),
        }
    }

    /// The box that a point extends this one to.
    pub open spec fn spec_extend(self, p: Vec3) -> AABB {
        AABB {
            minimum: self.minimum.spec_component_min(p),
            maximum: self.maximum.spec_component_max(p),
        }
    }

    /// The box that holds nothing yet: least corner at positive infinity, greatest at
    /// negative infinity, so that the first point it is extended by becomes both.
    pub open spec fn spec_empty() -> AABB {
        AABB {
            minimum: Vec3 {
                x: Scalar::spec_infinity(),
                y: Scalar::spec_infinity(),
                z: Scalar::spec_infinity(),
            },
            maximum: Vec3 {
                x: Scalar::spec_neg_infinity(),
                y: Scalar::spec_neg_infinity(),
                z: Scalar::spec_neg_infinity(),
            },
        }
    }

    /// The box around the first `n` of the points: the empty box extended by each.
    pub open spec fn spec_enclosing(points: Seq<Vec3>, n: int) -> AABB
        decreases n,
    {
        if n <= 0 {
            AABB::spec_empty()
        } else {
            AABB::spec_enclosing(points, n - 1).spec_extend(points[n - 1])
        }
    }

    /// One of the eight corners: bit 0 of `which` picks the x of the maximum, bit 1 the
    /// y, bit 2 the z; a clear bit picks that of the minimum.
    pub open spec fn spec_corner(self, which: int) -> Vec3 {
        Vec3 {
            x: if which % 2 == 1 { self.maximum.x } else { self.minimum.x },
            y: if (which / 2) % 2 == 1 { self.maximum.y } else { self.minimum.y },
            z: if (which / 4) % 2 == 1 { self.maximum.z } else { self.minimum.z },
        }
    }

    /// The box spanned by two corner candidates, which may come in either order: on
    /// each axis the smaller coordinate goes to the minimum.
    #[verifier::when_used_as_spec(spec_new)]
    pub fn new(a: Vec3, b: Vec3) -> (r: AABB)
        ensures
            r == AABB::spec_new(a, b),
            !a.spec_has_nan() || !b.spec_has_nan() ==> r.ordered(),
    {
        proof {
            crate::scalar::lemma_min_max_bounds(a.x, b.x);
            crate::scalar::lemma_min_max_bounds(a.y, b.y);
            crate::scalar::lemma_min_max_bounds(a.z, b.z);
            crate::scalar::lemma_order(a.x.spec_min(b.x), a.x, a.x.spec_max(b.x));
            crate::scalar::lemma_order(a.y.spec_min(b.y), a.y, a.y.spec_max(b.y));
            crate::scalar::lemma_order(a.z.spec_min(b.z), a.z, a.z.spec_max(b.z));
            crate::scalar::lemma_order(a.x.spec_min(b.x), b.x, a.x.spec_max(b.x));
            crate::scalar::lemma_order(a.y.spec_min(b.y), b.y, a.y.spec_max(b.y));
            crate::scalar::lemma_order(a.z.spec_min(b.z), b.z, a.z.spec_max(b.z));
        }
        AABB { minimum: a.component_min(b), maximum: a.component_max(b) }
    }

    /// The box that is the origin alone.
    #[verifier::when_used_as_spec(spec_zeros)]
    pub fn zeros() -> (r: AABB)
        ensures
            r == AABB::spec_zeros(),
            r.ordered(),
    {
        AABB { minimum: Vec3::zeros(), maximum: Vec3::zeros() }
    }

    /// The union of two boxes.
    pub fn surrounding_box(a: &AABB, b: &AABB) -> (r: AABB)
        ensures
            r == AABB::spec_surrounding_box(*a, *b),
            a.ordered() || b.ordered() ==> r.ordered(),
    {
        proof {
            lemma_surrounding_box_ordered(*a, *b);
        }
        AABB {
            minimum: a.minimum.component_min(b.minimum),
            maximum: a.maximum.component_max(b.maximum),
        }
    }

    /// Whether a point lies within the box.
    pub fn contains(&self, p: &Vec3) -> (r: bool)
        ensures
            r == self.spec_contains(*p),
    {
        self.minimum.x.le(p.x) && p.x.le(self.maximum.x) && self.minimum.y.le(p.y) && p.y.le(
            self.maximum.y,
        ) && self.minimum.z.le(p.z) && p.z.le(self.maximum.z)
    }

    #[verifier::when_used_as_spec(spec_empty)]
    pub fn empty() -> (r: AABB)
        ensures
            r == AABB::spec_empty(),
    {
        AABB {
            minimum: Vec3::new(Scalar::infinity(), Scalar::infinity(), Scalar::infinity()),
            maximum: Vec3::new(
                Scalar::neg_infinity(),
                Scalar::neg_infinity(),
                Scalar::neg_infinity(),
            ),
        }
    }

    /// This box, grown to hold one more point.
    #[verifier::when_used_as_spec(spec_extend)]
    pub fn extend(self, p: Vec3) -> (r: AABB)
        ensures
            r == self.spec_extend(p),
    {
        AABB { minimum: self.minimum.component_min(p), maximum: self.maximum.component_max(p) }
    }

    /// The tightest box around a set of points: on each axis the least and the greatest
    /// coordinate among them. Without points it is the empty box.
    pub fn enclosing(points: &Vec<Vec3>) -> (r: AABB)
        ensures
            r == AABB::spec_enclosing(points@, points.len() as int),
    {
        let mut b: AABB = AABB::empty();
        let mut i: usize = 0;
        while i < points.len()
            invariant
                i <= points.len(),
                b == AABB::spec_enclosing(points@, i as int),
            decreases points.len() - i,
        {
            b = b.extend(points[i]);
            i = i + 1;
        }
        b
    }

    /// One of the eight corners, `which` below 8.
    pub fn corner(&self, which: usize) -> (r: Vec3)
        requires
            which < 8,
        ensures
            r == self.spec_corner(which as int),
    {
        Vec3 {
            x: if which % 2 == 1 {
                self.maximum.x
            } else {
                self.minimum.x
            },
            y: if (which / 2) % 2 == 1 {
                self.maximum.y
            } else {
                self.minimum.y
            },
            z: if (which / 4) % 2 == 1 {
                self.maximum.z
            } else {
                self.minimum.z
            },
        }
    }
}

/// The union of a box in order with any box is in order.
pub proof fn lemma_surrounding_box_ordered(a: AABB, b: AABB)
    ensures
        a.ordered() || b.ordered() ==> AABB::spec_surrounding_box(a, b).ordered(),
{
    let r = AABB::spec_surrounding_box(a, b);
    crate::scalar::lemma_min_max_bounds(a.minimum.x, b.minimum.x);
    crate::scalar::lemma_min_max_bounds(a.minimum.y, b.minimum.y);
    crate::scalar::lemma_min_max_bounds(a.minimum.z, b.minimum.z);
    crate::scalar::lemma_min_max_bounds(a.maximum.x, b.maximum.x);
    crate::scalar::lemma_min_max_bounds(a.maximum.y, b.maximum.y);
    crate::scalar::lemma_min_max_bounds(a.maximum.z, b.maximum.z);
}

/// The union of two boxes contains both: a point within either lies within the union,
/// on every axis.
pub proof fn lemma_surrounding_box_contains(a: AABB, b: AABB, p: Vec3)
    requires
        a.spec_contains(p) || b.spec_contains(p),
    ensures
        AABB::spec_surrounding_box(a, b).spec_contains(p),
{
    crate::scalar::lemma_min_max_bounds(a.minimum.x, b.minimum.x);
    crate::scalar::lemma_min_max_bounds(a.minimum.y, b.minimum.y);
    crate::scalar::lemma_min_max_bounds(a.minimum.z, b.minimum.z);
    crate::scalar::lemma_min_max_bounds(a.maximum.x, b.maximum.x);
    crate::scalar::lemma_min_max_bounds(a.maximum.y, b.maximum.y);
    crate::scalar::lemma_min_max_bounds(a.maximum.z, b.maximum.z);
}

/// The union does not depend on the order of its operands.
pub proof fn lemma_surrounding_box_commutative(a: AABB, b: AABB)
    ensures
        AABB::spec_surrounding_box(a, b) == AABB::spec_surrounding_box(b, a),
{
    crate::scalar::lemma_min_max_lattice(a.minimum.x, b.minimum.x, b.minimum.x);
    crate::scalar::lemma_min_max_lattice(a.minimum.y, b.minimum.y, b.minimum.y);
    crate::scalar::lemma_min_max_lattice(a.minimum.z, b.minimum.z, b.minimum.z);
    crate::scalar::lemma_min_max_lattice(a.maximum.x, b.maximum.x, b.maximum.x);
    crate::scalar::lemma_min_max_lattice(a.maximum.y, b.maximum.y, b.maximum.y);
    crate::scalar::lemma_min_max_lattice(a.maximum.z, b.maximum.z, b.maximum.z);
}

/// The union does not depend on how three boxes are grouped.
pub proof fn lemma_surrounding_box_associative(a: AABB, b: AABB, c: AABB)
    ensures
        AABB::spec_surrounding_box(AABB::spec_surrounding_box(a, b), c)
            == AABB::spec_surrounding_box(a, AABB::spec_surrounding_box(b, c)),
{
    crate::scalar::lemma_min_max_lattice(a.minimum.x, b.minimum.x, c.minimum.x);
    crate::scalar::lemma_min_max_lattice(a.minimum.y, b.minimum.y, c.minimum.y);
    crate::scalar::lemma_min_max_lattice(a.minimum.z, b.minimum.z, c.minimum.z);
    crate::scalar::lemma_min_max_lattice(a.maximum.x, b.maximum.x, c.maximum.x);
    crate::scalar::lemma_min_max_lattice(a.maximum.y, b.maximum.y, c.maximum.y);
    crate::scalar::lemma_min_max_lattice(a.maximum.z, b.maximum.z, c.maximum.z);
}

/// The union of a box with itself is that box.
pub proof fn lemma_surrounding_box_idempotent(a: AABB)
    ensures
        AABB::spec_surrounding_box(a, a) == a,
{
    crate::scalar::lemma_min_max_lattice(a.minimum.x, a.minimum.x, a.minimum.x);
    crate::scalar::lemma_min_max_lattice(a.minimum.y, a.minimum.y, a.minimum.y);
    crate::scalar::lemma_min_max_lattice(a.minimum.z, a.minimum.z, a.minimum.z);
    crate::scalar::lemma_min_max_lattice(a.maximum.x, a.maximum.x, a.maximum.x);
    crate::scalar::lemma_min_max_lattice(a.maximum.y, a.maximum.y, a.maximum.y);
    crate::scalar::lemma_min_max_lattice(a.maximum.z, a.maximum.z, a.maximum.z);
}

/// The box around a set of points contains each of them that has no NaN coordinate.
pub proof fn lemma_enclosing_contains(points: Seq<Vec3>, n: int, i: int)
    requires
        0 <= i < n <= points.len(),
        !points[i].spec_has_nan(),
    ensures
        AABB::spec_enclosing(points, n).spec_contains(points[i]),
    decreases n,
{
    let before = AABB::spec_enclosing(points, n - 1);
    let p = points[n - 1];
    let q = points[i];
    crate::scalar::lemma_min_max_bounds(before.minimum.x, p.x);
    crate::scalar::lemma_min_max_bounds(before.minimum.y, p.y);
    crate::scalar::lemma_min_max_bounds(before.minimum.z, p.z);
    crate::scalar::lemma_min_max_bounds(before.maximum.x, p.x);
    crate::scalar::lemma_min_max_bounds(before.maximum.y, p.y);
    crate::scalar::lemma_min_max_bounds(before.maximum.z, p.z);
    if i < n - 1 {
        lemma_enclosing_contains(points, n - 1, i);
        crate::scalar::lemma_order(before.minimum.x.spec_min(p.x), before.minimum.x, q.x);
        crate::scalar::lemma_order(before.minimum.y.spec_min(p.y), before.minimum.y, q.y);
        crate::scalar::lemma_order(before.minimum.z.spec_min(p.z), before.minimum.z, q.z);
        crate::scalar::lemma_order(q.x, before.maximum.x, before.maximum.x.spec_max(p.x));
        crate::scalar::lemma_order(q.y, before.maximum.y, before.maximum.y.spec_max(p.y));
        crate::scalar::lemma_order(q.z, before.maximum.z, before.maximum.z.spec_max(p.z));
    }
}

/// What a ray does on one axis of a box, as the caller's arithmetic found it.
///
/// `inverse` is the reciprocal of the ray direction's component on the axis; `near` is
/// the box's minimum less the ray origin, times `inverse`, and `far` the same of the
/// maximum: the ray parameters at which the two bounding planes are crossed. A
/// direction component of zero gives an infinite `inverse`, and then infinite
/// parameters or, where the origin lies in a plane, a NaN.
#[derive(Clone, Copy, Debug, PartialEq, Eq, Structural)]
pub struct Slab {
    pub inverse: Scalar,
    pub near: Scalar,
    pub far: Scalar,
}

impl Slab {
    /// The parameter at which the ray enters the slab: `near`, or `far` where the ray
    /// runs against the axis.
    pub open spec fn spec_entry(self) -> Scalar {
        if self.inverse.spec_lt(Scalar::spec_zero()) {
            self.far
        } else {
            self.near
        }
    }

    /// The parameter at which the ray leaves the slab.
    pub open spec fn spec_exit(self) -> Scalar {
        if self.inverse.spec_lt(Scalar::spec_zero()) {
            self.near
        } else {
            self.far
        }
    }

    /// The part of the parameter interval that lies in the slab, none when nothing is
    /// left: the lower end raised to the entry, the upper end lowered to the exit, a NaN
    /// moving neither.
    pub open spec fn spec_narrow(self, t_min: Scalar, t_max: Scalar) -> Option<(Scalar, Scalar)> {
        let low = self.spec_entry().spec_max(t_min);
        let high = self.spec_exit().spec_min(t_max);
        if high.spec_le(low) {
            None
        } else {
            Some((low, high))
        }
    }

    #[verifier::when_used_as_spec(spec_entry)]
    pub fn entry(self) -> (r: Scalar)
        ensures
            r == self.spec_entry(),
    {
        if self.inverse.lt(Scalar::zero()) {
            self.far
        } else {
            self.near
        }
    }

    #[verifier::when_used_as_spec(spec_exit)]
    pub fn exit(self) -> (r: Scalar)
        ensures
            r == self.spec_exit(),
    {
        if self.inverse.lt(Scalar::zero()) {
            self.near
        } else {
            self.far
        }
    }

    /// Narrows a parameter interval to this slab.
    #[verifier::when_used_as_spec(spec_narrow)]
    pub fn narrow(self, t_min: Scalar, t_max: Scalar) -> (r: Option<(Scalar, Scalar)>)
        ensures
            r == self.spec_narrow(t_min, t_max),
    {
        let low: Scalar = self.entry().max(t_min);
        let high: Scalar = self.exit().min(t_max);
        if high.le(low) {
            None
        } else {
            Some((low, high))
        }
    }
}

/// Whether a ray segment meets a box, by the slab method: the interval is narrowed
/// axis by axis, x first, and the ray misses as soon as nothing is left of it.
pub open spec fn spec_slab_hit(x: Slab, y: Slab, z: Slab, t_min: Scalar, t_max: Scalar) -> bool {
    match x.spec_narrow(t_min, t_max) {
        None => false,
        Some((low, high)) => match y.spec_narrow(low, high) {
            None => false,
            Some((low, high)) => z.spec_narrow(low, high) is Some,
        },
    }
}

/// The slab test of a ray segment against a box, on the three slabs that the caller
/// computed from the ray and the box.
pub fn slab_hit(slabs: &[Slab; 3], t_min: Scalar, t_max: Scalar) -> (r: bool)
    ensures
        r == spec_slab_hit(slabs[0], slabs[1], slabs[2], t_min, t_max),
{
    let mut low: Scalar = t_min;
    let mut high: Scalar = t_max;
    let mut axis: usize = 0;
    while axis < 3
        invariant
            axis <= 3,
            axis == 0 ==> low == t_min && high == t_max,
            axis == 1 ==> slabs[0].spec_narrow(t_min, t_max) == Some((low, high)),
            axis == 2 ==> (slabs[0].spec_narrow(t_min, t_max) matches Some((a, b))
                && slabs[1].spec_narrow(a, b) == Some((low, high))),
            axis == 3 ==> spec_slab_hit(slabs[0], slabs[1], slabs[2], t_min, t_max),
        decreases 3 - axis,
    {
        match slabs[axis].narrow(low, high) {
            None => {
                return false;
            },
            Some((a, b)) => {
                low = a;
                high = b;
            },
        }
        axis = axis + 1;
    }
    true
}

impl AABB {
    /// Whether a ray segment meets the box. `slabs` computes, for the box and the
    /// ray, the three slabs: on each axis the reciprocal of the direction and the
    /// parameters at which the two bounding planes are crossed. The decision on them
    /// is `slab_hit`.
    pub fn hit<S: Fn(AABB, Ray) -> [Slab; 3]>(
        &self,
        ray: &Ray,
        t_min: Scalar,
        t_max: Scalar,
        slabs: &S,
    ) -> (r: bool)
        requires
            forall|b: AABB, x: Ray| call_requires(*slabs, (b, x)),
        ensures
            exists|found: [Slab; 3]| #[trigger]
                call_ensures(*slabs, (*self, *ray), found) && r == spec_slab_hit(
                    found[0],
                    found[1],
                    found[2],
                    t_min,
                    t_max,
                ),
    {
        let found: [Slab; 3] = slabs(*self, *ray);
        slab_hit(&found, t_min, t_max)
    }
}

/// Between bounds that are not NaN, the slab test passes exactly when the latest entry
/// comes before the earliest exit: the largest of the lower bound and the three
/// entries is below the smallest of the upper bound and the three exits.
pub proof fn lemma_slab_hit_is_overlap(x: Slab, y: Slab, z: Slab, t_min: Scalar, t_max: Scalar)
    requires
        !t_min.spec_is_nan(),
        !t_max.spec_is_nan(),
    ensures
        spec_slab_hit(x, y, z, t_min, t_max) <==> z.spec_entry().spec_max(
            y.spec_entry().spec_max(x.spec_entry().spec_max(t_min)),
        ).spec_lt(z.spec_exit().spec_min(y.spec_exit().spec_min(x.spec_exit().spec_min(t_max)))),
{
    let l0 = x.spec_entry().spec_max(t_min);
    let h0 = x.spec_exit().spec_min(t_max);
    let l1 = y.spec_entry().spec_max(l0);
    let h1 = y.spec_exit().spec_min(h0);
    let l2 = z.spec_entry().spec_max(l1);
    let h2 = z.spec_exit().spec_min(h1);
    crate::scalar::lemma_min_max_bounds(x.spec_entry(), t_min);
    crate::scalar::lemma_min_max_bounds(x.spec_exit(), t_max);
    crate::scalar::lemma_min_max_bounds(y.spec_entry(), l0);
    crate::scalar::lemma_min_max_bounds(y.spec_exit(), h0);
    crate::scalar::lemma_min_max_bounds(z.spec_entry(), l1);
    crate::scalar::lemma_min_max_bounds(z.spec_exit(), h1);
}

} // verus!
