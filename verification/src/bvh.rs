//! The bounding volume hierarchy: a binary tree of boxes over a list of objects, built
//! once, that lets a ray skip the objects whose box it misses.

use crate::aabb::AABB;
use crate::hittable::share;
use crate::hittable::HitRecord;
use crate::hittable::Hittable;
use crate::ray::Ray;
use crate::scalar::Scalar;
use crate::shape::Shape;
use rand::Rng;
use std::sync::Arc;
use vstd::prelude::*;

verus! {

/// What hangs below a node: an object of the scene, or a smaller tree.
pub enum Child<T: ?Sized = dyn Hittable> {
    Object(Arc<T>),
    Tree(Arc<BVH<T>>),
}

/// A node of the hierarchy.
pub struct BVH<T: ?Sized = dyn Hittable> {
    pub left: Child<T>,
    pub right: Child<T>,
    /// The union of the boxes of the two children.
    pub aabb: AABB,
    /// The box as something a ray can hit: what the caller made of `aabb`.
    pub gate: Arc<T>,
}

/// The box an object is sorted and bounded by: its bounding box over the interval,
/// and the box at the origin for an object without bounds.
pub open spec fn object_box<T: ?Sized + Hittable>(o: Arc<T>, t0: Scalar, t1: Scalar) -> AABB {
    match o.box_model(t0, t1) {
        Some(b) => b,
        None => AABB::spec_zeros(),
    }
}

/// Where an object stands along an axis: the order key of the least coordinate of its
/// box on that axis.
pub open spec fn axis_key<T: ?Sized + Hittable>(
    o: Arc<T>,
    axis: int,
    t0: Scalar,
    t1: Scalar,
) -> int {
    object_box(o, t0, t1).minimum.spec_get(axis).key()
}

/// The box of a child.
pub open spec fn child_box<T: ?Sized + Hittable>(c: Child<T>, t0: Scalar, t1: Scalar) -> AABB {
    match c {
        Child::Object(o) => object_box(o, t0, t1),
        Child::Tree(n) => n.aabb,
    }
}

/// `after` holds the objects of `before`, each once: `origin` says for each place of
/// `after` which place of `before` its object came from.
pub open spec fn rearranges<T: ?Sized>(
    before: Seq<Arc<T>>,
    after: Seq<Arc<T>>,
    origin: Seq<int>,
) -> bool {
    &&& after.len() == before.len()
    &&& origin.len() == before.len()
    &&& forall|j: int|
        0 <= j < after.len() ==> 0 <= #[trigger] origin[j] < before.len() && after[j]
            == before[origin[j]]
    &&& forall|a: int, b: int|
        0 <= a < b < origin.len() ==> #[trigger] origin[a] != #[trigger] origin[b]
}

/// `after` is `before` sorted along an axis, objects that stand at the same place
/// keeping their order.
pub open spec fn sorted_along<T: ?Sized + Hittable>(
    before: Seq<Arc<T>>,
    after: Seq<Arc<T>>,
    axis: int,
    t0: Scalar,
    t1: Scalar,
) -> bool {
    exists|origin: Seq<int>| #[trigger]
        rearranges(before, after, origin) && in_order(after, origin, axis, t0, t1)
}

/// The objects stand in ascending order along the axis, and where two stand at the
/// same place the one that came from further back stands behind.
pub open spec fn in_order<T: ?Sized + Hittable>(
    after: Seq<Arc<T>>,
    origin: Seq<int>,
    axis: int,
    t0: Scalar,
    t1: Scalar,
) -> bool {
    forall|a: int, b: int|
        #![trigger after[a], after[b]]
        0 <= a < b < after.len() && b < origin.len() ==> axis_key(after[a], axis, t0, t1)
            <= axis_key(after[b], axis, t0, t1) && (axis_key(after[a], axis, t0, t1) == axis_key(
            after[b],
            axis,
            t0,
            t1,
        ) ==> origin[a] < origin[b])
}

/// The nearest hit that the hierarchy finds. A ray that misses the node's box finds
/// nothing. Else the left child is asked over the whole interval and the right child
/// over the interval up to the left child's hit, and the right child's hit, being the
/// nearer, wins.
pub open spec fn spec_bvh_hit<T: ?Sized + Hittable>(
    node: &BVH<T>,
    ray: Ray,
    t_min: Scalar,
    t_max: Scalar,
) -> Option<HitRecord>
    decreases node,
{
    if node.gate.hit_model(ray, t_min, t_max) is None {
        None
    } else {
        let near = match node.left {
            Child::Object(o) => o.hit_model(ray, t_min, t_max),
            Child::Tree(n) => spec_bvh_hit(&*n, ray, t_min, t_max),
        };
        let upper = match near {
            Some(h) => h.t,
            None => t_max,
        };
        let far = match node.right {
            Child::Object(o) => o.hit_model(ray, t_min, upper),
            Child::Tree(n) => spec_bvh_hit(&*n, ray, t_min, upper),
        };
        match far {
            Some(h) => Some(h),
            None => near,
        }
    }
}

/// The tree has the shape that `arc` builds: a node holds either one object, as both
/// of its children, or two trees; and every node's box is the union of its children's.
pub open spec fn spec_built<T: ?Sized + Hittable>(node: &BVH<T>, t0: Scalar, t1: Scalar) -> bool
    decreases node,
{
    &&& node.aabb == AABB::spec_surrounding_box(
        child_box(node.left, t0, t1),
        child_box(node.right, t0, t1),
    )
    &&& match (node.left, node.right) {
        (Child::Object(a), Child::Object(b)) => a == b,
        (Child::Tree(l), Child::Tree(r)) => spec_built(&*l, t0, t1) && spec_built(&*r, t0, t1),
        _ => false,
    }
}

/// The objects at the leaves, from left to right, a leaf's object once.
pub open spec fn spec_primitives<T: ?Sized + Hittable>(node: &BVH<T>) -> Seq<Arc<T>>
    decreases node,
{
    match (node.left, node.right) {
        (Child::Tree(l), Child::Tree(r)) => spec_primitives(&*l) + spec_primitives(&*r),
        (Child::Object(a), _) => seq![a],
        (Child::Tree(l), Child::Object(b)) => spec_primitives(&*l).push(b),
    }
}

/// Every node's gate is what `lift` made of the node's box.
pub open spec fn spec_gated<T: ?Sized + Hittable, M: ?Sized, F: Fn(Shape<T, M>) -> Arc<T>>(
    node: &BVH<T>,
    lift: F,
) -> bool
    decreases node,
{
    &&& call_ensures(lift, (Shape::Volume(node.aabb),), node.gate)
    &&& match node.left {
        Child::Object(_) => true,
        Child::Tree(n) => spec_gated(&*n, lift),
    }
    &&& match node.right {
        Child::Object(_) => true,
        Child::Tree(n) => spec_gated(&*n, lift),
    }
}

/// The box of a built tree holds the boxes of all its leaves: a point within the box
/// of the object at a leaf lies within the box of the root.
pub proof fn lemma_box_holds_leaves<T: ?Sized + Hittable>(
    node: &BVH<T>,
    t0: Scalar,
    t1: Scalar,
    leaf: int,
    p: crate::vec3::Vec3,
)
    requires
        spec_built(node, t0, t1),
        0 <= leaf < spec_primitives(node).len(),
        object_box(spec_primitives(node)[leaf], t0, t1).spec_contains(p),
    ensures
        node.aabb.spec_contains(p),
    decreases node,
{
    match (node.left, node.right) {
        (Child::Tree(l), Child::Tree(r)) => {
            let left = spec_primitives(&*l);
            if leaf < left.len() {
                lemma_box_holds_leaves(&*l, t0, t1, leaf, p);
            } else {
                lemma_box_holds_leaves(&*r, t0, t1, leaf - left.len(), p);
            }
            crate::aabb::lemma_surrounding_box_contains(l.aabb, r.aabb, p);
        },
        (Child::Object(a), Child::Object(b)) => {
            crate::aabb::lemma_surrounding_box_contains(
                object_box(a, t0, t1),
                object_box(b, t0, t1),
                p,
            );
        },
        _ => {},
    }
}

/// Draws an axis: `gen_range` of the thread's generator on the range from 0 up to but
/// not including 3, which returns a number in that range. Which one is chance.
#[verifier::external_body]
fn random_axis() -> (axis: usize)
    ensures
        axis < 3,
{
    rand::thread_rng().gen_range(0..3)
}

/// The box an object is sorted and bounded by.
fn bounds_of<T: ?Sized + Hittable>(o: &Arc<T>, t0: Scalar, t1: Scalar) -> (r: AABB)
    ensures
        r == object_box(*o, t0, t1),
{
    match o.bounding_box(t0, t1) {
        Some(b) => b,
        None => AABB::zeros(),
    }
}

/// The objects of a range of a list, in order.
fn copy_range<T: ?Sized>(objects: &Vec<Arc<T>>, from: usize, to: usize) -> (r: Vec<Arc<T>>)
    requires
        from <= to <= objects@.len(),
    ensures
        r@ == objects@.subrange(from as int, to as int),
{
    let mut out: Vec<Arc<T>> = Vec::new();
    let mut i: usize = from;
    while i < to
        invariant
            from <= i <= to <= objects@.len(),
            out@ == objects@.subrange(from as int, i as int),
        decreases to - i,
    {
        out.push(share(&objects[i]));
        proof {
            assert(out@ =~= objects@.subrange(from as int, i as int + 1));
        }
        i = i + 1;
    }
    out
}

impl<T: ?Sized + Hittable> BVH<T> {
    /// Whether `a` stands no further along the axis than `b`: the least coordinate of
    /// its box on that axis is at or below that of `b`'s. Coordinates compare by
    /// their order key, under which the two zeros are equal and a NaN lies beyond the
    /// infinity of its sign.
    pub fn box_compare(a: &Arc<T>, b: &Arc<T>, axis: usize, t0: Scalar, t1: Scalar) -> (r: bool)
        requires
            axis < 3,
        ensures
            r == (axis_key(*a, axis as int, t0, t1) <= axis_key(*b, axis as int, t0, t1)),
    {
        let box_a: AABB = bounds_of(a, t0, t1);
        let box_b: AABB = bounds_of(b, t0, t1);
        box_a.minimum.get(axis).ordinal() <= box_b.minimum.get(axis).ordinal()
    }

    /// Sorts the objects along an axis by the least coordinate of their boxes.
    /// Objects that stand at the same place keep their order. Each object is put in
    /// behind the last of those already sorted that stands no further along; that
    /// place is found by halving.
    pub fn sort_along(objects: &mut Vec<Arc<T>>, axis: usize, t0: Scalar, t1: Scalar)
        requires
            axis < 3,
        ensures
            sorted_along(old(objects)@, final(objects)@, axis as int, t0, t1),
            final(objects)@.to_multiset() == old(objects)@.to_multiset(),
    {
        let ghost before = objects@;
        let ghost mut origin: Seq<int> = Seq::empty();
        let mut sorted: Vec<Arc<T>> = Vec::new();
        let n: usize = objects.len();
        let mut i: usize = 0;
        proof {
            assert(sorted@ =~= before.subrange(0, 0));
        }
        while i < n
            invariant
                axis < 3,
                i <= n,
                n == before.len(),
                objects@ == before,
                sorted@.len() == i,
                origin.len() == i,
                forall|j: int|
                    0 <= j < i ==> 0 <= #[trigger] origin[j] < i && sorted@[j] == before[origin[j]],
                forall|a: int, b: int|
                    0 <= a < b < i ==> #[trigger] origin[a] != #[trigger] origin[b],
                in_order(sorted@, origin, axis as int, t0, t1),
                sorted@.to_multiset() == before.subrange(0, i as int).to_multiset(),
            decreases n - i,
        {
            let o: Arc<T> = share(&objects[i]);
            let mut pos: usize = 0;
            let mut end: usize = i;
            while pos < end
                invariant
                    axis < 3,
                    pos <= end <= i,
                    sorted@.len() == i,
                    origin.len() == i,
                    in_order(sorted@, origin, axis as int, t0, t1),
                    forall|j: int|
                        0 <= j < pos ==> axis_key(#[trigger] sorted@[j], axis as int, t0, t1)
                            <= axis_key(o, axis as int, t0, t1),
                    forall|j: int|
                        end <= j < i ==> axis_key(#[trigger] sorted@[j], axis as int, t0, t1)
                            > axis_key(o, axis as int, t0, t1),
                decreases end - pos,
            {
                let mid: usize = pos + (end - pos) / 2;
                if Self::box_compare(&sorted[mid], &o, axis, t0, t1) {
                    proof {
                        assert forall|j: int| 0 <= j < mid + 1 implies axis_key(
                            #[trigger] sorted@[j],
                            axis as int,
                            t0,
                            t1,
                        ) <= axis_key(o, axis as int, t0, t1) by {
                            if j < mid {
                                assert(axis_key(sorted@[j], axis as int, t0, t1) <= axis_key(
                                    sorted@[mid as int],
                                    axis as int,
                                    t0,
                                    t1,
                                ));
                            }
                        }
                    }
                    pos = mid + 1;
                } else {
                    proof {
                        assert forall|j: int| mid <= j < i implies axis_key(
                            #[trigger] sorted@[j],
                            axis as int,
                            t0,
                            t1,
                        ) > axis_key(o, axis as int, t0, t1) by {
                            if j > mid {
                                assert(axis_key(sorted@[mid as int], axis as int, t0, t1)
                                    <= axis_key(sorted@[j], axis as int, t0, t1));
                            }
                        }
                    }
                    end = mid;
                }
            }
            let ghost earlier = sorted@;
            let ghost earlier_origin = origin;
            sorted.insert(pos, o);
            proof {
                origin = origin.insert(pos as int, i as int);
                vstd::seq_lib::to_multiset_insert(earlier, pos as int, o);
                vstd::seq_lib::to_multiset_build(before.subrange(0, i as int), before[i as int]);
                assert(before.subrange(0, i as int).push(before[i as int]) =~= before.subrange(
                    0,
                    i as int + 1,
                ));
                assert forall|j: int| 0 <= j < i + 1 implies 0 <= #[trigger] origin[j] < i + 1
                    && sorted@[j] == before[origin[j]] by {
                    if j < pos {
                        assert(origin[j] == earlier_origin[j]);
                    } else if j > pos {
                        assert(origin[j] == earlier_origin[j - 1]);
                    }
                }
                assert forall|a: int, b: int| 0 <= a < b < i + 1 implies #[trigger] origin[a]
                    != #[trigger] origin[b] by {
                    let a0 = if a < pos {
                        a
                    } else {
                        a - 1
                    };
                    let b0 = if b < pos {
                        b
                    } else {
                        b - 1
                    };
                    if a != pos && b != pos {
                        assert(earlier_origin[a0] != earlier_origin[b0]);
                    } else if a == pos {
                        assert(origin[b] == earlier_origin[b0]);
                    } else {
                        assert(origin[a] == earlier_origin[a0]);
                    }
                }
                assert forall|a: int, b: int|
                    #![trigger sorted@[a], sorted@[b]]
                    0 <= a < b < sorted@.len() && b < origin.len() implies axis_key(
                    sorted@[a],
                    axis as int,
                    t0,
                    t1,
                ) <= axis_key(sorted@[b], axis as int, t0, t1) && (axis_key(
                    sorted@[a],
                    axis as int,
                    t0,
                    t1,
                ) == axis_key(sorted@[b], axis as int, t0, t1) ==> origin[a] < origin[b]) by {
                    let a0 = if a < pos {
                        a
                    } else {
                        a - 1
                    };
                    let b0 = if b < pos {
                        b
                    } else {
                        b - 1
                    };
                    if a != pos && b != pos {
                        assert(sorted@[a] == earlier[a0] && sorted@[b] == earlier[b0]);
                        assert(origin[a] == earlier_origin[a0] && origin[b] == earlier_origin[b0]);
                    } else if a == pos {
                        assert(sorted@[b] == earlier[b0]);
                        assert(origin[b] == earlier_origin[b0]);
                    } else {
                        assert(sorted@[a] == earlier[a0]);
                        assert(origin[a] == earlier_origin[a0]);
                        if pos > 0 {
                            assert(axis_key(earlier[pos - 1], axis as int, t0, t1) <= axis_key(
                                o,
                                axis as int,
                                t0,
                                t1,
                            ));
                            if a0 < pos - 1 {
                                assert(axis_key(earlier[a0], axis as int, t0, t1) <= axis_key(
                                    earlier[pos - 1],
                                    axis as int,
                                    t0,
                                    t1,
                                ));
                            }
                        }
                    }
                }
            }
            i = i + 1;
        }
        proof {
            assert(before.subrange(0, n as int) =~= before);
            assert(rearranges(before, sorted@, origin));
        }
        *objects = sorted;
    }

    /// Builds the hierarchy over a list of objects, which must not be empty.
    ///
    /// One object makes a leaf, a node with that object as both of its children. More
    /// objects are sorted along an axis drawn at random, in place, and split at the
    /// middle; each half becomes a tree, built the same way. A node's box is the union
    /// of its children's boxes over the time interval from `t0` to `t1`, and `lift`
    /// turns the box into the node's gate. Whatever axes are drawn, the leaves hold
    /// the objects of the list, each once.
    pub fn arc<M: ?Sized, F: Fn(Shape<T, M>) -> Arc<T>>(
        objects: &mut Vec<Arc<T>>,
        t0: Scalar,
        t1: Scalar,
        lift: &F,
    ) -> (r: Arc<BVH<T>>)
        requires
            old(objects)@.len() > 0,
            forall|s: Shape<T, M>| call_requires(*lift, (s,)),
        ensures
            spec_built(&*r, t0, t1),
            spec_gated(&*r, *lift),
            spec_primitives(&*r).to_multiset() == old(objects)@.to_multiset(),
            old(objects)@.len() == 1 ==> final(objects)@ == old(objects)@,
            old(objects)@.len() > 1 ==> exists|axis: int|
                0 <= axis < 3 && #[trigger] sorted_along(
                    old(objects)@,
                    final(objects)@,
                    axis,
                    t0,
                    t1,
                ),
        decreases old(objects)@.len(),
    {
        let axis: usize = random_axis();
        let left: Child<T>;
        let right: Child<T>;
        if objects.len() == 1 {
            left = Child::Object(share(&objects[0]));
            right = Child::Object(share(&objects[0]));
            proof {
                assert(objects@ =~= seq![objects@[0]]);
            }
        } else {
            Self::sort_along(objects, axis, t0, t1);
            let mid: usize = objects.len() / 2;
            let mut first: Vec<Arc<T>> = copy_range(objects, 0, mid);
            let mut second: Vec<Arc<T>> = copy_range(objects, mid, objects.len());
            proof {
                assert(objects@ =~= first@ + second@);
                vstd::seq_lib::lemma_multiset_commutative(first@, second@);
            }
            let near: Arc<BVH<T>> = Self::arc(&mut first, t0, t1, lift);
            let far: Arc<BVH<T>> = Self::arc(&mut second, t0, t1, lift);
            proof {
                vstd::seq_lib::lemma_multiset_commutative(
                    spec_primitives(&*near),
                    spec_primitives(&*far),
                );
            }
            left = Child::Tree(near);
            right = Child::Tree(far);
        }
        let box_left: AABB = Self::child_bounds(&left, t0, t1);
        let box_right: AABB = Self::child_bounds(&right, t0, t1);
        let aabb: AABB = AABB::surrounding_box(&box_left, &box_right);
        let gate: Arc<T> = lift(Shape::Volume(aabb));
        Arc::new(BVH { left, right, aabb, gate })
    }

    /// The box of a child.
    fn child_bounds(child: &Child<T>, t0: Scalar, t1: Scalar) -> (r: AABB)
        ensures
            r == child_box(*child, t0, t1),
    {
        match child {
            Child::Object(o) => bounds_of(o, t0, t1),
            Child::Tree(n) => n.aabb,
        }
    }

    /// The nearest hit below this node.
    fn hit_node(&self, ray: &Ray, t_min: Scalar, t_max: Scalar) -> (r: Option<HitRecord>)
        ensures
            r == spec_bvh_hit(self, *ray, t_min, t_max),
            r matches Some(h) ==> crate::hittable::spec_within(h.t, t_min, t_max),
        decreases self,
    {
        if self.gate.hit(ray, t_min, t_max).is_none() {
            return None;
        }
        let near: Option<HitRecord> = match &self.left {
            Child::Object(o) => o.hit(ray, t_min, t_max),
            Child::Tree(n) => n.hit_node(ray, t_min, t_max),
        };
        let upper: Scalar = match &near {
            Some(h) => h.t,
            None => t_max,
        };
        let far: Option<HitRecord> = match &self.right {
            Child::Object(o) => o.hit(ray, t_min, upper),
            Child::Tree(n) => n.hit_node(ray, t_min, upper),
        };
        match far {
            Some(h) => {
                proof {
                    crate::scalar::lemma_order(h.t, upper, t_max);
                }
                Some(h)
            },
            None => near,
        }
    }
}

impl<T: ?Sized + Hittable> Hittable for BVH<T> {
    open spec fn hit_model(&self, ray: Ray, t_min: Scalar, t_max: Scalar) -> Option<HitRecord> {
        spec_bvh_hit(self, ray, t_min, t_max)
    }

    open spec fn box_model(&self, t0: Scalar, t1: Scalar) -> Option<AABB> {
        Some(self.aabb)
    }

    fn hit(&self, ray: &Ray, t_min: Scalar, t_max: Scalar) -> (r: Option<HitRecord>) {
        self.hit_node(ray, t_min, t_max)
    }

    fn bounding_box(&self, t0: Scalar, t1: Scalar) -> (r: Option<AABB>) {
        Some(self.aabb)
    }
}

} // verus!
