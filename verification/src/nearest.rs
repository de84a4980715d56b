//! Why the aggregates find the nearest hit: the flat list whatever the order of its
//! objects, the hierarchy whatever its shape, and therefore both the same.
//!
//! The objects themselves are the caller's, and so is the arithmetic of their
//! intersection; what is proved here is proved of objects that keep the geometry
//! contract on the ray in question, and of hierarchies whose boxes bound their
//! contents for that ray.

use crate::bvh::spec_built;
use crate::bvh::spec_bvh_hit;
use crate::bvh::spec_primitives;
use crate::bvh::Child;
use crate::bvh::BVH;
use crate::hittable::spec_scan;
use crate::hittable::spec_within;
use crate::hittable::HitRecord;
use crate::hittable::Hittable;
use crate::ray::Ray;
use crate::scalar::Scalar;
use std::sync::Arc;
use vstd::prelude::*;

verus! {

/// A hit cut down to the parameters below `limit`: kept where it lies below, dropped
/// where it does not.
pub open spec fn spec_below(hit: Option<HitRecord>, limit: Scalar) -> Option<HitRecord> {
    match hit {
        Some(h) => if h.t.spec_lt(limit) {
            Some(h)
        } else {
            None
        },
        None => None,
    }
}

/// The object keeps the geometry contract on this ray, from `t_min` on: a hit lies
/// strictly inside the interval it was asked for, and it is the nearest one, so that
/// asking over a shorter interval finds the same hit if it lies in the shorter
/// interval and nothing if it does not.
pub open spec fn spec_lawful<T: ?Sized + Hittable>(o: Arc<T>, ray: Ray, t_min: Scalar) -> bool {
    &&& forall|b: Scalar|
        (#[trigger] o.hit_model(ray, t_min, b)) matches Some(h) ==> spec_within(h.t, t_min, b)
    &&& forall|b: Scalar, c: Scalar|
        c.spec_le(b) ==> #[trigger] o.hit_model(ray, t_min, c) == spec_below(
            #[trigger] o.hit_model(ray, t_min, b),
            c,
        )
}

/// Every object of the list keeps the geometry contract on this ray.
pub open spec fn spec_all_lawful<T: ?Sized + Hittable>(
    objects: Seq<Arc<T>>,
    ray: Ray,
    t_min: Scalar,
) -> bool {
    forall|i: int| 0 <= i < objects.len() ==> spec_lawful(#[trigger] objects[i], ray, t_min)
}

/// `result` is the nearest hit of the ray among the objects over the interval: where
/// it is none, no object is hit; where it is a hit, it is the hit of one of the
/// objects, and no object is hit at a smaller parameter.
pub open spec fn spec_is_nearest<T: ?Sized + Hittable>(
    objects: Seq<Arc<T>>,
    ray: Ray,
    t_min: Scalar,
    t_max: Scalar,
    result: Option<HitRecord>,
) -> bool {
    match result {
        None => forall|i: int|
            0 <= i < objects.len() ==> (#[trigger] objects[i]).hit_model(ray, t_min, t_max)
                is None,
        Some(h) => {
            &&& spec_within(h.t, t_min, t_max)
            &&& exists|i: int|
                0 <= i < objects.len() && (#[trigger] objects[i]).hit_model(ray, t_min, t_max)
                    == Some(h)
            &&& forall|i: int|
                0 <= i < objects.len() ==> ((#[trigger] objects[i]).hit_model(ray, t_min, t_max)
                    matches Some(g) ==> h.t.key() <= g.t.key())
        },
    }
}

/// The boxes of the hierarchy bound what lies below them, for this ray: a ray segment
/// that misses a node's gate hits none of the objects at the leaves below the node.
pub open spec fn spec_conservative<T: ?Sized + Hittable>(
    node: &BVH<T>,
    ray: Ray,
    t_min: Scalar,
) -> bool
    decreases node,
{
    &&& forall|b: Scalar|
        (#[trigger] node.gate.hit_model(ray, t_min, b)) is None ==> spec_is_nearest(
            spec_primitives(node),
            ray,
            t_min,
            b,
            None,
        )
    &&& match node.left {
        Child::Object(_) => true,
        Child::Tree(n) => spec_conservative(&*n, ray, t_min),
    }
    &&& match node.right {
        Child::Object(_) => true,
        Child::Tree(n) => spec_conservative(&*n, ray, t_min),
    }
}

/// The flat list finds the nearest hit: among objects that keep the geometry
/// contract, the scan returns the hit with the least parameter, or nothing where no
/// object is hit.
pub proof fn lemma_list_finds_nearest<T: ?Sized + Hittable>(
    objects: Seq<Arc<T>>,
    ray: Ray,
    t_min: Scalar,
    t_max: Scalar,
)
    requires
        spec_all_lawful(objects, ray, t_min),
    ensures
        spec_is_nearest(objects, ray, t_min, t_max, spec_scan(objects, ray, t_min, t_max, None, 0)),
{
    assert(spec_is_first_nearest(objects.subrange(0, 0), ray, t_min, t_max, None));
    lemma_scan_first(objects, ray, t_min, t_max, t_max, None, 0);
    lemma_first_is_nearest(
        objects,
        ray,
        t_min,
        t_max,
        spec_scan(objects, ray, t_min, t_max, None, 0),
    );
}

/// The hierarchy finds the nearest hit, over every interval from `t_min` on: among
/// leaves that keep the geometry contract, and with boxes that bound their contents,
/// a built tree returns the hit with the least parameter among its leaves, or
/// nothing where no leaf is hit.
pub proof fn lemma_bvh_finds_nearest<T: ?Sized + Hittable>(
    node: &BVH<T>,
    ray: Ray,
    t_min: Scalar,
    t_max: Scalar,
    t0: Scalar,
    t1: Scalar,
)
    requires
        spec_built(node, t0, t1),
        spec_all_lawful(spec_primitives(node), ray, t_min),
        spec_conservative(node, ray, t_min),
    ensures
        spec_is_nearest(
            spec_primitives(node),
            ray,
            t_min,
            t_max,
            spec_bvh_hit(node, ray, t_min, t_max),
        ),
{
    lemma_bvh_finds_first(node, ray, t_min, t_max, t0, t1);
    lemma_first_is_nearest(
        spec_primitives(node),
        ray,
        t_min,
        t_max,
        spec_bvh_hit(node, ray, t_min, t_max),
    );
}

/// The object at place `i` wins with the hit `h`: the hit is its own, and every other
/// hit among the objects lies further along the ray, or as far and at a later place.
pub open spec fn spec_wins<T: ?Sized + Hittable>(
    objects: Seq<Arc<T>>,
    ray: Ray,
    t_min: Scalar,
    t_max: Scalar,
    i: int,
    h: HitRecord,
) -> bool {
    &&& 0 <= i < objects.len()
    &&& objects[i].hit_model(ray, t_min, t_max) == Some(h)
    &&& forall|j: int|
        0 <= j < objects.len() ==> ((#[trigger] objects[j]).hit_model(ray, t_min, t_max)
            matches Some(g) ==> h.t.key() < g.t.key() || (h.t.key() == g.t.key() && i <= j))
}

/// `result` is the hit that a scan in order finds: the nearest one, and among hits
/// that are equally near the one of the object that comes first.
pub open spec fn spec_is_first_nearest<T: ?Sized + Hittable>(
    objects: Seq<Arc<T>>,
    ray: Ray,
    t_min: Scalar,
    t_max: Scalar,
    result: Option<HitRecord>,
) -> bool {
    match result {
        None => forall|i: int|
            0 <= i < objects.len() ==> (#[trigger] objects[i]).hit_model(ray, t_min, t_max)
                is None,
        Some(h) => spec_within(h.t, t_min, t_max) && exists|i: int| #[trigger]
            spec_wins(objects, ray, t_min, t_max, i, h),
    }
}

/// The first nearest hit is a nearest hit.
proof fn lemma_first_is_nearest<T: ?Sized + Hittable>(
    objects: Seq<Arc<T>>,
    ray: Ray,
    t_min: Scalar,
    t_max: Scalar,
    result: Option<HitRecord>,
)
    requires
        spec_is_first_nearest(objects, ray, t_min, t_max, result),
    ensures
        spec_is_nearest(objects, ray, t_min, t_max, result),
{
    if let Some(h) = result {
        let i = choose|i: int| #[trigger] spec_wins(objects, ray, t_min, t_max, i, h);
        assert(objects[i].hit_model(ray, t_min, t_max) == Some(h));
    }
}

/// At most one result is the first nearest.
proof fn lemma_first_nearest_is_one<T: ?Sized + Hittable>(
    objects: Seq<Arc<T>>,
    ray: Ray,
    t_min: Scalar,
    t_max: Scalar,
    a: Option<HitRecord>,
    b: Option<HitRecord>,
)
    requires
        spec_is_first_nearest(objects, ray, t_min, t_max, a),
        spec_is_first_nearest(objects, ray, t_min, t_max, b),
    ensures
        a == b,
{
    match (a, b) {
        (Some(g), Some(h)) => {
            let i = choose|i: int| #[trigger] spec_wins(objects, ray, t_min, t_max, i, g);
            let j = choose|j: int| #[trigger] spec_wins(objects, ray, t_min, t_max, j, h);
            assert(objects[i].hit_model(ray, t_min, t_max) == Some(g));
            assert(objects[j].hit_model(ray, t_min, t_max) == Some(h));
            assert(i == j);
        },
        (Some(g), None) => {
            let i = choose|i: int| #[trigger] spec_wins(objects, ray, t_min, t_max, i, g);
            assert(objects[i].hit_model(ray, t_min, t_max) == Some(g));
        },
        (None, Some(h)) => {
            let j = choose|j: int| #[trigger] spec_wins(objects, ray, t_min, t_max, j, h);
            assert(objects[j].hit_model(ray, t_min, t_max) == Some(h));
        },
        (None, None) => {},
    }
}

/// The scan of a list from any place on ends with the first nearest hit, if it came
/// to that place with the first nearest hit among the objects before it.
proof fn lemma_scan_first<T: ?Sized + Hittable>(
    objects: Seq<Arc<T>>,
    ray: Ray,
    t_min: Scalar,
    t_max: Scalar,
    closest: Scalar,
    best: Option<HitRecord>,
    from: int,
)
    requires
        spec_all_lawful(objects, ray, t_min),
        0 <= from <= objects.len(),
        spec_is_first_nearest(objects.subrange(0, from), ray, t_min, t_max, best),
        best matches Some(h) ==> closest == h.t,
        best is None ==> closest == t_max,
    ensures
        spec_is_first_nearest(
            objects,
            ray,
            t_min,
            t_max,
            spec_scan(objects, ray, t_min, closest, best, from),
        ),
    decreases objects.len() - from,
{
    let seen = objects.subrange(0, from);
    if from >= objects.len() {
        assert(seen =~= objects);
    } else {
        let o = objects[from];
        let found = o.hit_model(ray, t_min, closest);
        let whole = o.hit_model(ray, t_min, t_max);
        let more = objects.subrange(0, from + 1);
        assert(spec_lawful(o, ray, t_min));
        assert(more[from] == o);
        assert(forall|i: int| 0 <= i < from ==> more[i] == seen[i]);
        if best is Some {
            crate::scalar::lemma_order(closest, t_max, t_max);
            assert(found == spec_below(whole, closest));
        } else {
            assert(found == whole);
        }
        match found {
            Some(g) => {
                assert(whole == Some(g));
                assert(spec_within(g.t, t_min, t_max));
                assert forall|j: int| 0 <= j < more.len() implies ((#[trigger] more[j]).hit_model(
                    ray,
                    t_min,
                    t_max,
                ) matches Some(k) ==> g.t.key() < k.t.key() || (g.t.key() == k.t.key() && from
                    <= j)) by {
                    if j < from {
                        assert(more[j] == seen[j]);
                        if let Some(h) = best {
                            let i0 = choose|i: int| #[trigger]
                                spec_wins(seen, ray, t_min, t_max, i, h);
                            assert(seen[i0].hit_model(ray, t_min, t_max) == Some(h));
                        }
                    }
                }
                assert(spec_wins(more, ray, t_min, t_max, from, g));
                lemma_scan_first(objects, ray, t_min, t_max, g.t, Some(g), from + 1);
            },
            None => {
                match best {
                    Some(h) => {
                        let i0 = choose|i: int| #[trigger] spec_wins(seen, ray, t_min, t_max, i, h);
                        assert(more[i0] == seen[i0]);
                        assert forall|j: int| 0 <= j < more.len() implies ((
                        #[trigger] more[j]).hit_model(ray, t_min, t_max) matches Some(k)
                            ==> h.t.key() < k.t.key() || (h.t.key() == k.t.key() && i0 <= j)) by {
                            if j < from {
                                assert(more[j] == seen[j]);
                            } else {
                                if let Some(k) = whole {
                                    assert(spec_within(k.t, t_min, t_max));
                                    assert(!k.t.spec_lt(closest));
                                }
                            }
                        }
                        assert(spec_wins(more, ray, t_min, t_max, i0, h));
                    },
                    None => {
                        assert forall|i: int| 0 <= i < more.len() implies (
                        #[trigger] more[i]).hit_model(ray, t_min, t_max) is None by {
                            if i < from {
                                assert(more[i] == seen[i]);
                            }
                        }
                    },
                }
                lemma_scan_first(objects, ray, t_min, t_max, closest, best, from + 1);
            },
        }
    }
}

/// A list of objects that keep the geometry contract keeps it too: its hit lies
/// strictly inside the interval, and over a shorter interval it finds the same hit
/// if that lies in the shorter interval and nothing if it does not. So lists can hold
/// lists, and hierarchies can be built over them.
pub proof fn lemma_list_is_lawful<T: ?Sized + Hittable>(
    objects: Seq<Arc<T>>,
    ray: Ray,
    t_min: Scalar,
    b: Scalar,
    c: Scalar,
)
    requires
        spec_all_lawful(objects, ray, t_min),
    ensures
        spec_scan(objects, ray, t_min, b, None, 0) matches Some(h) ==> spec_within(h.t, t_min, b),
        c.spec_le(b) ==> spec_scan(objects, ray, t_min, c, None, 0) == spec_below(
            spec_scan(objects, ray, t_min, b, None, 0),
            c,
        ),
{
    let wide = spec_scan(objects, ray, t_min, b, None, 0);
    let narrow = spec_scan(objects, ray, t_min, c, None, 0);
    assert(spec_is_first_nearest(objects.subrange(0, 0), ray, t_min, b, None));
    assert(spec_is_first_nearest(objects.subrange(0, 0), ray, t_min, c, None));
    lemma_scan_first(objects, ray, t_min, b, b, None, 0);
    lemma_scan_first(objects, ray, t_min, c, c, None, 0);
    if c.spec_le(b) {
        let cut = spec_below(wide, c);
        assert forall|i: int| 0 <= i < objects.len() implies (#[trigger] objects[i]).hit_model(
            ray,
            t_min,
            c,
        ) == spec_below(objects[i].hit_model(ray, t_min, b), c) by {
            assert(spec_lawful(objects[i], ray, t_min));
        }
        assert forall|i: int| 0 <= i < objects.len() implies ((#[trigger] objects[i]).hit_model(
            ray,
            t_min,
            b,
        ) matches Some(k) ==> spec_within(k.t, t_min, b)) by {
            assert(spec_lawful(objects[i], ray, t_min));
        }
        match wide {
            Some(h) => {
                let i0 = choose|i: int| #[trigger] spec_wins(objects, ray, t_min, b, i, h);
                assert(objects[i0].hit_model(ray, t_min, b) == Some(h));
                if h.t.spec_lt(c) {
                    assert(objects[i0].hit_model(ray, t_min, c) == Some(h));
                    assert(spec_wins(objects, ray, t_min, c, i0, h));
                    assert(spec_is_first_nearest(objects, ray, t_min, c, cut));
                } else {
                    assert forall|i: int| 0 <= i < objects.len() implies (
                    #[trigger] objects[i]).hit_model(ray, t_min, c) is None by {
                        if let Some(k) = objects[i].hit_model(ray, t_min, b) {
                            assert(h.t.key() <= k.t.key());
                        }
                    }
                    assert(spec_is_first_nearest(objects, ray, t_min, c, cut));
                }
            },
            None => {
                assert(spec_is_first_nearest(objects, ray, t_min, c, cut));
            },
        }
        lemma_first_nearest_is_one(objects, ray, t_min, c, narrow, cut);
    }
}

/// What is first nearest over an interval, seen from a longer interval: it is the
/// hit of the same object there, and whatever else is hit there below the end of the
/// shorter interval was a hit in the shorter one.
proof fn lemma_first_nearest_below<T: ?Sized + Hittable>(
    objects: Seq<Arc<T>>,
    ray: Ray,
    t_min: Scalar,
    b: Scalar,
    c: Scalar,
)
    requires
        spec_all_lawful(objects, ray, t_min),
        c.spec_le(b),
    ensures
        forall|i: int|
            0 <= i < objects.len() ==> (#[trigger] objects[i]).hit_model(ray, t_min, c)
                == spec_below(objects[i].hit_model(ray, t_min, b), c),
        forall|i: int|
            0 <= i < objects.len() ==> ((#[trigger] objects[i]).hit_model(ray, t_min, b)
                matches Some(k) ==> spec_within(k.t, t_min, b)),
{
    assert forall|i: int| 0 <= i < objects.len() implies (#[trigger] objects[i]).hit_model(
        ray,
        t_min,
        c,
    ) == spec_below(objects[i].hit_model(ray, t_min, b), c) by {
        assert(spec_lawful(objects[i], ray, t_min));
    }
    assert forall|i: int| 0 <= i < objects.len() implies ((#[trigger] objects[i]).hit_model(
        ray,
        t_min,
        b,
    ) matches Some(k) ==> spec_within(k.t, t_min, b)) by {
        assert(spec_lawful(objects[i], ray, t_min));
    }
}

/// The hierarchy finds the first nearest hit among its leaves, read from left to
/// right.
proof fn lemma_bvh_finds_first<T: ?Sized + Hittable>(
    node: &BVH<T>,
    ray: Ray,
    t_min: Scalar,
    t_max: Scalar,
    t0: Scalar,
    t1: Scalar,
)
    requires
        spec_built(node, t0, t1),
        spec_all_lawful(spec_primitives(node), ray, t_min),
        spec_conservative(node, ray, t_min),
    ensures
        spec_is_first_nearest(
            spec_primitives(node),
            ray,
            t_min,
            t_max,
            spec_bvh_hit(node, ray, t_min, t_max),
        ),
    decreases node,
{
    let leaves = spec_primitives(node);
    if node.gate.hit_model(ray, t_min, t_max) is None {
    } else {
        match (node.left, node.right) {
            (Child::Object(a), Child::Object(b)) => {
                assert(leaves =~= seq![a]);
                assert(leaves[0] == a);
                assert(spec_lawful(a, ray, t_min));
                let near = a.hit_model(ray, t_min, t_max);
                match near {
                    Some(h) => {
                        assert(spec_within(h.t, t_min, t_max));
                        crate::scalar::lemma_order(h.t, t_max, t_max);
                        assert(a.hit_model(ray, t_min, h.t) == spec_below(near, h.t));
                        assert(spec_wins(leaves, ray, t_min, t_max, 0, h));
                    },
                    None => {},
                }
            },
            (Child::Tree(l), Child::Tree(r)) => {
                let left = spec_primitives(&*l);
                let right = spec_primitives(&*r);
                assert(leaves =~= left + right);
                assert forall|i: int| 0 <= i < left.len() implies spec_lawful(
                    #[trigger] left[i],
                    ray,
                    t_min,
                ) by {
                    assert(left[i] == leaves[i]);
                }
                assert forall|i: int| 0 <= i < right.len() implies spec_lawful(
                    #[trigger] right[i],
                    ray,
                    t_min,
                ) by {
                    assert(right[i] == leaves[left.len() + i]);
                }
                let near = spec_bvh_hit(&*l, ray, t_min, t_max);
                lemma_bvh_finds_first(&*l, ray, t_min, t_max, t0, t1);
                let upper = match near {
                    Some(h) => h.t,
                    None => t_max,
                };
                let far = spec_bvh_hit(&*r, ray, t_min, upper);
                lemma_bvh_finds_first(&*r, ray, t_min, upper, t0, t1);
                match near {
                    Some(h) => {
                        crate::scalar::lemma_order(h.t, t_max, t_max);
                        lemma_first_nearest_below(right, ray, t_min, t_max, upper);
                        let i0 = choose|i: int| #[trigger]
                            spec_wins(left, ray, t_min, t_max, i, h);
                        assert(leaves[i0] == left[i0]);
                        assert(left[i0].hit_model(ray, t_min, t_max) == Some(h));
                        match far {
                            Some(g) => {
                                let j0 = choose|i: int| #[trigger]
                                    spec_wins(right, ray, t_min, upper, i, g);
                                assert(leaves[left.len() + j0] == right[j0]);
                                assert(right[j0].hit_model(ray, t_min, upper) == Some(g));
                                assert(spec_within(g.t, t_min, upper));
                                crate::scalar::lemma_order(g.t, upper, t_max);
                                assert forall|k: int| 0 <= k < leaves.len() implies ((
                                #[trigger] leaves[k]).hit_model(ray, t_min, t_max) matches Some(x)
                                    ==> g.t.key() < x.t.key() || (g.t.key() == x.t.key()
                                    && left.len() + j0 <= k)) by {
                                    if k < left.len() {
                                        assert(leaves[k] == left[k]);
                                    } else {
                                        assert(leaves[k] == right[k - left.len()]);
                                    }
                                }
                                assert(spec_wins(leaves, ray, t_min, t_max, left.len() + j0, g));
                            },
                            None => {
                                assert forall|k: int| 0 <= k < leaves.len() implies ((
                                #[trigger] leaves[k]).hit_model(ray, t_min, t_max) matches Some(x)
                                    ==> h.t.key() < x.t.key() || (h.t.key() == x.t.key() && i0
                                    <= k)) by {
                                    if k < left.len() {
                                        assert(leaves[k] == left[k]);
                                    } else {
                                        assert(leaves[k] == right[k - left.len()]);
                                    }
                                }
                                assert(spec_wins(leaves, ray, t_min, t_max, i0, h));
                            },
                        }
                    },
                    None => {
                        match far {
                            Some(g) => {
                                let j0 = choose|i: int| #[trigger]
                                    spec_wins(right, ray, t_min, t_max, i, g);
                                assert(leaves[left.len() + j0] == right[j0]);
                                assert(right[j0].hit_model(ray, t_min, t_max) == Some(g));
                                assert forall|k: int| 0 <= k < leaves.len() implies ((
                                #[trigger] leaves[k]).hit_model(ray, t_min, t_max) matches Some(x)
                                    ==> g.t.key() < x.t.key() || (g.t.key() == x.t.key()
                                    && left.len() + j0 <= k)) by {
                                    if k < left.len() {
                                        assert(leaves[k] == left[k]);
                                    } else {
                                        assert(leaves[k] == right[k - left.len()]);
                                    }
                                }
                                assert(spec_wins(leaves, ray, t_min, t_max, left.len() + j0, g));
                            },
                            None => {
                                assert forall|k: int| 0 <= k < leaves.len() implies (
                                #[trigger] leaves[k]).hit_model(ray, t_min, t_max) is None by {
                                    if k < left.len() {
                                        assert(leaves[k] == left[k]);
                                    } else {
                                        assert(leaves[k] == right[k - left.len()]);
                                    }
                                }
                            },
                        }
                    },
                }
            },
            _ => {},
        }
    }
}

/// The hierarchy is its list of leaves: asking the root returns the very record that
/// scanning the leaves from left to right returns, for leaves that keep the geometry
/// contract and boxes that bound their contents.
pub proof fn lemma_bvh_is_its_leaves<T: ?Sized + Hittable>(
    node: &BVH<T>,
    ray: Ray,
    t_min: Scalar,
    t_max: Scalar,
    t0: Scalar,
    t1: Scalar,
)
    requires
        spec_built(node, t0, t1),
        spec_all_lawful(spec_primitives(node), ray, t_min),
        spec_conservative(node, ray, t_min),
    ensures
        spec_bvh_hit(node, ray, t_min, t_max) == spec_scan(
            spec_primitives(node),
            ray,
            t_min,
            t_max,
            None,
            0,
        ),
{
    let leaves = spec_primitives(node);
    lemma_bvh_finds_first(node, ray, t_min, t_max, t0, t1);
    assert(spec_is_first_nearest(leaves.subrange(0, 0), ray, t_min, t_max, None));
    lemma_scan_first(leaves, ray, t_min, t_max, t_max, None, 0);
    lemma_first_nearest_is_one(
        leaves,
        ray,
        t_min,
        t_max,
        spec_bvh_hit(node, ray, t_min, t_max),
        spec_scan(leaves, ray, t_min, t_max, None, 0),
    );
}

/// A hierarchy over leaves that keep the geometry contract, with boxes that bound
/// their contents, keeps the contract too: hierarchies can be leaves of hierarchies.
pub proof fn lemma_bvh_is_lawful<T: ?Sized + Hittable>(
    node: &BVH<T>,
    ray: Ray,
    t_min: Scalar,
    b: Scalar,
    c: Scalar,
    t0: Scalar,
    t1: Scalar,
)
    requires
        spec_built(node, t0, t1),
        spec_all_lawful(spec_primitives(node), ray, t_min),
        spec_conservative(node, ray, t_min),
    ensures
        spec_bvh_hit(node, ray, t_min, b) matches Some(h) ==> spec_within(h.t, t_min, b),
        c.spec_le(b) ==> spec_bvh_hit(node, ray, t_min, c) == spec_below(
            spec_bvh_hit(node, ray, t_min, b),
            c,
        ),
{
    lemma_bvh_is_its_leaves(node, ray, t_min, b, t0, t1);
    lemma_bvh_is_its_leaves(node, ray, t_min, c, t0, t1);
    lemma_list_is_lawful(spec_primitives(node), ray, t_min, b, c);
}

/// Two nearest hits among the same objects lie at the same parameter: both are none,
/// or both are hits whose parameters compare equal.
pub open spec fn spec_same_distance(a: Option<HitRecord>, b: Option<HitRecord>) -> bool {
    match (a, b) {
        (None, None) => true,
        (Some(g), Some(h)) => g.t.spec_equals(h.t),
        _ => false,
    }
}

/// What is nearest among some objects is as near as what is nearest among the same
/// objects in another arrangement.
pub proof fn lemma_nearest_is_unique<T: ?Sized + Hittable>(
    first: Seq<Arc<T>>,
    second: Seq<Arc<T>>,
    ray: Ray,
    t_min: Scalar,
    t_max: Scalar,
    a: Option<HitRecord>,
    b: Option<HitRecord>,
)
    requires
        first.to_multiset() == second.to_multiset(),
        spec_is_nearest(first, ray, t_min, t_max, a),
        spec_is_nearest(second, ray, t_min, t_max, b),
    ensures
        spec_same_distance(a, b),
{
    broadcast use vstd::seq_lib::to_multiset_contains;

    if let Some(g) = a {
        let i0 = choose|i: int|
            0 <= i < first.len() && (#[trigger] first[i]).hit_model(ray, t_min, t_max) == Some(g);
        assert(first.contains(first[i0]));
        assert(second.to_multiset().count(first[i0]) > 0);
        assert(second.contains(first[i0]));
        let j = choose|j: int| 0 <= j < second.len() && second[j] == first[i0];
        assert(second[j].hit_model(ray, t_min, t_max) == Some(g));
    }
    if let Some(h) = b {
        let j0 = choose|i: int|
            0 <= i < second.len() && (#[trigger] second[i]).hit_model(ray, t_min, t_max) == Some(h);
        assert(second.contains(second[j0]));
        assert(first.to_multiset().count(second[j0]) > 0);
        assert(first.contains(second[j0]));
        let i = choose|i: int| 0 <= i < first.len() && first[i] == second[j0];
        assert(first[i].hit_model(ray, t_min, t_max) == Some(h));
    }
}

/// No two hits among the objects lie at the same parameter unless they are the same
/// hit.
pub open spec fn spec_untied<T: ?Sized + Hittable>(
    objects: Seq<Arc<T>>,
    ray: Ray,
    t_min: Scalar,
    t_max: Scalar,
) -> bool {
    forall|i: int, j: int|
        0 <= i < objects.len() && 0 <= j < objects.len() ==> match (
            (#[trigger] objects[i]).hit_model(ray, t_min, t_max),
            (#[trigger] objects[j]).hit_model(ray, t_min, t_max),
        ) {
            (Some(g), Some(h)) => g.t.key() == h.t.key() ==> g == h,
            _ => true,
        }
}

/// Where no two objects are hit at the same parameter, the nearest hit is one record:
/// what is nearest among the objects in one arrangement is what is nearest among them
/// in another, point, normal and all.
pub proof fn lemma_untied_nearest_is_one<T: ?Sized + Hittable>(
    first: Seq<Arc<T>>,
    second: Seq<Arc<T>>,
    ray: Ray,
    t_min: Scalar,
    t_max: Scalar,
    a: Option<HitRecord>,
    b: Option<HitRecord>,
)
    requires
        first.to_multiset() == second.to_multiset(),
        spec_is_nearest(first, ray, t_min, t_max, a),
        spec_is_nearest(second, ray, t_min, t_max, b),
        spec_untied(first, ray, t_min, t_max),
    ensures
        a == b,
{
    broadcast use vstd::seq_lib::to_multiset_contains;

    lemma_nearest_is_unique(first, second, ray, t_min, t_max, a, b);
    if let Some(g) = a {
        let h = b->0;
        let i0 = choose|i: int|
            0 <= i < first.len() && (#[trigger] first[i]).hit_model(ray, t_min, t_max) == Some(g);
        let j0 = choose|i: int|
            0 <= i < second.len() && (#[trigger] second[i]).hit_model(ray, t_min, t_max) == Some(h);
        assert(second.contains(second[j0]));
        assert(first.to_multiset().count(second[j0]) > 0);
        assert(first.contains(second[j0]));
        let i1 = choose|i: int| 0 <= i < first.len() && first[i] == second[j0];
        assert(first[i1].hit_model(ray, t_min, t_max) == Some(h));
        assert(first[i0].hit_model(ray, t_min, t_max) == Some(g));
    }
}

/// The hierarchy and the flat list agree. For a tree built over a list of objects
/// that keep the geometry contract, with boxes that bound their contents, asking the
/// root and scanning the list find a hit at the same parameter, or both find
/// nothing; the list may hold the objects in any order.
pub proof fn lemma_bvh_matches_list<T: ?Sized + Hittable>(
    node: &BVH<T>,
    objects: Seq<Arc<T>>,
    ray: Ray,
    t_min: Scalar,
    t_max: Scalar,
    t0: Scalar,
    t1: Scalar,
)
    requires
        spec_built(node, t0, t1),
        spec_primitives(node).to_multiset() == objects.to_multiset(),
        spec_all_lawful(objects, ray, t_min),
        spec_conservative(node, ray, t_min),
    ensures
        spec_same_distance(
            spec_bvh_hit(node, ray, t_min, t_max),
            spec_scan(objects, ray, t_min, t_max, None, 0),
        ),
{
    broadcast use vstd::seq_lib::to_multiset_contains;

    let leaves = spec_primitives(node);
    assert forall|i: int| 0 <= i < leaves.len() implies spec_lawful(
        #[trigger] leaves[i],
        ray,
        t_min,
    ) by {
        assert(leaves.contains(leaves[i]));
        assert(objects.to_multiset().count(leaves[i]) > 0);
        assert(objects.contains(leaves[i]));
        let j = choose|j: int| 0 <= j < objects.len() && objects[j] == leaves[i];
        assert(spec_lawful(objects[j], ray, t_min));
    }
    lemma_bvh_finds_nearest(node, ray, t_min, t_max, t0, t1);
    lemma_list_finds_nearest(objects, ray, t_min, t_max);
    lemma_nearest_is_unique(
        leaves,
        objects,
        ray,
        t_min,
        t_max,
        spec_bvh_hit(node, ray, t_min, t_max),
        spec_scan(objects, ray, t_min, t_max, None, 0),
    );
}

/// The hierarchy and the flat list return the same record, point and normal
/// included, where no two objects are hit at the same parameter.
pub proof fn lemma_bvh_matches_list_exactly<T: ?Sized + Hittable>(
    node: &BVH<T>,
    objects: Seq<Arc<T>>,
    ray: Ray,
    t_min: Scalar,
    t_max: Scalar,
    t0: Scalar,
    t1: Scalar,
)
    requires
        spec_built(node, t0, t1),
        spec_primitives(node).to_multiset() == objects.to_multiset(),
        spec_all_lawful(objects, ray, t_min),
        spec_conservative(node, ray, t_min),
        spec_untied(objects, ray, t_min, t_max),
    ensures
        spec_bvh_hit(node, ray, t_min, t_max) == spec_scan(objects, ray, t_min, t_max, None, 0),
{
    broadcast use vstd::seq_lib::to_multiset_contains;

    let leaves = spec_primitives(node);
    assert forall|i: int| 0 <= i < leaves.len() implies spec_lawful(
        #[trigger] leaves[i],
        ray,
        t_min,
    ) by {
        assert(leaves.contains(leaves[i]));
        assert(objects.to_multiset().count(leaves[i]) > 0);
        assert(objects.contains(leaves[i]));
        let j = choose|j: int| 0 <= j < objects.len() && objects[j] == leaves[i];
        assert(spec_lawful(objects[j], ray, t_min));
    }
    lemma_bvh_finds_nearest(node, ray, t_min, t_max, t0, t1);
    lemma_list_finds_nearest(objects, ray, t_min, t_max);
    lemma_untied_nearest_is_one(
        objects,
        leaves,
        ray,
        t_min,
        t_max,
        spec_scan(objects, ray, t_min, t_max, None, 0),
        spec_bvh_hit(node, ray, t_min, t_max),
    );
}

/// The order of a list does not matter to what it finds: two lists of the same
/// objects, each keeping the geometry contract, find a hit at the same parameter or
/// both nothing.
pub proof fn lemma_list_order_is_immaterial<T: ?Sized + Hittable>(
    first: Seq<Arc<T>>,
    second: Seq<Arc<T>>,
    ray: Ray,
    t_min: Scalar,
    t_max: Scalar,
)
    requires
        first.to_multiset() == second.to_multiset(),
        spec_all_lawful(first, ray, t_min),
        spec_all_lawful(second, ray, t_min),
    ensures
        spec_same_distance(
            spec_scan(first, ray, t_min, t_max, None, 0),
            spec_scan(second, ray, t_min, t_max, None, 0),
        ),
{
    lemma_list_finds_nearest(first, ray, t_min, t_max);
    lemma_list_finds_nearest(second, ray, t_min, t_max);
    lemma_nearest_is_unique(
        first,
        second,
        ray,
        t_min,
        t_max,
        spec_scan(first, ray, t_min, t_max, None, 0),
        spec_scan(second, ray, t_min, t_max, None, 0),
    );
}

} // verus!
