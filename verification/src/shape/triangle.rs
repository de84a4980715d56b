//! The triangle.

use crate::aabb::AABB;
use crate::hittable::share;
use crate::hittable::spec_within;
use crate::hittable::within;
use crate::hittable::Contact;
use crate::hittable::HitRecord;
use crate::material::Material;
use crate::ray::Ray;
use crate::scalar::Scalar;
use crate::vec3::Vec3;
use std::sync::Arc;
use vstd::prelude::*;

verus! {

/// A triangle: three vertices, their normals, and the order in which the vertices are
/// visited, fixed at construction.
pub struct Triangle<M: ?Sized = dyn Material> {
    pub vertices: Vec<Vec3>,
    pub normals: Vec<Vec3>,
    pub indices: Vec<usize>,
    pub material: Arc<M>,
}

/// The vertex order for a normal: it starts at the axis on which the normal is
/// longest, x before y before z where two are as long, and runs on cyclically.
pub open spec fn spec_winding(normal: Vec3) -> Seq<usize> {
    let lengths = normal.spec_abs();
    let longest = lengths.spec_max();
    if longest.spec_equals(lengths.x) {
        seq![0usize, 1usize, 2usize]
    } else if longest.spec_equals(lengths.y) {
        seq![1usize, 2usize, 0usize]
    } else {
        seq![2usize, 0usize, 1usize]
    }
}

/// The vertex order for a normal.
pub fn winding(normal: Vec3) -> (r: Vec<usize>)
    ensures
        r@ == spec_winding(normal),
{
    let lengths: Vec3 = normal.abs();
    let longest: Scalar = lengths.max();
    if longest.equals(lengths.x) {
        vec![0usize, 1usize, 2usize]
    } else if longest.equals(lengths.y) {
        vec![1usize, 2usize, 0usize]
    } else {
        vec![2usize, 0usize, 1usize]
    }
}

/// The products that the edge tests of a ray against a triangle are decided on, as
/// the caller computed them; `edge_test` says what each is.
#[derive(Clone, Copy, Debug, PartialEq, Eq, Structural)]
pub struct EdgeProducts {
    pub denominator: Scalar,
    pub height: Scalar,
    pub along_ac: Scalar,
    pub along_ab: Scalar,
    pub spread: Scalar,
}

/// The verdict of the edge tests: none for a miss, else whether the ray met the side
/// that the edge normal points away from, so that the hit's normal is the edge normal
/// reversed.
pub open spec fn spec_edge_test(
    denominator: Scalar,
    height: Scalar,
    along_ac: Scalar,
    along_ab: Scalar,
    spread: Scalar,
) -> Option<bool> {
    let zero = Scalar::spec_zero();
    let reversed = height.spec_lt(zero);
    let limit = denominator.spec_abs();
    let v = if reversed {
        along_ac.spec_neg()
    } else {
        along_ac
    };
    let w = if reversed {
        along_ab
    } else {
        along_ab.spec_neg()
    };
    let sum = if reversed {
        spread.spec_neg()
    } else {
        spread
    };
    if denominator.spec_equals(zero) {
        None
    } else if height.spec_lt(zero) && denominator.spec_lt(zero) {
        None
    } else if height.spec_gt(zero) && denominator.spec_gt(zero) {
        None
    } else if v.spec_lt(zero) || v.spec_gt(limit) {
        None
    } else if w.spec_lt(zero) || sum.spec_gt(limit) {
        None
    } else {
        Some(reversed)
    }
}

/// Decides the edge tests of a ray against a triangle, on what the caller computed.
///
/// With `ab` and `ac` the edges from the first vertex, `n` their cross product, `ap`
/// the vector from the first vertex to the ray origin and `e` the cross product of
/// `ap` and the ray direction: `denominator` is `n` dot the direction, `height` is
/// `ap` dot `n`, `along_ac` is `ac` dot `e`, `along_ab` is `ab` dot `e`, and `spread`
/// is `along_ac` less `along_ab`.
///
/// A ray parallel to the plane misses, and so does one that points away from it. The
/// two sides of the plane are treated alike: on the side where `height` is negative
/// the edge coordinates change sign. The first coordinate must lie between zero and
/// the size of the denominator, the second must not be negative, and their sum must
/// not exceed that size.
pub fn edge_test(
    denominator: Scalar,
    height: Scalar,
    along_ac: Scalar,
    along_ab: Scalar,
    spread: Scalar,
) -> (r: Option<bool>)
    ensures
        r == spec_edge_test(denominator, height, along_ac, along_ab, spread),
{
    let zero: Scalar = Scalar::zero();
    if denominator.equals(zero) {
        return None;
    }
    if height.lt(zero) && denominator.lt(zero) {
        return None;
    }
    if height.gt(zero) && denominator.gt(zero) {
        return None;
    }
    let limit: Scalar = denominator.abs();
    let reversed: bool = height.lt(zero);
    let v: Scalar = if reversed {
        along_ac.neg()
    } else {
        along_ac
    };
    if v.lt(zero) || v.gt(limit) {
        return None;
    }
    let w: Scalar = if reversed {
        along_ab
    } else {
        along_ab.neg()
    };
    let sum: Scalar = if reversed {
        spread.neg()
    } else {
        spread
    };
    if w.lt(zero) || sum.gt(limit) {
        return None;
    }
    Some(reversed)
}

impl<M: ?Sized> Triangle<M> {
    /// What `hit` may return, given the caller's arithmetic: for the products that
    /// `edges` found, nothing where the edge tests fail; else, for the parameter and
    /// contact that `surface` found on the side met, the record of them where the
    /// parameter lies strictly inside the interval, and nothing where it does not. A
    /// triangle has no surface coordinates: the record's are zero.
    pub open spec fn spec_hit<E: Fn(Ray) -> EdgeProducts, P: Fn(Ray, bool) -> (Scalar, Contact)>(
        &self,
        ray: Ray,
        t_min: Scalar,
        t_max: Scalar,
        edges: E,
        surface: P,
        r: Option<HitRecord<M>>,
    ) -> bool {
        exists|products: EdgeProducts| #[trigger]
            call_ensures(edges, (ray,), products) && match spec_edge_test(
                products.denominator,
                products.height,
                products.along_ac,
                products.along_ab,
                products.spread,
            ) {
                None => r is None,
                Some(reversed) => exists|landing: (Scalar, Contact)| #[trigger]
                    call_ensures(surface, (ray, reversed), landing) && r == (if spec_within(
                        landing.0,
                        t_min,
                        t_max,
                    ) {
                        Some(
                            HitRecord::spec_at(
                                landing.0,
                                Contact {
                                    point: landing.1.point,
                                    normal: landing.1.normal,
                                    uv: (Scalar::spec_zero(), Scalar::spec_zero()),
                                    facing: landing.1.facing,
                                },
                                self.material,
                            ),
                        )
                    } else {
                        None
                    }),
            }
    }

    /// The intersection of a ray with the triangle strictly inside the interval.
    /// `edges` computes the products of the edge tests. `surface` is told whether the
    /// ray met the reversed side and finds the ray parameter of the hit and the
    /// contact: the point, the unit normal of the side met, and the dot product of
    /// direction and normal.
    pub fn hit<E: Fn(Ray) -> EdgeProducts, P: Fn(Ray, bool) -> (Scalar, Contact)>(
        &self,
        ray: &Ray,
        t_min: Scalar,
        t_max: Scalar,
        edges: &E,
        surface: &P,
    ) -> (r: Option<HitRecord<M>>)
        requires
            forall|x: Ray| call_requires(*edges, (x,)),
            forall|x: Ray, reversed: bool| call_requires(*surface, (x, reversed)),
        ensures
            self.spec_hit(*ray, t_min, t_max, *edges, *surface, r),
            r matches Some(h) ==> spec_within(h.t, t_min, t_max),
    {
        let products: EdgeProducts = edges(*ray);
        match edge_test(
            products.denominator,
            products.height,
            products.along_ac,
            products.along_ab,
            products.spread,
        ) {
            None => None,
            Some(reversed) => {
                let landing: (Scalar, Contact) = surface(*ray, reversed);
                if within(landing.0, t_min, t_max) {
                    let contact: Contact = Contact {
                        point: landing.1.point,
                        normal: landing.1.normal,
                        uv: (Scalar::zero(), Scalar::zero()),
                        facing: landing.1.facing,
                    };
                    Some(HitRecord::at(landing.0, contact, share(&self.material)))
                } else {
                    None
                }
            },
        }
    }

    /// The bounding box: the tightest box around the vertices, padded by `pad` so
    /// that a triangle in an axis plane has a box with thickness.
    pub fn bounding_box<F: Fn(AABB) -> AABB>(&self, pad: &F) -> (r: AABB)
        requires
            self.vertices@.len() >= 3,
            forall|b: AABB| call_requires(*pad, (b,)),
        ensures
            call_ensures(*pad, (self.spec_extent(),), r),
    {
        pad(self.extent())
    }

    /// The tightest box around the three vertices.
    pub open spec fn spec_extent(&self) -> AABB {
        AABB {
            minimum: self.vertices@[0].spec_component_min(
                self.vertices@[1].spec_component_min(self.vertices@[2]),
            ),
            maximum: self.vertices@[0].spec_component_max(
                self.vertices@[1].spec_component_max(self.vertices@[2]),
            ),
        }
    }

    /// A triangle with given vertex normals. The vertex order follows the first
    /// normal.
    pub fn arc_normal(vertices: Vec<Vec3>, normals: Vec<Vec3>, material: Arc<M>) -> (r: Arc<
        Triangle<M>,
    >)
        requires
            normals@.len() > 0,
        ensures
            r.vertices@ == vertices@,
            r.normals@ == normals@,
            r.indices@ == spec_winding(normals@[0]),
            r.material == material,
    {
        let indices: Vec<usize> = winding(normals[0]);
        Arc::new(Triangle { vertices, normals, indices, material })
    }

    /// A flat triangle: `normal` is the unit normal of its plane, which the caller
    /// computed from the edges, and stands at all three vertices.
    pub fn arc(vertices: Vec<Vec3>, normal: Vec3, material: Arc<M>) -> (r: Arc<Triangle<M>>)
        ensures
            r.vertices@ == vertices@,
            r.normals@ == seq![normal, normal, normal],
            r.indices@ == spec_winding(normal),
            r.material == material,
    {
        let normals: Vec<Vec3> = vec![normal, normal, normal];
        Triangle::arc_normal(vertices, normals, material)
    }

    /// The tightest box around the vertices: on each axis the least and the greatest
    /// of their coordinates. The bounding box is this one, padded by the caller.
    pub fn extent(&self) -> (r: AABB)
        requires
            self.vertices@.len() >= 3,
        ensures
            r == self.spec_extent(),
    {
        let a: Vec3 = self.vertices[0];
        let b: Vec3 = self.vertices[1];
        let c: Vec3 = self.vertices[2];
        AABB {
            minimum: a.component_min(b.component_min(c)),
            maximum: a.component_max(b.component_max(c)),
        }
    }
}

} // verus!
