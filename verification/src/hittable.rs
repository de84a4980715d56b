//! The geometry contract, the record of a hit, and the flat aggregate.

use crate::aabb::AABB;
use crate::material::Material;
use crate::ray::Ray;
use crate::scalar::Scalar;
use crate::vec3::Vec3;
use std::sync::Arc;
use vstd::prelude::*;

verus! {

/// Where a ray meets a surface, without the surface's material: what a material is
/// handed to scatter from.
#[derive(Clone, Copy, Debug, PartialEq, Eq)]
pub struct SurfacePoint {
    pub point: Vec3,
    pub normal: Vec3,
    pub t: Scalar,
    pub front_face: bool,
    pub uv: (Scalar, Scalar),
}

/// What the caller's arithmetic found where a ray meets a surface.
#[derive(Clone, Copy, Debug, PartialEq, Eq)]
pub struct Contact {
    /// The point on the ray.
    pub point: Vec3,
    /// The geometric normal of the surface there.
    pub normal: Vec3,
    /// The surface coordinates there.
    pub uv: (Scalar, Scalar),
    /// The dot product of the ray direction and `normal`.
    pub facing: Scalar,
}

/// One intersection of a ray with a surface.
pub struct HitRecord<M: ?Sized = dyn Material> {
    /// The point of the hit.
    pub point: Vec3,
    /// The surface normal there, turned against the incoming ray.
    pub normal: Vec3,
    /// The ray parameter of the hit.
    pub t: Scalar,
    /// Whether the ray came from outside, the side the geometric normal points to.
    pub front_face: bool,
    /// The material of the surface.
    pub material: Arc<M>,
    /// The surface coordinates of the hit.
    pub uv: (Scalar, Scalar),
}

impl<M: ?Sized> HitRecord<M> {
    /// The record without its material.
    pub open spec fn spec_surface(&self) -> SurfacePoint {
        SurfacePoint {
            point: self.point,
            normal: self.normal,
            t: self.t,
            front_face: self.front_face,
            uv: self.uv,
        }
    }

    /// The record without its material.
    pub fn surface(&self) -> (r: SurfacePoint)
        ensures
            r == self.spec_surface(),
    {
        SurfacePoint {
            point: self.point,
            normal: self.normal,
            t: self.t,
            front_face: self.front_face,
            uv: self.uv,
        }
    }

    /// The record of a hit at ray parameter `t` with the given contact: the normal
    /// is turned against the incoming ray.
    pub open spec fn spec_at(t: Scalar, contact: Contact, material: Arc<M>) -> HitRecord<M> {
        HitRecord {
            point: contact.point,
            normal: if contact.facing.spec_gt(Scalar::spec_zero()) {
                contact.normal.spec_neg()
            } else {
                contact.normal
            },
            t,
            front_face: !contact.facing.spec_gt(Scalar::spec_zero()),
            material,
            uv: contact.uv,
        }
    }

    /// This record carried to another place: at `point`, with the normal `normal`.
    /// The ray parameter, the face that was met, the material and the surface
    /// coordinates stay as they are.
    pub open spec fn spec_carried(self, point: Vec3, normal: Vec3) -> HitRecord<M> {
        HitRecord {
            point,
            normal,
            t: self.t,
            front_face: self.front_face,
            material: self.material,
            uv: self.uv,
        }
    }

    /// Carries the record to another place, as a transform of the object does: the
    /// point and the normal are replaced, everything else is kept.
    pub fn carry(&mut self, point: Vec3, normal: Vec3)
        ensures
            *final(self) == old(self).spec_carried(point, normal),
    {
        self.point = point;
        self.normal = normal;
    }

    /// The record of a hit at ray parameter `t` with the given contact.
    pub fn at(t: Scalar, contact: Contact, material: Arc<M>) -> (r: HitRecord<M>)
        ensures
            r == Self::spec_at(t, contact, material),
    {
        let mut record: HitRecord<M> = HitRecord {
            point: contact.point,
            normal: contact.normal,
            t,
            front_face: false,
            material,
            uv: contact.uv,
        };
        record.set_face_normal(contact.facing, contact.normal);
        record
    }

    /// A record not yet filled in: at the origin, as far away as a finite parameter
    /// goes.
    pub fn new(material: Arc<M>) -> (r: HitRecord<M>)
        ensures
            r.point == Vec3::spec_zeros(),
            r.normal == Vec3::spec_zeros(),
            r.t == Scalar::spec_largest(),
            !r.front_face,
            r.material == material,
            r.uv == (Scalar::spec_zero(), Scalar::spec_zero()),
    {
        HitRecord {
            point: Vec3::zeros(),
            normal: Vec3::zeros(),
            t: Scalar::largest(),
            front_face: false,
            material,
            uv: (Scalar::zero(), Scalar::zero()),
        }
    }

    /// Orients the record's normal against the incoming ray. `facing` is the dot
    /// product of the ray direction and the geometric normal `normal`: where it is
    /// positive the ray left through the surface from inside, the normal is stored
    /// reversed and the hit is a back face; else it is stored as given.
    pub fn set_face_normal(&mut self, facing: Scalar, normal: Vec3)
        ensures
            final(self).front_face == !facing.spec_gt(Scalar::spec_zero()),
            final(self).normal == (if facing.spec_gt(Scalar::spec_zero()) {
                normal.spec_neg()
            } else {
                normal
            }),
            final(self).point == old(self).point,
            final(self).t == old(self).t,
            final(self).material == old(self).material,
            final(self).uv == old(self).uv,
    {
        if facing.gt(Scalar::zero()) {
            self.normal = normal.neg();
            self.front_face = false;
        } else {
            self.normal = normal;
            self.front_face = true;
        }
    }
}

/// Another handle to a shared value: `Arc::clone`, which makes a second pointer to the
/// same allocation, so that the value seen through the new handle is the value seen
/// through the old one.
#[verifier::external_body]
pub(crate) fn share<T: ?Sized>(handle: &Arc<T>) -> (r: Arc<T>)
    ensures
        r == *handle,
{
    Arc::clone(handle)
}

/// Whether `t` lies strictly inside the parameter interval.
pub open spec fn spec_within(t: Scalar, t_min: Scalar, t_max: Scalar) -> bool {
    t_min.spec_lt(t) && t.spec_lt(t_max)
}

/// Whether a ray parameter lies strictly inside an interval. A NaN lies in none.
#[verifier::when_used_as_spec(spec_within)]
pub fn within(t: Scalar, t_min: Scalar, t_max: Scalar) -> (r: bool)
    ensures
        r == spec_within(t, t_min, t_max),
{
    t_min.lt(t) && t.lt(t_max)
}

/// Anything a ray can hit.
///
/// The flat list, the hierarchy and the composites of this crate implement the
/// contract and are proved to keep it. The primitives are implemented by the caller,
/// whose arithmetic this crate does not see: of such an implementation the contract
/// is taken on trust, and what is proved of a scene is proved of objects that keep
/// it.
pub trait Hittable: Sync + Send {
    /// The result of `hit`. Geometry is a function of its arguments.
    open spec fn hit_model(&self, ray: Ray, t_min: Scalar, t_max: Scalar) -> Option<HitRecord> {
        arbitrary()
    }

    /// The result of `bounding_box`.
    open spec fn box_model(&self, t0: Scalar, t1: Scalar) -> Option<AABB> {
        arbitrary()
    }

    /// The nearest intersection of the ray with the surface whose parameter lies
    /// strictly inside `(t_min, t_max)`, if there is one.
    fn hit(&self, ray: &Ray, t_min: Scalar, t_max: Scalar) -> (r: Option<HitRecord>)
        ensures
            r == self.hit_model(*ray, t_min, t_max),
            r matches Some(h) ==> spec_within(h.t, t_min, t_max),
    ;

    /// A box that bounds the surface over the time interval, or none for a surface
    /// without bounds.
    fn bounding_box(&self, t0: Scalar, t1: Scalar) -> (r: Option<AABB>)
        ensures
            r == self.box_model(t0, t1),
    ;
}

/// What scanning the objects from index `from` on leaves as the nearest hit, when
/// `best` is the nearest so far and `closest` the upper end of the interval that is
/// still open: each object is asked for a hit below `closest`, and a hit takes over
/// as `best` and lowers `closest` to its parameter.
pub open spec fn spec_scan<T: ?Sized + Hittable>(
    objects: Seq<Arc<T>>,
    ray: Ray,
    t_min: Scalar,
    closest: Scalar,
    best: Option<HitRecord>,
    from: int,
) -> Option<HitRecord>
    decreases objects.len() - from,
{
    if from < 0 || from >= objects.len() {
        best
    } else {
        match objects[from].hit_model(ray, t_min, closest) {
            Some(h) => spec_scan(objects, ray, t_min, h.t, Some(h), from + 1),
            None => spec_scan(objects, ray, t_min, closest, best, from + 1),
        }
    }
}

/// The union of the boxes of the first `n` objects; none where there is no object or
/// one of them has no box.
pub open spec fn spec_union<T: ?Sized + Hittable>(
    objects: Seq<Arc<T>>,
    t0: Scalar,
    t1: Scalar,
    n: int,
) -> Option<AABB>
    decreases n,
{
    if n <= 0 || n > objects.len() {
        None
    } else if n == 1 {
        objects[0].box_model(t0, t1)
    } else {
        match (spec_union(objects, t0, t1, n - 1), objects[n - 1].box_model(t0, t1)) {
            (Some(a), Some(b)) => Some(AABB::spec_surrounding_box(a, b)),
            _ => None,
        }
    }
}

/// Once the union is none it stays none, however many more objects are taken in.
pub proof fn lemma_union_none<T: ?Sized + Hittable>(
    objects: Seq<Arc<T>>,
    t0: Scalar,
    t1: Scalar,
    k: int,
    n: int,
)
    requires
        1 <= k <= n <= objects.len(),
        spec_union(objects, t0, t1, k) is None,
    ensures
        spec_union(objects, t0, t1, n) is None,
    decreases n - k,
{
    if k < n {
        lemma_union_none(objects, t0, t1, k, n - 1);
    }
}

/// The union of the boxes of a list holds the box of each of its objects: a point
/// within the box of one lies within the union.
pub proof fn lemma_union_holds_each<T: ?Sized + Hittable>(
    objects: Seq<Arc<T>>,
    t0: Scalar,
    t1: Scalar,
    n: int,
    i: int,
    p: Vec3,
)
    requires
        0 <= i < n <= objects.len(),
        spec_union(objects, t0, t1, n) is Some,
        objects[i].box_model(t0, t1) matches Some(b) && b.spec_contains(p),
    ensures
        spec_union(objects, t0, t1, n)->0.spec_contains(p),
    decreases n,
{
    if n > 1 {
        let before = spec_union(objects, t0, t1, n - 1)->0;
        let last = objects[n - 1].box_model(t0, t1)->0;
        if i < n - 1 {
            lemma_union_holds_each(objects, t0, t1, n - 1, i, p);
        }
        crate::aabb::lemma_surrounding_box_contains(before, last, p);
    }
}

/// A flat aggregate of objects.
pub struct HittableList<T: ?Sized = dyn Hittable> {
    pub objects: Vec<Arc<T>>,
}

impl<T: ?Sized> HittableList<T> {
    pub fn new() -> (r: HittableList<T>)
        ensures
            r.objects@.len() == 0,
    {
        HittableList { objects: Vec::new() }
    }

    pub fn add(&mut self, boxed_object: Arc<T>)
        ensures
            final(self).objects@ == old(self).objects@.push(boxed_object),
    {
        self.objects.push(boxed_object);
    }
}

impl<T: ?Sized + Hittable> Hittable for HittableList<T> {
    open spec fn hit_model(&self, ray: Ray, t_min: Scalar, t_max: Scalar) -> Option<HitRecord> {
        spec_scan(self.objects@, ray, t_min, t_max, None, 0)
    }

    open spec fn box_model(&self, t0: Scalar, t1: Scalar) -> Option<AABB> {
        spec_union(self.objects@, t0, t1, self.objects@.len() as int)
    }

    /// Scans the objects in order and keeps the nearest hit: the interval handed to
    /// each object ends at the nearest hit so far.
    fn hit(&self, ray: &Ray, t_min: Scalar, t_max: Scalar) -> (r: Option<HitRecord>) {
        let mut best: Option<HitRecord> = None;
        let mut closest_so_far: Scalar = t_max;
        let mut i: usize = 0;
        while i < self.objects.len()
            invariant
                i <= self.objects.len(),
                spec_scan(self.objects@, *ray, t_min, closest_so_far, best, i as int) == spec_scan(
                    self.objects@,
                    *ray,
                    t_min,
                    t_max,
                    None,
                    0,
                ),
                best matches Some(h) ==> spec_within(h.t, t_min, t_max) && closest_so_far == h.t,
                best is None ==> closest_so_far == t_max,
            decreases self.objects.len() - i,
        {
            match self.objects[i].hit(ray, t_min, closest_so_far) {
                Some(h) => {
                    proof {
                        crate::scalar::lemma_order(h.t, closest_so_far, t_max);
                    }
                    closest_so_far = h.t;
                    best = Some(h);
                },
                None => {},
            }
            i = i + 1;
        }
        best
    }

    /// The union of the objects' boxes.
    fn bounding_box(&self, t0: Scalar, t1: Scalar) -> (r: Option<AABB>) {
        if self.objects.len() == 0 {
            return None;
        }
        let mut output_box: AABB = AABB::zeros();
        let mut i: usize = 0;
        while i < self.objects.len()
            invariant
                i <= self.objects.len(),
                self.objects.len() > 0,
                i > 0 ==> spec_union(self.objects@, t0, t1, i as int) == Some(output_box),
            decreases self.objects.len() - i,
        {
            match self.objects[i].bounding_box(t0, t1) {
                None => {
                    proof {
                        lemma_union_none(
                            self.objects@,
                            t0,
                            t1,
                            i as int + 1,
                            self.objects@.len() as int,
                        );
                    }
                    return None;
                },
                Some(temp_box) => {
                    if i == 0 {
                        output_box = temp_box;
                    } else {
                        output_box = AABB::surrounding_box(&output_box, &temp_box);
                    }
                },
            }
            i = i + 1;
        }
        Some(output_box)
    }
}

} // verus!
