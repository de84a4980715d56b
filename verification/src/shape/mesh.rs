//! Triangle meshes.

use crate::aabb::AABB;
use crate::bvh::spec_built;
use crate::bvh::spec_gated;
use crate::bvh::spec_primitives;
use crate::bvh::BVH;
use crate::hittable::share;
use crate::hittable::HitRecord;
use crate::hittable::Hittable;
use crate::hittable::HittableList;
use crate::material::Material;
use crate::ray::Ray;
use crate::scalar::Scalar;
use crate::shape::triangle::spec_winding;
use crate::shape::triangle::Triangle;
use crate::shape::Shape;
use crate::vec3::Vec3;
use std::sync::Arc;
use vstd::prelude::*;

verus! {

/// A mesh of triangles of one material, with a hierarchy over its faces.
pub struct Mesh<T: ?Sized = dyn Hittable, M: ?Sized = dyn Material> {
    pub faces: Arc<BVH<T>>,
    pub material: Arc<M>,
    /// On each axis the least coordinate of the vertices.
    pub minimum: Vec3,
    /// On each axis the greatest coordinate of the vertices.
    pub maximum: Vec3,
}

/// The least and the greatest coordinates, axis by axis, of the first `n` corners'
/// vertices. Before any vertex the least stands at the largest finite value and the
/// greatest at the smallest, so that the first vertex replaces both.
pub open spec fn spec_reach(corners: Seq<(Vec3, Vec3)>, n: int) -> (Vec3, Vec3)
    decreases n,
{
    if n <= 0 {
        (
            Vec3 {
                x: Scalar::spec_largest(),
                y: Scalar::spec_largest(),
                z: Scalar::spec_largest(),
            },
            Vec3 {
                x: Scalar::spec_smallest(),
                y: Scalar::spec_smallest(),
                z: Scalar::spec_smallest(),
            },
        )
    } else {
        let before = spec_reach(corners, n - 1);
        (
            before.0.spec_component_min(corners[n - 1].0),
            before.1.spec_component_max(corners[n - 1].0),
        )
    }
}

/// Whether a shape is the triangle of the face with the given number: its vertices
/// and normals are those of the face's three corners, and its vertex order follows
/// the first normal.
pub open spec fn spec_is_face<T: ?Sized, M: ?Sized>(
    shape: Shape<T, M>,
    corners: Seq<(Vec3, Vec3)>,
    material: Arc<M>,
    face: int,
) -> bool {
    shape matches Shape::Triangle(t) && t.vertices@ == seq![
        corners[3 * face].0,
        corners[3 * face + 1].0,
        corners[3 * face + 2].0,
    ] && t.normals@ == seq![corners[3 * face].1, corners[3 * face + 1].1, corners[3 * face + 2].1]
        && t.indices@ == spec_winding(corners[3 * face].1) && t.material == material
}

/// Whether an object is what `lift` made of the face with the given number.
pub open spec fn spec_lifted_face<T: ?Sized, M: ?Sized, F: Fn(Shape<T, M>) -> Arc<T>>(
    lift: F,
    object: Arc<T>,
    corners: Seq<(Vec3, Vec3)>,
    material: Arc<M>,
    face: int,
) -> bool {
    exists|shape: Shape<T, M>| #[trigger]
        spec_is_face(shape, corners, material, face) && call_ensures(lift, (shape,), object)
}

/// Whether the objects are what `lift` made of the faces, face by face.
pub open spec fn spec_lifted_faces<T: ?Sized, M: ?Sized, F: Fn(Shape<T, M>) -> Arc<T>>(
    lift: F,
    objects: Seq<Arc<T>>,
    corners: Seq<(Vec3, Vec3)>,
    material: Arc<M>,
) -> bool {
    &&& 3 * objects.len() == corners.len()
    &&& forall|face: int|
        0 <= face < objects.len() ==> spec_lifted_face(
            lift,
            #[trigger] objects[face],
            corners,
            material,
            face,
        )
}

impl<T: ?Sized + Hittable, M: ?Sized> Mesh<T, M> {
    /// A mesh from the corners of its faces, three to a face, each a vertex and its
    /// normal. There must be at least one face and no corner left over.
    ///
    /// Each face becomes a triangle, which `lift` turns into an object, and the
    /// hierarchy is built over those objects for the unit time interval. The mesh's
    /// own box reaches from the least to the greatest coordinate of the vertices.
    pub fn arc<F: Fn(Shape<T, M>) -> Arc<T>>(
        corners: &Vec<(Vec3, Vec3)>,
        material: Arc<M>,
        lift: &F,
    ) -> (r: Arc<Mesh<T, M>>)
        requires
            corners@.len() > 0,
            corners@.len() % 3 == 0,
            forall|s: Shape<T, M>| call_requires(*lift, (s,)),
        ensures
            r.material == material,
            (r.minimum, r.maximum) == spec_reach(corners@, corners@.len() as int),
            spec_built(&*r.faces, Scalar::spec_zero(), Scalar::spec_one()),
            spec_gated(&*r.faces, *lift),
            exists|objects: Seq<Arc<T>>| #[trigger]
                spec_lifted_faces(*lift, objects, corners@, material) && spec_primitives(
                    &*r.faces,
                ).to_multiset() == objects.to_multiset(),
    {
        let mut faces: HittableList<T> = HittableList::new();
        let mut minimum: Vec3 = Vec3::new(Scalar::largest(), Scalar::largest(), Scalar::largest());
        let mut maximum: Vec3 = Vec3::new(
            Scalar::smallest(),
            Scalar::smallest(),
            Scalar::smallest(),
        );
        let count: usize = corners.len() / 3;
        let mut face: usize = 0;
        while face < count
            invariant
                face <= count,
                3 * count == corners@.len(),
                corners@.len() <= usize::MAX,
                faces.objects@.len() == face,
                (minimum, maximum) == spec_reach(corners@, 3 * face),
                forall|s: Shape<T, M>| call_requires(*lift, (s,)),
                forall|f: int|
                    0 <= f < face ==> spec_lifted_face(
                        *lift,
                        #[trigger] faces.objects@[f],
                        corners@,
                        material,
                        f,
                    ),
            decreases count - face,
        {
            let a: (Vec3, Vec3) = corners[3 * face];
            let b: (Vec3, Vec3) = corners[3 * face + 1];
            let c: (Vec3, Vec3) = corners[3 * face + 2];
            let vertices: Vec<Vec3> = vec![a.0, b.0, c.0];
            let normals: Vec<Vec3> = vec![a.1, b.1, c.1];
            minimum = minimum.component_min(a.0).component_min(b.0).component_min(c.0);
            maximum = maximum.component_max(a.0).component_max(b.0).component_max(c.0);
            proof {
                reveal_with_fuel(spec_reach, 4);
            }
            let shape: Shape<T, M> = Shape::Triangle(
                Triangle::arc_normal(vertices, normals, share(&material)),
            );
            let ghost described = shape;
            let ghost earlier = faces.objects@;
            let object: Arc<T> = lift(shape);
            faces.add(object);
            proof {
                assert(spec_is_face(described, corners@, material, face as int));
                assert forall|f: int| 0 <= f < face + 1 implies spec_lifted_face(
                    *lift,
                    #[trigger] faces.objects@[f],
                    corners@,
                    material,
                    f,
                ) by {
                    if f < face {
                        assert(faces.objects@[f] == earlier[f]);
                    }
                }
            }
            face = face + 1;
        }
        let ghost lifted = faces.objects@;
        let mut objects: Vec<Arc<T>> = faces.objects;
        let tree: Arc<BVH<T>> = BVH::arc(&mut objects, Scalar::zero(), Scalar::one(), lift);
        proof {
            assert(spec_lifted_faces(*lift, lifted, corners@, material));
        }
        Arc::new(Mesh { faces: tree, material, minimum, maximum })
    }
}

/// A mesh whose faces keep the geometry contract, under boxes that bound them, keeps
/// it too.
pub proof fn lemma_mesh_is_lawful<T: ?Sized + Hittable, M: ?Sized + Material>(
    mesh: Mesh<T, M>,
    ray: Ray,
    t_min: Scalar,
    b: Scalar,
    c: Scalar,
)
    requires
        spec_built(&*mesh.faces, Scalar::spec_zero(), Scalar::spec_one()),
        crate::nearest::spec_all_lawful(spec_primitives(&*mesh.faces), ray, t_min),
        crate::nearest::spec_conservative(&*mesh.faces, ray, t_min),
    ensures
        mesh.hit_model(ray, t_min, b) matches Some(h) ==> crate::hittable::spec_within(
            h.t,
            t_min,
            b,
        ),
        c.spec_le(b) ==> mesh.hit_model(ray, t_min, c) == crate::nearest::spec_below(
            mesh.hit_model(ray, t_min, b),
            c,
        ),
{
    crate::nearest::lemma_bvh_is_lawful(
        &*mesh.faces,
        ray,
        t_min,
        b,
        c,
        Scalar::spec_zero(),
        Scalar::spec_one(),
    );
}

impl<T: ?Sized + Hittable, M: ?Sized + Material> Hittable for Mesh<T, M> {
    open spec fn hit_model(&self, ray: Ray, t_min: Scalar, t_max: Scalar) -> Option<HitRecord> {
        self.faces.hit_model(ray, t_min, t_max)
    }

    open spec fn box_model(&self, t0: Scalar, t1: Scalar) -> Option<AABB> {
        Some(AABB::spec_new(self.minimum, self.maximum))
    }

    /// The nearest hit among the faces.
    fn hit(&self, ray: &Ray, t_min: Scalar, t_max: Scalar) -> (r: Option<HitRecord>) {
        self.faces.hit(ray, t_min, t_max)
    }

    /// The box around all vertices.
    fn bounding_box(&self, t0: Scalar, t1: Scalar) -> (r: Option<AABB>) {
        Some(AABB::new(self.minimum, self.maximum))
    }
}

} // verus!
