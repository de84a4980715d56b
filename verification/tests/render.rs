use nalgebra::Vector3;
use rand::Rng;
use raytracer::aabb::{Slab, AABB};
use raytracer::bvh::{Child, BVH};
use raytracer::hittable::{Contact, HitRecord, Hittable, HittableList, SurfacePoint};
use raytracer::material::dielectric::{DielectricMaterial, Fresnel};
use raytracer::material::emissive::EmissiveMaterial;
use raytracer::material::lambert::LambertianMaterial;
use raytracer::material::metal::MetalMaterial;
use raytracer::material::Material;
use raytracer::ray::Ray;
use raytracer::scalar::Scalar;
use raytracer::shape::cube::Cube;
use raytracer::shape::mesh::Mesh;
use raytracer::shape::rectangle_xy::RectangleXY;
use raytracer::shape::rectangle_xz::RectangleXZ;
use raytracer::shape::rectangle_yz::RectangleYZ;
use raytracer::shape::sphere::{Roots, Sphere};
use raytracer::shape::triangle::{EdgeProducts, Triangle};
use raytracer::shape::{Crossing, Shape};
use raytracer::texture::solid_color::SolidColorTexture;
use raytracer::texture::Texture;
use raytracer::transform::rotate::rotate_y::RotateY;
use raytracer::transform::translate::Translate;
use raytracer::vec3::Vec3;
use std::sync::Arc;

type V = Vector3<f64>;

fn s(x: f64) -> Scalar {
    Scalar::from_bits(x.to_bits())
}

fn f(x: Scalar) -> f64 {
    f64::from_bits(x.to_bits())
}

fn pack(v: V) -> Vec3 {
    Vec3::new(s(v.x), s(v.y), s(v.z))
}

fn open(v: Vec3) -> V {
    Vector3::new(f(v.x), f(v.y), f(v.z))
}

fn ray(origin: V, direction: V) -> Ray {
    Ray::new(pack(origin), pack(direction))
}

fn slabs(b: AABB, x: Ray) -> [Slab; 3] {
    let o = open(x.origin);
    let d = open(x.direction);
    let low = open(b.minimum);
    let high = open(b.maximum);
    let one = |axis: usize| {
        let inverse = 1.0 / d[axis];
        Slab {
            inverse: s(inverse),
            near: s((low[axis] - o[axis]) * inverse),
            far: s((high[axis] - o[axis]) * inverse),
        }
    };
    [one(0), one(1), one(2)]
}

fn solve(center: V, radius: f64, x: Ray) -> Roots {
    let o = open(x.origin);
    let d = open(x.direction);
    let oc = o - center;
    let a = d.magnitude_squared();
    let half_b = oc.dot(&d);
    let c = oc.magnitude_squared() - radius * radius;
    let discriminant = half_b * half_b - a * c;
    let root = discriminant.sqrt();
    Roots {
        discriminant: s(discriminant),
        near_root: s((-half_b - root) / a),
        far_root: s((-half_b + root) / a),
    }
}

fn on_sphere(center: V, radius: f64, x: Ray, t: Scalar) -> Contact {
    let o = open(x.origin);
    let d = open(x.direction);
    let point = o + f(t) * d;
    let normal = (point - center) / radius;
    let theta = f64::acos(-normal.y);
    let phi = f64::atan2(-normal.z, normal.x) + std::f64::consts::PI;
    Contact {
        point: pack(point),
        normal: pack(normal),
        uv: (s(phi / (2.0 * std::f64::consts::PI)), s(theta / std::f64::consts::PI)),
        facing: s(d.dot(&normal)),
    }
}

fn cross_plane(k: f64, axis: usize, first: usize, second: usize, x: Ray) -> Crossing {
    let o = open(x.origin);
    let d = open(x.direction);
    let t = (k - o[axis]) / d[axis];
    let p = o + t * d;
    Crossing { t: s(t), first: s(p[first]), second: s(p[second]) }
}

fn on_plane(
    a: (Scalar, Scalar),
    b: (Scalar, Scalar),
    axis: usize,
    first: usize,
    second: usize,
    x: Ray,
    t: Scalar,
) -> Contact {
    let o = open(x.origin);
    let d = open(x.direction);
    let p = o + f(t) * d;
    let mut normal = Vector3::zeros();
    normal[axis] = 1.0;
    Contact {
        point: pack(p),
        normal: pack(normal),
        uv: (
            s((p[first] - f(a.0)) / (f(a.1) - f(a.0))),
            s((p[second] - f(b.0)) / (f(b.1) - f(b.0))),
        ),
        facing: s(d.dot(&normal)),
    }
}

fn edge_products(vertices: &[Vec3], x: Ray) -> EdgeProducts {
    let a = open(vertices[0]);
    let ab = open(vertices[1]) - a;
    let ac = open(vertices[2]) - a;
    let n = ab.cross(&ac);
    let d = open(x.direction);
    let ap = open(x.origin) - a;
    let e = -d.cross(&ap);
    let along_ac = ac.dot(&e);
    let along_ab = ab.dot(&e);
    EdgeProducts {
        denominator: s(n.dot(&d)),
        height: s(ap.dot(&n)),
        along_ac: s(along_ac),
        along_ab: s(along_ab),
        spread: s(along_ac - along_ab),
    }
}

fn on_triangle(vertices: &[Vec3], x: Ray, reversed: bool) -> (Scalar, Contact) {
    let a = open(vertices[0]);
    let ab = open(vertices[1]) - a;
    let ac = open(vertices[2]) - a;
    let n = ab.cross(&ac);
    let d = open(x.direction);
    let o = open(x.origin);
    let height = (o - a).dot(&n);
    let inverse = 1.0 / n.dot(&d).abs();
    let (t, normal) =
        if reversed { (-height * inverse, -n.normalize()) } else { (height * inverse, n.normalize()) };
    let contact = Contact {
        point: pack(o + t * d),
        normal: pack(normal),
        uv: (s(0.0), s(0.0)),
        facing: s(d.dot(&normal)),
    };
    (s(t), contact)
}

fn pad(b: AABB) -> AABB {
    let e = Vector3::new(0.0001, 0.0001, 0.0001);
    AABB::new(pack(open(b.minimum) - e), pack(open(b.maximum) + e))
}

struct Void;

impl Material for Void {
    fn scatter(&self, _ray: &Ray, _hit: &SurfacePoint) -> Option<(Vec3, Ray)> {
        None
    }

    fn emitted(&self, _uv: (Scalar, Scalar), _point: &Vec3) -> Vec3 {
        Vec3::zeros()
    }
}

fn passage(t_min: Scalar, t_max: Scalar) -> HitRecord {
    let low = f(t_min);
    let high = f(t_max).min(f64::MAX);
    let mut record = HitRecord::new(Arc::new(Void) as Arc<dyn Material>);
    record.t = s(low + (high - low) / 2.0);
    record
}

struct Surface(Shape);

fn lift(shape: Shape) -> Arc<dyn Hittable> {
    Arc::new(Surface(shape))
}

impl Hittable for Surface {
    fn hit(&self, x: &Ray, t_min: Scalar, t_max: Scalar) -> Option<HitRecord> {
        match &self.0 {
            Shape::Volume(b) => {
                if b.hit(x, t_min, t_max, &slabs) {
                    Some(passage(t_min, t_max))
                } else {
                    None
                }
            }
            Shape::Sphere(sphere) => {
                let c = open(sphere.center);
                let r = f(sphere.radius);
                sphere.hit(x, t_min, t_max, &|x| solve(c, r, x), &|x, t| on_sphere(c, r, x, t))
            }
            Shape::RectangleXY(q) => q.hit(
                x,
                t_min,
                t_max,
                &|x| cross_plane(f(q.k), 2, 0, 1, x),
                &|x, t| on_plane(q.x, q.y, 2, 0, 1, x, t),
            ),
            Shape::RectangleXZ(q) => q.hit(
                x,
                t_min,
                t_max,
                &|x| cross_plane(f(q.k), 1, 0, 2, x),
                &|x, t| on_plane(q.x, q.z, 1, 0, 2, x, t),
            ),
            Shape::RectangleYZ(q) => q.hit(
                x,
                t_min,
                t_max,
                &|x| cross_plane(f(q.k), 0, 1, 2, x),
                &|x, t| on_plane(q.y, q.z, 0, 1, 2, x, t),
            ),
            Shape::Triangle(t) => t.hit(
                x,
                t_min,
                t_max,
                &|x| edge_products(&t.vertices, x),
                &|x, reversed| on_triangle(&t.vertices, x, reversed),
            ),
            Shape::Translate(t) => {
                let offset = open(t.offset);
                t.hit(x, t_min, t_max, &|p| pack(open(p) - offset), &|p| pack(open(p) + offset))
            }
            Shape::RotateY(r) => {
                let sin = f(r.sin_theta);
                let cos = f(r.cos_theta);
                r.hit(
                    x,
                    t_min,
                    t_max,
                    &|p| {
                        let p = open(p);
                        pack(Vector3::new(cos * p.x - sin * p.z, p.y, sin * p.x + cos * p.z))
                    },
                    &|p| {
                        let p = open(p);
                        pack(Vector3::new(cos * p.x + sin * p.z, p.y, -sin * p.x + cos * p.z))
                    },
                )
            }
        }
    }

    fn bounding_box(&self, t0: Scalar, t1: Scalar) -> Option<AABB> {
        match &self.0 {
            Shape::Volume(b) => Some(*b),
            Shape::Sphere(sphere) => {
                let c = open(sphere.center);
                let r = f(sphere.radius);
                let reach = Vector3::new(r, r, r);
                Some(AABB::new(pack(c - reach), pack(c + reach)))
            }
            Shape::RectangleXY(q) => Some(q.bounds(s(f(q.k) - 0.0001), s(f(q.k) + 0.0001))),
            Shape::RectangleXZ(q) => Some(q.bounds(s(f(q.k) - 0.0001), s(f(q.k) + 0.0001))),
            Shape::RectangleYZ(q) => Some(q.bounds(s(f(q.k) - 0.0001), s(f(q.k) + 0.0001))),
            Shape::Triangle(t) => {
                assert!(t.vertices.len() >= 3);
                Some(t.bounding_box(&pad))
            }
            Shape::Translate(t) => {
                let offset = open(t.offset);
                t.bounding_box(t0, t1, &|p| pack(open(p) + offset))
            }
            Shape::RotateY(r) => r.bounding_box(t0, t1),
        }
    }
}

fn rotate_y(degrees: f64, object: Arc<dyn Hittable>) -> Arc<dyn Hittable> {
    let radians = degrees.to_radians();
    let (sin, cos) = (radians.sin(), radians.cos());
    let turned = RotateY::arc(s(sin), s(cos), object, &|p| {
        let p = open(p);
        pack(Vector3::new(cos * p.x + sin * p.z, p.y, -sin * p.x + cos * p.z))
    });
    lift(Shape::RotateY(turned))
}

fn sphere(center: V, radius: f64, material: Arc<dyn Material>) -> Arc<dyn Hittable> {
    lift(Shape::Sphere(Sphere::new(pack(center), s(radius), material)))
}

fn random_unit() -> V {
    let mut rng = rand::thread_rng();
    loop {
        let v = Vector3::new(
            rng.gen_range(-1.0..=1.0),
            rng.gen_range(-1.0..=1.0),
            rng.gen_range(-1.0..=1.0),
        );
        if v.magnitude_squared() <= 1.0 {
            return v;
        }
    }
}

fn reflection(v: V, n: V) -> V {
    v - 2.0 * v.dot(&n) * n
}

fn refraction(uv: V, n: V, ratio: f64) -> V {
    let cos_theta = f64::min((-uv).dot(&n), 1.0);
    let perpendicular = ratio * (uv + cos_theta * n);
    let parallel = -(1.0 - perpendicular.magnitude_squared()).abs().sqrt() * n;
    perpendicular + parallel
}

fn reflectance(cosine: f64, index: f64) -> f64 {
    let r0 = (1.0 - index) / (1.0 + index);
    let r0 = r0 * r0;
    r0 + (1.0 - r0) * (1.0 - cosine).powf(5.0)
}

fn fresnel(direction: Vec3, normal: Vec3, ratio: Scalar, draw: f64) -> Fresnel {
    let unit = open(direction).normalize();
    let cos_theta = f64::min((-unit).dot(&open(normal)), 1.0);
    let sin_theta = (1.0 - cos_theta * cos_theta).sqrt();
    Fresnel {
        bend: s(f(ratio) * sin_theta),
        reflectance: s(reflectance(cos_theta, f(ratio))),
        draw: s(draw),
    }
}

enum Shader {
    Lambertian(LambertianMaterial),
    Metal(Arc<MetalMaterial>),
    Dielectric(Arc<DielectricMaterial>),
    Emissive(Arc<EmissiveMaterial>),
}

impl Material for Shader {
    fn scatter(&self, x: &Ray, hit: &SurfacePoint) -> Option<(Vec3, Ray)> {
        match self {
            Shader::Lambertian(m) => {
                m.scatter(x, hit, &|n| pack(open(n) + random_unit().normalize()))
            }
            Shader::Metal(m) => m.scatter(x, hit, &|d, n, fuzz| {
                pack(reflection(open(d).normalize(), open(n)) + f(fuzz) * random_unit())
            }),
            Shader::Dielectric(m) => m.scatter(
                x,
                hit,
                &|index| s(1.0 / f(index)),
                &|d, n, ratio| fresnel(d, n, ratio, rand::thread_rng().gen()),
                &|d, n| pack(reflection(open(d).normalize(), open(n))),
                &|d, n, ratio| pack(refraction(open(d).normalize(), open(n), f(ratio))),
            ),
            Shader::Emissive(m) => m.scatter(x, hit),
        }
    }

    fn emitted(&self, uv: (Scalar, Scalar), point: &Vec3) -> Vec3 {
        match self {
            Shader::Emissive(m) => m.emitted(uv, point, &|c, k| pack(open(c) * f(k))),
            _ => Vec3::zeros(),
        }
    }
}

fn solid(r: f64, g: f64, b: f64) -> Arc<dyn Texture> {
    SolidColorTexture::arc(pack(Vector3::new(r, g, b)))
}

fn diffuse(r: f64, g: f64, b: f64) -> Arc<dyn Material> {
    Arc::new(Shader::Lambertian(LambertianMaterial::new(solid(r, g, b))))
}

fn light(r: f64, g: f64, b: f64) -> Arc<dyn Material> {
    Arc::new(Shader::Emissive(EmissiveMaterial::arc(solid(r, g, b))))
}

fn blend(emitted: Vec3, attenuation: Vec3, incoming: Vec3) -> Vec3 {
    pack(open(emitted) + open(attenuation).component_mul(&open(incoming)))
}

struct Dice(u64);

impl Dice {
    fn unit(&mut self) -> f64 {
        self.0 ^= self.0 << 13;
        self.0 ^= self.0 >> 7;
        self.0 ^= self.0 << 17;
        (self.0 >> 11) as f64 / (1u64 << 53) as f64
    }

    fn between(&mut self, low: f64, high: f64) -> f64 {
        low + (high - low) * self.unit()
    }

    fn direction(&mut self) -> V {
        loop {
            let v = Vector3::new(
                self.between(-1.0, 1.0),
                self.between(-1.0, 1.0),
                self.between(-1.0, 1.0),
            );
            if v.magnitude_squared() <= 1.0 && v.magnitude_squared() > 0.01 {
                return v;
            }
        }
    }
}

fn start() -> Scalar {
    s(0.0001)
}

fn end() -> Scalar {
    s(f64::INFINITY)
}

fn scattered_spheres(count: usize, dice: &mut Dice) -> Vec<Arc<dyn Hittable>> {
    let mut objects: Vec<Arc<dyn Hittable>> = Vec::new();
    for _ in 0..count {
        let center = Vector3::new(
            dice.between(-10.0, 10.0),
            dice.between(-10.0, 10.0),
            dice.between(-10.0, 10.0),
        );
        objects.push(sphere(center, dice.between(0.2, 1.5), diffuse(0.5, 0.5, 0.5)));
    }
    objects
}

fn random_ray(dice: &mut Dice) -> Ray {
    let origin = Vector3::new(
        dice.between(-15.0, 15.0),
        dice.between(-15.0, 15.0),
        dice.between(-15.0, 15.0),
    );
    ray(origin, dice.direction())
}

fn count_leaves(node: &BVH) -> usize {
    match (&node.left, &node.right) {
        (Child::Tree(l), Child::Tree(r)) => count_leaves(l) + count_leaves(r),
        _ => 1,
    }
}

fn depth_of(node: &BVH) -> usize {
    match (&node.left, &node.right) {
        (Child::Tree(l), Child::Tree(r)) => 1 + depth_of(l).max(depth_of(r)),
        _ => 1,
    }
}

fn boxes_are_unions(node: &BVH) -> bool {
    let side = |c: &Child| match c {
        Child::Object(o) => o.bounding_box(s(0.0), s(1.0)).unwrap(),
        Child::Tree(n) => n.aabb,
    };
    let here = node.aabb == AABB::surrounding_box(&side(&node.left), &side(&node.right));
    let below = match (&node.left, &node.right) {
        (Child::Tree(l), Child::Tree(r)) => boxes_are_unions(l) && boxes_are_unions(r),
        (Child::Object(a), Child::Object(b)) => Arc::ptr_eq(a, b),
        _ => false,
    };
    here && below
}

#[test]
fn sphere_is_hit_from_the_front_at_distance_four() {
    let ball = sphere(Vector3::zeros(), 1.0, diffuse(0.5, 0.5, 0.5));
    let x = ray(Vector3::new(0.0, 0.0, 5.0), Vector3::new(0.0, 0.0, -1.0));
    let hit = ball.hit(&x, start(), end()).unwrap();
    assert_eq!(f(hit.t), 4.0);
    assert_eq!(open(hit.normal), Vector3::new(0.0, 0.0, 1.0));
    assert_eq!(open(hit.point), Vector3::new(0.0, 0.0, 1.0));
    assert!(hit.front_face);
}

#[test]
fn sphere_is_hit_from_inside_on_its_far_side() {
    let ball = sphere(Vector3::zeros(), 1.0, diffuse(0.5, 0.5, 0.5));
    let x = ray(Vector3::zeros(), Vector3::new(0.0, 0.0, -1.0));
    let hit = ball.hit(&x, start(), end()).unwrap();
    assert_eq!(f(hit.t), 1.0);
    assert_eq!(open(hit.normal), Vector3::new(0.0, 0.0, 1.0));
    assert!(!hit.front_face);
}

#[test]
fn sphere_hit_must_lie_strictly_inside_the_interval() {
    let ball = sphere(Vector3::zeros(), 1.0, diffuse(0.5, 0.5, 0.5));
    let x = ray(Vector3::new(0.0, 0.0, 5.0), Vector3::new(0.0, 0.0, -1.0));
    assert!(ball.hit(&x, start(), s(4.0)).is_none());
    assert_eq!(f(ball.hit(&x, s(4.0), end()).unwrap().t), 6.0);
    assert!(ball.hit(&x, s(4.0), s(6.0)).is_none());
    assert!(ball.hit(&x, s(6.0), end()).is_none());
}

#[test]
fn sphere_is_missed_by_a_ray_that_passes_it() {
    let ball = sphere(Vector3::zeros(), 1.0, diffuse(0.5, 0.5, 0.5));
    let x = ray(Vector3::new(0.0, 2.0, 5.0), Vector3::new(0.0, 0.0, -1.0));
    assert!(ball.hit(&x, start(), end()).is_none());
}

#[test]
fn rectangle_centre_has_surface_coordinates_one_half() {
    let floor = lift(Shape::RectangleXZ(RectangleXZ::new(
        (s(0.0), s(555.0)),
        (s(0.0), s(555.0)),
        s(0.0),
        diffuse(0.9, 0.9, 0.9),
    )));
    let x = ray(Vector3::new(277.5, 10.0, 277.5), Vector3::new(0.0, -1.0, 0.0));
    let hit = floor.hit(&x, start(), end()).unwrap();
    assert_eq!(f(hit.t), 10.0);
    assert!((f(hit.uv.0) - 0.5).abs() < 1e-12);
    assert!((f(hit.uv.1) - 0.5).abs() < 1e-12);
    assert_eq!(open(hit.normal), Vector3::new(0.0, 1.0, 0.0));
    assert!(hit.front_face);
}

#[test]
fn rectangle_is_missed_outside_its_extents_and_by_parallel_rays() {
    let wall = lift(Shape::RectangleXY(RectangleXY::new(
        (s(0.0), s(2.0)),
        (s(0.0), s(2.0)),
        s(-1.0),
        diffuse(0.9, 0.9, 0.9),
    )));
    let inside = ray(Vector3::new(1.0, 1.0, 3.0), Vector3::new(0.0, 0.0, -1.0));
    let outside = ray(Vector3::new(3.0, 1.0, 3.0), Vector3::new(0.0, 0.0, -1.0));
    let along = ray(Vector3::new(1.0, 1.0, 3.0), Vector3::new(1.0, 0.0, 0.0));
    let within = ray(Vector3::new(1.0, 1.0, -1.0), Vector3::new(1.0, 0.0, 0.0));
    assert_eq!(f(wall.hit(&inside, start(), end()).unwrap().t), 4.0);
    assert!(wall.hit(&outside, start(), end()).is_none());
    assert!(wall.hit(&along, start(), end()).is_none());
    assert!(wall.hit(&within, start(), end()).is_none());
}

#[test]
fn rectangle_box_is_padded_along_its_plane_axis() {
    let side = lift(Shape::RectangleYZ(RectangleYZ::arc(
        (s(1.0), s(2.0)),
        (s(3.0), s(4.0)),
        s(5.0),
        diffuse(0.9, 0.9, 0.9),
    )));
    let b = side.bounding_box(s(0.0), s(1.0)).unwrap();
    assert_eq!(open(b.minimum), Vector3::new(5.0 - 0.0001, 1.0, 3.0));
    assert_eq!(open(b.maximum), Vector3::new(5.0 + 0.0001, 2.0, 4.0));
}

fn face() -> Arc<dyn Hittable> {
    let vertices = vec![
        pack(Vector3::new(0.0, 0.0, 0.0)),
        pack(Vector3::new(1.0, 0.0, 0.0)),
        pack(Vector3::new(0.0, 1.0, 0.0)),
    ];
    lift(Shape::Triangle(Triangle::arc(
        vertices,
        pack(Vector3::new(0.0, 0.0, 1.0)),
        diffuse(0.5, 0.5, 0.5),
    )))
}

#[test]
fn triangle_is_hit_alike_from_both_sides() {
    let t = face();
    let front = ray(Vector3::new(0.25, 0.25, 2.0), Vector3::new(0.0, 0.0, -1.0));
    let back = ray(Vector3::new(0.25, 0.25, -2.0), Vector3::new(0.0, 0.0, 1.0));
    let a = t.hit(&front, start(), end()).unwrap();
    let b = t.hit(&back, start(), end()).unwrap();
    assert_eq!(f(a.t), 2.0);
    assert_eq!(f(b.t), 2.0);
    assert_eq!(open(a.point), open(b.point));
    assert_eq!(open(a.normal), Vector3::new(0.0, 0.0, 1.0));
    assert_eq!(open(b.normal), Vector3::new(0.0, 0.0, -1.0));
    assert_eq!(a.uv, (s(0.0), s(0.0)));
}

#[test]
fn triangle_is_missed_beside_it_behind_the_ray_and_in_its_plane() {
    let t = face();
    let beside = ray(Vector3::new(0.75, 0.75, 2.0), Vector3::new(0.0, 0.0, -1.0));
    let away = ray(Vector3::new(0.25, 0.25, 2.0), Vector3::new(0.0, 0.0, 1.0));
    let parallel = ray(Vector3::new(0.25, 0.25, 2.0), Vector3::new(1.0, 0.0, 0.0));
    let short = ray(Vector3::new(0.25, 0.25, 2.0), Vector3::new(0.0, 0.0, -1.0));
    assert!(t.hit(&beside, start(), end()).is_none());
    assert!(t.hit(&away, start(), end()).is_none());
    assert!(t.hit(&parallel, start(), end()).is_none());
    assert!(t.hit(&short, start(), s(2.0)).is_none());
}

#[test]
fn triangle_box_is_padded_all_round() {
    let b = face().bounding_box(s(0.0), s(1.0)).unwrap();
    assert_eq!(open(b.minimum), Vector3::new(-0.0001, -0.0001, -0.0001));
    assert_eq!(open(b.maximum), Vector3::new(1.0001, 1.0001, 0.0001));
}

#[test]
fn dielectric_refracts_straight_through_at_normal_incidence() {
    let glass = DielectricMaterial::arc(s(1.5));
    let scatter = |x: &Ray, hit: &SurfacePoint| {
        glass
            .scatter(
                x,
                hit,
                &|index| s(1.0 / f(index)),
                &|d, n, ratio| fresnel(d, n, ratio, 0.5),
                &|d, n| pack(reflection(open(d).normalize(), open(n))),
                &|d, n, ratio| pack(refraction(open(d).normalize(), open(n), f(ratio))),
            )
            .unwrap()
    };
    let ball = sphere(Vector3::zeros(), 1.0, diffuse(0.5, 0.5, 0.5));
    let incoming = ray(Vector3::new(0.0, 0.0, 5.0), Vector3::new(0.0, 0.0, -1.0));
    let entry = ball.hit(&incoming, start(), end()).unwrap();
    assert!(entry.front_face);
    let found = fresnel(incoming.direction, entry.normal, s(1.0 / 1.5), 0.5);
    assert_eq!(f(found.bend), 0.0);
    assert!((f(found.reflectance) - 0.04).abs() < 1e-12);
    assert!(!DielectricMaterial::reflects(found));
    let (attenuation, inside) = scatter(&incoming, &entry.surface());
    assert_eq!(open(attenuation), Vector3::new(1.0, 1.0, 1.0));
    assert_eq!(open(inside.origin), Vector3::new(0.0, 0.0, 1.0));
    assert_eq!(open(inside.direction), Vector3::new(0.0, 0.0, -1.0));
    let exit = ball.hit(&inside, start(), end()).unwrap();
    assert!(!exit.front_face);
    assert_eq!(f(exit.t), 2.0);
    let (_, outside) = scatter(&inside, &exit.surface());
    assert_eq!(open(outside.origin), Vector3::new(0.0, 0.0, -1.0));
    assert_eq!(open(outside.direction), Vector3::new(0.0, 0.0, -1.0));
}

#[test]
fn dielectric_reflects_where_it_cannot_refract_or_the_draw_says_so() {
    let one = |bend: f64, reflectance: f64, draw: f64| {
        DielectricMaterial::reflects(Fresnel {
            bend: s(bend),
            reflectance: s(reflectance),
            draw: s(draw),
        })
    };
    assert!(one(1.5, 0.0, 0.9));
    assert!(one(0.5, 0.5, 0.25));
    assert!(!one(0.5, 0.25, 0.5));
    assert!(!one(1.0, 0.25, 0.25));
    let glass = DielectricMaterial::arc(s(1.5));
    assert_eq!(glass.refraction_ratio(true, s(2.0 / 3.0)), s(2.0 / 3.0));
    assert_eq!(glass.refraction_ratio(false, s(2.0 / 3.0)), s(1.5));
}

#[test]
fn lambertian_and_metal_always_scatter_with_their_albedo() {
    let hit = SurfacePoint {
        point: pack(Vector3::new(1.0, 2.0, 3.0)),
        normal: pack(Vector3::new(0.0, 1.0, 0.0)),
        t: s(1.0),
        front_face: true,
        uv: (s(0.0), s(0.0)),
    };
    let x = ray(Vector3::new(1.0, 3.0, 3.0), Vector3::new(1.0, -1.0, 0.0));
    let matte = Shader::Lambertian(LambertianMaterial::new(solid(0.1, 0.2, 0.3)));
    let (attenuation, scattered) = matte.scatter(&x, &hit).unwrap();
    assert_eq!(open(attenuation), Vector3::new(0.1, 0.2, 0.3));
    assert_eq!(scattered.origin, hit.point);
    assert!((open(scattered.direction) - Vector3::new(0.0, 1.0, 0.0)).magnitude() <= 1.0 + 1e-9);
    let mirror = Shader::Metal(MetalMaterial::arc(solid(0.7, 0.6, 0.5), s(0.0)));
    let (attenuation, scattered) = mirror.scatter(&x, &hit).unwrap();
    assert_eq!(open(attenuation), Vector3::new(0.7, 0.6, 0.5));
    let expected = Vector3::new(1.0, 1.0, 0.0).normalize();
    assert!((open(scattered.direction) - expected).magnitude() < 1e-12);
    assert_eq!(open(matte.emitted((s(0.0), s(0.0)), &hit.point)), Vector3::zeros());
}

#[test]
fn emissive_material_never_scatters_and_emits_its_scaled_texture() {
    let mut lamp = EmissiveMaterial::arc(solid(1.0, 2.0, 3.0));
    assert_eq!(lamp.scale, s(1.0));
    Arc::get_mut(&mut lamp).unwrap().set_scale(s(2.0));
    let lamp = Shader::Emissive(lamp);
    let hit = SurfacePoint {
        point: Vec3::zeros(),
        normal: pack(Vector3::new(0.0, 1.0, 0.0)),
        t: s(1.0),
        front_face: true,
        uv: (s(0.0), s(0.0)),
    };
    let x = ray(Vector3::new(0.0, 1.0, 0.0), Vector3::new(0.0, -1.0, 0.0));
    assert!(lamp.scatter(&x, &hit).is_none());
    assert_eq!(open(lamp.emitted(hit.uv, &hit.point)), Vector3::new(2.0, 4.0, 6.0));
}

#[test]
fn radiance_is_black_when_no_bounce_is_left() {
    let world = sphere(Vector3::zeros(), 1.0, light(15.0, 15.0, 15.0));
    let x = ray(Vector3::new(0.0, 0.0, 5.0), Vector3::new(0.0, 0.0, -1.0));
    let background = pack(Vector3::new(0.9, 0.9, 0.9));
    assert_eq!(Ray::ray_color(&x, &world, &background, 0, &blend), Vec3::zeros());
    let empty: Arc<dyn Hittable> = Arc::new(HittableList::<dyn Hittable>::new());
    assert_eq!(Ray::ray_color(&x, &empty, &background, 0, &blend), Vec3::zeros());
}

#[test]
fn radiance_of_a_miss_is_the_background_exactly() {
    let world = sphere(Vector3::zeros(), 1.0, light(15.0, 15.0, 15.0));
    let x = ray(Vector3::new(0.0, 3.0, 5.0), Vector3::new(0.0, 0.0, -1.0));
    let background = pack(Vector3::new(0.1, 0.7, 0.9));
    assert_eq!(Ray::ray_color(&x, &world, &background, 1, &blend), background);
    assert_eq!(Ray::ray_color(&x, &world, &background, 50, &blend), background);
    let empty: Arc<dyn Hittable> = Arc::new(HittableList::<dyn Hittable>::new());
    assert_eq!(Ray::ray_color(&x, &empty, &background, 7, &blend), background);
}

#[test]
fn radiance_of_a_lone_light_is_its_emission() {
    let lamp = lift(Shape::RectangleXZ(RectangleXZ::new(
        (s(213.0), s(343.0)),
        (s(227.0), s(332.0)),
        s(554.0),
        light(15.0, 15.0, 15.0),
    )));
    let mut objects = vec![lamp];
    let world: Arc<dyn Hittable> = BVH::arc(&mut objects, s(0.0), s(1.0), &lift);
    let x = ray(Vector3::new(278.0, 278.0, 279.5), Vector3::new(0.0, 1.0, 0.0));
    let background = Vec3::zeros();
    let color = Ray::ray_color(&x, &world, &background, u64::MAX, &blend);
    assert_eq!(open(color), Vector3::new(15.0, 15.0, 15.0));
}

#[test]
fn radiance_blends_emission_attenuation_and_what_comes_in() {
    let outcome = Some((
        pack(Vector3::new(0.5, 0.25, 2.0)),
        ray(Vector3::new(0.0, 3.0, 5.0), Vector3::new(0.0, 0.0, -1.0)),
    ));
    let world = sphere(Vector3::zeros(), 1.0, light(15.0, 15.0, 15.0));
    let background = pack(Vector3::new(4.0, 8.0, 1.0));
    let emitted = pack(Vector3::new(1.0, 1.0, 1.0));
    let color = Ray::follow(&world, &background, 2, &blend, emitted, outcome);
    assert_eq!(open(color), Vector3::new(3.0, 3.0, 3.0));
    let ended = Ray::follow(&world, &background, 2, &blend, emitted, None);
    assert_eq!(ended, emitted);
    let spent = Ray::follow(&world, &background, 1, &blend, emitted, outcome);
    assert_eq!(open(spent), Vector3::new(1.0, 1.0, 1.0));
}

#[test]
fn list_keeps_the_nearest_hit_whatever_the_order() {
    let near = sphere(Vector3::new(0.0, 0.0, 2.0), 1.0, diffuse(0.5, 0.5, 0.5));
    let far = sphere(Vector3::new(0.0, 0.0, -2.0), 1.0, diffuse(0.5, 0.5, 0.5));
    let x = ray(Vector3::new(0.0, 0.0, 5.0), Vector3::new(0.0, 0.0, -1.0));
    let mut one = HittableList::new();
    one.add(Arc::clone(&near));
    one.add(Arc::clone(&far));
    let mut other = HittableList::new();
    other.add(far);
    other.add(near);
    assert_eq!(one.objects.len(), 2);
    assert_eq!(f(one.hit(&x, start(), end()).unwrap().t), 2.0);
    assert_eq!(f(other.hit(&x, start(), end()).unwrap().t), 2.0);
    assert_eq!(f(other.hit(&x, s(2.0), end()).unwrap().t), 4.0);
}

#[test]
fn list_box_is_the_union_and_none_when_empty() {
    let mut list = HittableList::<dyn Hittable>::new();
    assert!(list.bounding_box(s(0.0), s(1.0)).is_none());
    assert!(list
        .hit(&ray(Vector3::zeros(), Vector3::new(0.0, 0.0, 1.0)), start(), end())
        .is_none());
    list.add(sphere(Vector3::new(0.0, 0.0, 2.0), 1.0, diffuse(0.5, 0.5, 0.5)));
    list.add(sphere(Vector3::new(3.0, 0.0, 0.0), 2.0, diffuse(0.5, 0.5, 0.5)));
    let b = list.bounding_box(s(0.0), s(1.0)).unwrap();
    assert_eq!(open(b.minimum), Vector3::new(-1.0, -2.0, -2.0));
    assert_eq!(open(b.maximum), Vector3::new(5.0, 2.0, 3.0));
}

struct Unbounded;

impl Hittable for Unbounded {
    fn hit(&self, _x: &Ray, _t_min: Scalar, _t_max: Scalar) -> Option<HitRecord> {
        None
    }

    fn bounding_box(&self, _t0: Scalar, _t1: Scalar) -> Option<AABB> {
        None
    }
}

#[test]
fn list_with_an_unbounded_object_has_no_box() {
    let mut list = HittableList::new();
    list.add(sphere(Vector3::new(0.0, 0.0, 2.0), 1.0, diffuse(0.5, 0.5, 0.5)));
    list.add(Arc::new(Unbounded));
    list.add(sphere(Vector3::new(3.0, 0.0, 0.0), 2.0, diffuse(0.5, 0.5, 0.5)));
    assert!(list.bounding_box(s(0.0), s(1.0)).is_none());
}

#[test]
fn hierarchy_over_one_object_is_a_leaf_with_that_object_twice() {
    let ball = sphere(Vector3::new(1.0, 2.0, 3.0), 1.0, diffuse(0.5, 0.5, 0.5));
    let mut objects = vec![Arc::clone(&ball)];
    let tree = BVH::arc(&mut objects, s(0.0), s(1.0), &lift);
    assert_eq!(objects.len(), 1);
    assert!(Arc::ptr_eq(&objects[0], &ball));
    match (&tree.left, &tree.right) {
        (Child::Object(a), Child::Object(b)) => {
            assert!(Arc::ptr_eq(a, &ball));
            assert!(Arc::ptr_eq(b, &ball));
        }
        _ => panic!("a leaf holds its object on both sides"),
    }
    assert_eq!(open(tree.aabb.minimum), Vector3::new(0.0, 1.0, 2.0));
    assert_eq!(open(tree.aabb.maximum), Vector3::new(2.0, 3.0, 4.0));
    assert_eq!(tree.bounding_box(s(0.0), s(1.0)), Some(tree.aabb));
    assert_eq!(tree.gate.bounding_box(s(0.0), s(1.0)), Some(tree.aabb));
}

#[test]
fn hierarchy_holds_every_object_once_and_bounds_its_children() {
    let mut dice = Dice(0x9e3779b97f4a7c15);
    for count in 1..40 {
        let mut objects = scattered_spheres(count, &mut dice);
        let before = objects.clone();
        let tree = BVH::arc(&mut objects, s(0.0), s(1.0), &lift);
        assert_eq!(count_leaves(&tree), count);
        assert!(boxes_are_unions(&tree));
        assert!(depth_of(&tree) <= 7);
        assert_eq!(objects.len(), count);
        for o in &before {
            assert_eq!(objects.iter().filter(|p| Arc::ptr_eq(p, o)).count(), 1);
        }
    }
}

#[test]
fn hierarchy_sorts_its_list_along_the_axis_it_drew() {
    let mut objects = scattered_spheres(25, &mut Dice(0x2545f4914f6cdd1d));
    let _tree = BVH::arc(&mut objects, s(0.0), s(1.0), &lift);
    let least = |o: &Arc<dyn Hittable>, axis: usize| {
        open(o.bounding_box(s(0.0), s(1.0)).unwrap().minimum)[axis]
    };
    let sorted =
        |axis: usize| objects.windows(2).all(|pair| least(&pair[0], axis) <= least(&pair[1], axis));
    assert!(sorted(0) || sorted(1) || sorted(2));
}

#[test]
fn sorting_along_an_axis_is_stable() {
    let at = |x: f64, y: f64| sphere(Vector3::new(x, y, 0.0), 1.0, diffuse(0.5, 0.5, 0.5));
    let a = at(3.0, 0.0);
    let b = at(1.0, 5.0);
    let c = at(3.0, -4.0);
    let d = at(1.0, 2.0);
    let e = at(-0.0 + 1.0, 9.0);
    let mut objects =
        vec![Arc::clone(&a), Arc::clone(&b), Arc::clone(&c), Arc::clone(&d), Arc::clone(&e)];
    BVH::sort_along(&mut objects, 0, s(0.0), s(1.0));
    let order: Vec<usize> = objects
        .iter()
        .map(|o| [&a, &b, &c, &d, &e].iter().position(|p| Arc::ptr_eq(p, o)).unwrap())
        .collect();
    assert_eq!(order, vec![1, 3, 4, 0, 2]);
    BVH::sort_along(&mut objects, 1, s(0.0), s(1.0));
    let order: Vec<usize> = objects
        .iter()
        .map(|o| [&a, &b, &c, &d, &e].iter().position(|p| Arc::ptr_eq(p, o)).unwrap())
        .collect();
    assert_eq!(order, vec![2, 0, 3, 1, 4]);
    assert!(BVH::box_compare(&a, &c, 0, s(0.0), s(1.0)));
    assert!(BVH::box_compare(&b, &a, 0, s(0.0), s(1.0)));
    assert!(!BVH::box_compare(&a, &b, 0, s(0.0), s(1.0)));
}

#[test]
fn hierarchy_and_list_find_the_same_nearest_hit() {
    let mut dice = Dice(0xd1b54a32d192ed03);
    let objects = scattered_spheres(60, &mut dice);
    let mut list = HittableList::new();
    for o in &objects {
        list.add(Arc::clone(o));
    }
    let mut shuffled: Vec<Arc<dyn Hittable>> = objects.iter().rev().cloned().collect();
    let tree = BVH::arc(&mut shuffled, s(0.0), s(1.0), &lift);
    let mut hits = 0;
    for _ in 0..2000 {
        let x = random_ray(&mut dice);
        match (tree.hit(&x, start(), end()), list.hit(&x, start(), end())) {
            (None, None) => {}
            (Some(a), Some(b)) => {
                hits += 1;
                assert_eq!(f(a.t), f(b.t));
                assert_eq!(open(a.point), open(b.point));
                assert_eq!(open(a.normal), open(b.normal));
                assert_eq!(a.front_face, b.front_face);
            }
            _ => panic!("the hierarchy and the list disagree on whether the ray hits"),
        }
    }
    assert!(hits > 100);
}

fn room() -> Vec<Arc<dyn Hittable>> {
    let span = (s(0.0), s(555.0));
    let block = |offset: V, degrees: f64, top: V| {
        let cube: Arc<Cube> = Cube::arc(Vec3::zeros(), pack(top), diffuse(0.9, 0.9, 0.9), &lift);
        lift(Shape::Translate(Translate::arc(pack(offset), rotate_y(degrees, cube))))
    };
    let mesh: Arc<Mesh> = Mesh::arc(&square_corners(), diffuse(0.5, 0.5, 0.5), &lift);
    vec![
        lift(Shape::RectangleYZ(RectangleYZ::arc(span, span, s(555.0), diffuse(0.1, 0.4, 0.1)))),
        lift(Shape::RectangleYZ(RectangleYZ::arc(span, span, s(0.0), diffuse(0.6, 0.1, 0.1)))),
        lift(Shape::RectangleXZ(RectangleXZ::new(
            (s(213.0), s(343.0)),
            (s(227.0), s(332.0)),
            s(554.0),
            light(15.0, 15.0, 15.0),
        ))),
        lift(Shape::RectangleXZ(RectangleXZ::new(span, span, s(0.0), diffuse(0.9, 0.9, 0.9)))),
        lift(Shape::RectangleXZ(RectangleXZ::new(span, span, s(555.0), diffuse(0.9, 0.9, 0.9)))),
        lift(Shape::RectangleXY(RectangleXY::new(span, span, s(555.0), diffuse(0.9, 0.9, 0.9)))),
        block(Vector3::new(265.0, 0.0, 295.0), 15.0, Vector3::new(165.0, 330.0, 165.0)),
        block(Vector3::new(130.0, 0.0, 65.0), -18.0, Vector3::new(165.0, 165.0, 165.0)),
        sphere(Vector3::new(400.0, 400.0, 200.0), 60.0, diffuse(0.5, 0.5, 0.5)),
        lift(Shape::Translate(Translate::arc(
            pack(Vector3::new(100.0, 300.0, 100.0)),
            lift(Shape::Translate(Translate::arc(pack(Vector3::new(0.0, 0.0, 50.0)), mesh))),
        ))),
    ]
}

#[test]
fn hierarchy_and_list_agree_on_a_room_of_mixed_objects() {
    let objects = room();
    let mut list = HittableList::new();
    for o in &objects {
        list.add(Arc::clone(o));
    }
    let mut shuffled = objects.clone();
    let tree = BVH::arc(&mut shuffled, s(0.0), s(1.0), &lift);
    assert_eq!(count_leaves(&tree), objects.len());
    let mut dice = Dice(0x853c49e6748fea9b);
    let mut hits = 0;
    for _ in 0..3000 {
        let origin = Vector3::new(
            dice.between(1.0, 554.0),
            dice.between(1.0, 554.0),
            dice.between(-800.0, 554.0),
        );
        let x = ray(origin, dice.direction());
        match (tree.hit(&x, start(), end()), list.hit(&x, start(), end())) {
            (None, None) => {}
            (Some(a), Some(b)) => {
                hits += 1;
                assert_eq!(f(a.t), f(b.t));
                assert_eq!(open(a.point), open(b.point));
            }
            _ => panic!("the hierarchy and the list disagree on whether the ray hits"),
        }
    }
    assert!(hits > 800);
}

#[test]
fn radiance_in_a_room_is_finite_and_black_without_light() {
    let mut objects = room();
    let world: Arc<dyn Hittable> = BVH::arc(&mut objects, s(0.0), s(1.0), &lift);
    let background = Vec3::zeros();
    for _ in 0..200 {
        let x = ray(Vector3::new(278.0, 278.0, -800.0), Vector3::new(0.0, 0.0, 1.0) + 0.2 * random_unit());
        let color = open(Ray::ray_color(&x, &world, &background, 6, &blend));
        assert!(color.iter().all(|c| c.is_finite() && *c >= 0.0));
        let one = open(Ray::ray_color(&x, &world, &background, 1, &blend));
        let lamp = Vector3::new(15.0, 15.0, 15.0);
        assert!(one == Vector3::zeros() || one == lamp);
    }
}

#[test]
fn hierarchy_skips_what_lies_behind_a_missed_box() {
    let mut objects = vec![
        sphere(Vector3::new(0.0, 0.0, 0.0), 1.0, diffuse(0.5, 0.5, 0.5)),
        sphere(Vector3::new(5.0, 0.0, 0.0), 1.0, diffuse(0.5, 0.5, 0.5)),
    ];
    let tree = BVH::arc(&mut objects, s(0.0), s(1.0), &lift);
    let over = ray(Vector3::new(0.0, 3.0, 5.0), Vector3::new(0.0, 0.0, -1.0));
    assert!(tree.gate.hit(&over, start(), end()).is_none());
    assert!(tree.hit(&over, start(), end()).is_none());
    let through = ray(Vector3::new(-5.0, 0.0, 0.0), Vector3::new(1.0, 0.0, 0.0));
    assert!(tree.gate.hit(&through, start(), end()).is_some());
    assert_eq!(f(tree.hit(&through, start(), end()).unwrap().t), 4.0);
    assert_eq!(f(tree.hit(&through, s(4.0), end()).unwrap().t), 6.0);
    assert_eq!(f(tree.hit(&through, s(6.5), end()).unwrap().t), 9.0);
}

#[test]
fn cube_has_six_sides_and_its_own_box() {
    let block: Arc<Cube> = Cube::arc(
        pack(Vector3::new(0.0, 0.0, 0.0)),
        pack(Vector3::new(1.0, 2.0, 3.0)),
        diffuse(0.5, 0.5, 0.5),
        &lift,
    );
    assert_eq!(block.sides.objects.len(), 6);
    let b = block.bounding_box(s(0.0), s(1.0)).unwrap();
    assert_eq!(open(b.minimum), Vector3::new(0.0, 0.0, 0.0));
    assert_eq!(open(b.maximum), Vector3::new(1.0, 2.0, 3.0));
    let expected = [
        (Vector3::new(0.0, 0.0, 3.0 - 0.0001), Vector3::new(1.0, 2.0, 3.0 + 0.0001)),
        (Vector3::new(0.0, 0.0, -0.0001), Vector3::new(1.0, 2.0, 0.0001)),
        (Vector3::new(0.0, 2.0 - 0.0001, 0.0), Vector3::new(1.0, 2.0 + 0.0001, 3.0)),
        (Vector3::new(0.0, -0.0001, 0.0), Vector3::new(1.0, 0.0001, 3.0)),
        (Vector3::new(1.0 - 0.0001, 0.0, 0.0), Vector3::new(1.0 + 0.0001, 2.0, 3.0)),
        (Vector3::new(-0.0001, 0.0, 0.0), Vector3::new(0.0001, 2.0, 3.0)),
    ];
    for (side, (low, high)) in block.sides.objects.iter().zip(expected.iter()) {
        let b = side.bounding_box(s(0.0), s(1.0)).unwrap();
        assert_eq!(open(b.minimum), *low);
        assert_eq!(open(b.maximum), *high);
    }
    let x = ray(Vector3::new(0.5, 1.0, 10.0), Vector3::new(0.0, 0.0, -1.0));
    let hit = block.hit(&x, start(), end()).unwrap();
    assert_eq!(f(hit.t), 7.0);
    assert_eq!(open(hit.normal), Vector3::new(0.0, 0.0, 1.0));
    let inside = ray(Vector3::new(0.5, 1.0, 1.0), Vector3::new(1.0, 0.0, 0.0));
    assert_eq!(f(block.hit(&inside, start(), end()).unwrap().t), 0.5);
}

fn square_corners() -> Vec<(Vec3, Vec3)> {
    let n = pack(Vector3::new(0.0, 0.0, 1.0));
    let p = |x: f64, y: f64| (pack(Vector3::new(x, y, 0.5)), n);
    vec![p(0.0, 0.0), p(1.0, 0.0), p(0.0, 1.0), p(1.0, 0.0), p(1.0, 1.0), p(0.0, 1.0)]
}

#[test]
fn mesh_is_bounded_by_its_vertices_and_hit_through_its_faces() {
    let mesh: Arc<Mesh> = Mesh::arc(&square_corners(), diffuse(0.5, 0.5, 0.5), &lift);
    assert_eq!(open(mesh.minimum), Vector3::new(0.0, 0.0, 0.5));
    assert_eq!(open(mesh.maximum), Vector3::new(1.0, 1.0, 0.5));
    assert_eq!(count_leaves(&mesh.faces), 2);
    let b = mesh.bounding_box(s(0.0), s(1.0)).unwrap();
    assert_eq!(open(b.minimum), Vector3::new(0.0, 0.0, 0.5));
    assert_eq!(open(b.maximum), Vector3::new(1.0, 1.0, 0.5));
    for (x, y) in [(0.25, 0.25), (0.75, 0.75), (0.9, 0.2), (0.2, 0.9)] {
        let down = ray(Vector3::new(x, y, 3.0), Vector3::new(0.0, 0.0, -1.0));
        assert_eq!(f(mesh.hit(&down, start(), end()).unwrap().t), 2.5);
    }
    let beside = ray(Vector3::new(1.5, 0.5, 3.0), Vector3::new(0.0, 0.0, -1.0));
    assert!(mesh.hit(&beside, start(), end()).is_none());
}

#[test]
fn triangle_winding_starts_at_the_longest_axis_of_the_normal() {
    let order = |x: f64, y: f64, z: f64| {
        Triangle::arc(
            vec![Vec3::zeros(), Vec3::zeros(), Vec3::zeros()],
            pack(Vector3::new(x, y, z)),
            diffuse(0.5, 0.5, 0.5),
        )
        .indices
        .clone()
    };
    assert_eq!(order(-3.0, 1.0, 2.0), vec![0, 1, 2]);
    assert_eq!(order(1.0, -3.0, 2.0), vec![1, 2, 0]);
    assert_eq!(order(1.0, 2.0, -3.0), vec![2, 0, 1]);
    assert_eq!(order(1.0, 1.0, 1.0), vec![0, 1, 2]);
    assert_eq!(order(0.0, 2.0, 2.0), vec![1, 2, 0]);
    assert_eq!(order(0.0, -0.0, 0.0), vec![0, 1, 2]);
    assert_eq!(order(f64::NAN, 1.0, 2.0), vec![2, 0, 1]);
    assert_eq!(order(1.0, 2.0, f64::NAN), vec![2, 0, 1]);
}

#[test]
fn translated_object_is_hit_where_it_was_moved_to() {
    let ball = sphere(Vector3::zeros(), 1.0, diffuse(0.5, 0.5, 0.5));
    let moved =
        lift(Shape::Translate(Translate::arc(pack(Vector3::new(10.0, 0.0, 0.0)), ball)));
    let x = ray(Vector3::new(10.0, 0.0, 5.0), Vector3::new(0.0, 0.0, -1.0));
    let hit = moved.hit(&x, start(), end()).unwrap();
    assert_eq!(f(hit.t), 4.0);
    assert_eq!(open(hit.point), Vector3::new(10.0, 0.0, 1.0));
    assert_eq!(open(hit.normal), Vector3::new(0.0, 0.0, 1.0));
    let old = ray(Vector3::new(0.0, 0.0, 5.0), Vector3::new(0.0, 0.0, -1.0));
    assert!(moved.hit(&old, start(), end()).is_none());
    let b = moved.bounding_box(s(0.0), s(1.0)).unwrap();
    assert_eq!(open(b.minimum), Vector3::new(9.0, -1.0, -1.0));
    assert_eq!(open(b.maximum), Vector3::new(11.0, 1.0, 1.0));
}

#[test]
fn translated_object_keeps_the_face_that_was_met() {
    let ball = sphere(Vector3::zeros(), 1.0, diffuse(0.5, 0.5, 0.5));
    let moved =
        lift(Shape::Translate(Translate::arc(pack(Vector3::new(0.0, 0.0, -10.0)), ball)));
    let inside = ray(Vector3::new(0.0, 0.0, -10.0), Vector3::new(0.0, 0.0, -1.0));
    let hit = moved.hit(&inside, start(), s(f64::MAX)).unwrap();
    assert_eq!(f(hit.t), 1.0);
    assert_eq!(open(hit.point), Vector3::new(0.0, 0.0, -11.0));
    assert_eq!(open(hit.normal), Vector3::new(0.0, 0.0, 1.0));
    assert!(!hit.front_face);
    let outside = ray(Vector3::new(0.0, 0.0, -5.0), Vector3::new(0.0, 0.0, -1.0));
    let hit = moved.hit(&outside, start(), s(f64::MAX)).unwrap();
    assert_eq!(f(hit.t), 4.0);
    assert_eq!(open(hit.point), Vector3::new(0.0, 0.0, -9.0));
    assert_eq!(open(hit.normal), Vector3::new(0.0, 0.0, 1.0));
    assert!(hit.front_face);
}

#[test]
fn rotated_object_keeps_the_face_that_was_met_after_a_half_turn() {
    let ball = sphere(Vector3::new(2.0, 0.0, 0.0), 1.0, diffuse(0.5, 0.5, 0.5));
    let turned = rotate_y(180.0, ball);
    let outside = ray(Vector3::new(-10.0, 0.0, 0.0), Vector3::new(1.0, 0.0, 0.0));
    let hit = turned.hit(&outside, start(), end()).unwrap();
    assert!((f(hit.t) - 7.0).abs() < 1e-9);
    assert!((open(hit.point) - Vector3::new(-3.0, 0.0, 0.0)).magnitude() < 1e-9);
    assert!((open(hit.normal) - Vector3::new(-1.0, 0.0, 0.0)).magnitude() < 1e-9);
    assert!(hit.front_face);
    let inside = ray(Vector3::new(-2.0, 0.0, 0.0), Vector3::new(1.0, 0.0, 0.0));
    let hit = turned.hit(&inside, start(), end()).unwrap();
    assert!((f(hit.t) - 1.0).abs() < 1e-9);
    assert!((open(hit.normal) - Vector3::new(-1.0, 0.0, 0.0)).magnitude() < 1e-9);
    assert!(!hit.front_face);
}

#[test]
fn transforms_of_an_unbounded_object_have_no_box() {
    let moved =
        lift(Shape::Translate(Translate::arc(pack(Vector3::new(1.0, 0.0, 0.0)), Arc::new(Unbounded))));
    assert!(moved.bounding_box(s(0.0), s(1.0)).is_none());
    let turned = rotate_y(30.0, Arc::new(Unbounded));
    assert!(turned.bounding_box(s(0.0), s(1.0)).is_none());
}

#[test]
fn rotated_object_is_hit_where_it_was_turned_to() {
    let ball = sphere(Vector3::new(2.0, 0.0, 0.0), 1.0, diffuse(0.5, 0.5, 0.5));
    let turned = rotate_y(90.0, ball);
    let x = ray(Vector3::new(0.0, 0.0, -10.0), Vector3::new(0.0, 0.0, 1.0));
    let hit = turned.hit(&x, start(), end()).unwrap();
    assert!((f(hit.t) - 7.0).abs() < 1e-9);
    assert!((open(hit.point) - Vector3::new(0.0, 0.0, -3.0)).magnitude() < 1e-9);
    assert!((open(hit.normal) - Vector3::new(0.0, 0.0, -1.0)).magnitude() < 1e-9);
    assert!(hit.front_face);
    let b = turned.bounding_box(s(0.0), s(1.0)).unwrap();
    assert!((open(b.minimum) - Vector3::new(-1.0, -1.0, -3.0)).magnitude() < 1e-9);
    assert!((open(b.maximum) - Vector3::new(1.0, 1.0, -1.0)).magnitude() < 1e-9);
}

#[test]
fn rotated_object_turns_the_normal_of_the_hit() {
    let ball = sphere(Vector3::zeros(), 1.0, diffuse(0.5, 0.5, 0.5));
    let turned = rotate_y(10.0, ball);
    let x = ray(Vector3::new(0.0, 0.0, -10.0), Vector3::new(0.0, 0.0, 1.0));
    let hit = turned.hit(&x, start(), end()).unwrap();
    assert!((f(hit.t) - 9.0).abs() < 1e-9);
    assert!((open(hit.point) - Vector3::new(0.0, 0.0, -1.0)).magnitude() < 1e-9);
    assert!((open(hit.normal) - Vector3::new(0.0, 0.0, -1.0)).magnitude() < 1e-9);
    assert!(hit.front_face);
}

#[test]
fn box_is_hit_by_the_slab_test_also_along_an_axis() {
    let b = AABB::new(pack(Vector3::new(-1.0, -1.0, -1.0)), pack(Vector3::new(1.0, 1.0, 1.0)));
    let through = ray(Vector3::new(0.0, 0.0, 5.0), Vector3::new(0.0, 0.0, -1.0));
    let beside = ray(Vector3::new(2.0, 0.0, 5.0), Vector3::new(0.0, 0.0, -1.0));
    let away = ray(Vector3::new(0.0, 0.0, 5.0), Vector3::new(0.0, 0.0, 1.0));
    let skew = ray(Vector3::new(5.0, 5.0, 5.0), Vector3::new(-1.0, -1.0, -1.0));
    let edge = ray(Vector3::new(1.0, 0.0, 5.0), Vector3::new(0.0, 0.0, -1.0));
    assert!(b.hit(&through, start(), end(), &slabs));
    assert!(!b.hit(&beside, start(), end(), &slabs));
    assert!(!b.hit(&away, start(), end(), &slabs));
    assert!(b.hit(&skew, start(), end(), &slabs));
    assert!(!b.hit(&through, start(), s(4.0), &slabs));
    assert!(b.hit(&through, start(), s(4.5), &slabs));
    assert!(!b.hit(&through, s(6.0), end(), &slabs));
    assert!(b.hit(&edge, start(), end(), &slabs));
}
