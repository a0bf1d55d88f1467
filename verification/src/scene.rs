//! Objects, the scene that owns them, and the search for the nearest
//! object along a ray.
use crate::color::Color;
use crate::math::root::{floor_sqrt, lemma_root_of_square, root};
use crate::math::scalar::{magnitude, unit, Scalar};
use crate::math::vector3::{
    lemma_length_zero, lemma_normalize_bounded, lemma_normalize_length, lemma_product_bound,
    lemma_squares_not_negative, Vector3,
};
use crate::ray::{Hit, Ray};
use vstd::prelude::*;

verus! {

/// The hit that object `id` reports for a surface point and its normal.
pub open spec fn hit_at(surface: Option<(Vector3, Vector3)>, id: usize) -> Option<Hit> {
    match surface {
        Some((position, normal)) => Some(Hit { position, normal, object: id }),
        None => None,
    }
}

/// Something a ray can strike.
pub trait Object {
    /// The point where `ray` meets the surface and the normal there, if it
    /// meets it at all.
    spec fn surface(&self, ray: Ray) -> Option<(Vector3, Vector3)>;

    /// The material colour.
    spec fn spec_color(&self) -> Color;

    /// Intersects `ray` with the object, which the scene knows as `id`.
    fn intersect(&self, ray: &Ray, id: usize) -> (hit: Option<Hit>)
        ensures
            hit == hit_at(self.surface(*ray), id),
    ;

    /// The material colour.
    fn color(&self) -> (color: Color)
        ensures
            color == self.spec_color(),
    ;
}

/// A sphere: `size` is its radius.
#[derive(Debug, Clone, Copy)]
pub struct Sphere {
    pub center: Vector3,
    pub size: Scalar,
    pub color: Color,
}

impl Sphere {
    /// The offset from the start of `ray` to the centre.
    pub open spec fn to_center(&self, ray: Ray) -> Vector3 {
        self.center.minus(ray.start)
    }

    /// The offset to the centre projected on the direction of `ray`.
    pub open spec fn projection(&self, ray: Ray) -> Scalar {
        self.to_center(ray).spec_dot(ray.direction)
    }

    /// `size^2 - (|to_center|^2 - projection^2)`, computed exactly in units
    /// of `1 / unit()^2`. The ray meets the sphere when it is not negative.
    pub open spec fn discriminant(&self, ray: Ray) -> int {
        let offset = self.to_center(ray);
        let along = self.projection(ray);
        self.size@ * self.size@ - (offset.spec_exact_dot(offset) - along@ * along@)
    }

    /// The nearer of the two points where the line of `ray` crosses the
    /// sphere: `start + (projection - sqrt(discriminant)) * direction`.
    pub open spec fn entry(&self, ray: Ray) -> Vector3 {
        let half_chord = Scalar::of(root(self.discriminant(ray)));
        ray.start.plus(ray.direction.scaled(self.projection(ray).minus(half_chord)))
    }
}

impl Object for Sphere {
    /// The entry point and the unit normal there, which points from the
    /// surface to the centre. A point behind the start of the ray counts.
    /// There is no hit where the discriminant is negative, nor where the
    /// entry point falls on the centre, which leaves no normal.
    open spec fn surface(&self, ray: Ray) -> Option<(Vector3, Vector3)> {
        let position = self.entry(ray);
        let inward = self.center.minus(position);
        if self.discriminant(ray) < 0 || inward.spec_is_zero() {
            None
        } else {
            Some((position, inward.spec_normalize()))
        }
    }

    open spec fn spec_color(&self) -> Color {
        self.color
    }

    fn intersect(&self, ray: &Ray, id: usize) -> (hit: Option<Hit>) {
        let offset = self.center - ray.start;
        let along = offset.dot(ray.direction);
        proof {
            lemma_product_bound(self.size@, self.size@);
            lemma_product_bound(along@, along@);
        }
        let discriminant = self.size.raw as i128 * self.size.raw as i128 - (offset.exact_dot(offset)
            - along.raw as i128 * along.raw as i128);
        if discriminant < 0 {
            return None;
        }
        proof {
            lemma_squares_not_negative(offset);
        }
        let rounded = floor_sqrt(discriminant as u64);
        let half_chord = if rounded > 0x7fff_ffff {
            Scalar { raw: 0x7fff_ffff }
        } else {
            Scalar { raw: rounded as i32 }
        };
        let position = ray.start + (along - half_chord) * ray.direction;
        let inward = self.center - position;
        if inward.is_zero() {
            return None;
        }
        Some(Hit { position, normal: inward.normalize(), object: id })
    }

    fn color(&self) -> (color: Color) {
        self.color
    }
}

/// The normal of a hit on a sphere is about one long. No component of it is
/// larger in size than one; and where the hit point is at least one away
/// from the centre, and short of the longest distance that a scalar can
/// hold, the length of the normal is at most one and falls short of one by
/// two raw units at most.
pub proof fn lemma_sphere_normal(sphere: Sphere, ray: Ray)
    ensures
        sphere.surface(ray) matches Some((position, normal)) ==> {
            &&& normal == sphere.center.minus(position).spec_normalize()
            &&& magnitude(normal.x@) <= unit()
            &&& magnitude(normal.y@) <= unit()
            &&& magnitude(normal.z@) <= unit()
            &&& unit() <= sphere.center.minus(position).spec_length()@ < 2147483647 ==> unit() - 2
                <= normal.spec_length()@ <= unit()
        },
{
    if sphere.surface(ray) is Some {
        let inward = sphere.center.minus(sphere.entry(ray));
        lemma_length_zero(inward);
        lemma_normalize_bounded(inward);
        if unit() <= inward.spec_length()@ < 2147483647 {
            lemma_normalize_length(inward);
        }
    }
}

/// The hit of a ray through the centre, for a ray along the x axis.
proof fn lemma_hit_along_x(sphere: Sphere, ray: Ray)
    requires
        sphere.center.spec_is_zero(),
        sphere.size@ > 0,
        -2147483648 < ray.start.x@ <= 0,
        ray.start.y@ == 0,
        ray.start.z@ == 0,
        ray.direction.x@ == unit(),
        ray.direction.y@ == 0,
        ray.direction.z@ == 0,
    ensures
        sphere.surface(ray) matches Some((position, normal)) && {
            &&& position.x@ == -sphere.size@
            &&& position.y@ == 0
            &&& position.z@ == 0
            &&& normal == ray.direction
            &&& distance_squared(ray, Hit { position, normal, object: 0 }) == (-ray.start.x@
                - sphere.size@) * (-ray.start.x@ - sphere.size@)
        },
{
    let r = sphere.size@;
    let d = -ray.start.x@;
    let offset = sphere.to_center(ray);
    assert(offset.x@ == d && offset.y@ == 0 && offset.z@ == 0);
    assert(offset.spec_exact_dot(ray.direction) == d * 65536) by (nonlinear_arith)
        requires
            offset.x@ == d && offset.y@ == 0 && offset.z@ == 0,
            ray.direction.x@ == 65536,
            ray.direction.y@ == 0,
            ray.direction.z@ == 0,
    ;
    assert(sphere.projection(ray)@ == d);
    assert(offset.spec_exact_dot(offset) == d * d) by (nonlinear_arith)
        requires
            offset.x@ == d && offset.y@ == 0 && offset.z@ == 0,
    ;
    assert(sphere.discriminant(ray) == r * r);
    lemma_root_of_square(r);
    let reach = sphere.projection(ray).minus(Scalar::of(r));
    assert(reach@ == d - r);
    let step = ray.direction.scaled(reach);
    assert(step.x@ == d - r && step.y@ == 0 && step.z@ == 0) by {
        assert(65536 * (d - r) / 65536 == d - r);
        assert((-(65536 * (d - r))) / 65536 == -(d - r));
        assert(ray.direction.x@ * reach@ == 65536 * (d - r)) by (nonlinear_arith)
            requires
                ray.direction.x@ == 65536,
                reach@ == d - r,
        ;
        assert(ray.direction.y@ * reach@ == 0) by (nonlinear_arith)
            requires
                ray.direction.y@ == 0,
        ;
        assert(ray.direction.z@ * reach@ == 0) by (nonlinear_arith)
            requires
                ray.direction.z@ == 0,
        ;
    }
    let position = sphere.entry(ray);
    assert(position.x@ == -r && position.y@ == 0 && position.z@ == 0);
    let inward = sphere.center.minus(position);
    assert(inward.x@ == r && inward.y@ == 0 && inward.z@ == 0);
    assert(inward.spec_exact_dot(inward) == r * r) by (nonlinear_arith)
        requires
            inward.x@ == r && inward.y@ == 0 && inward.z@ == 0,
    ;
    assert(inward.spec_length()@ == r);
    assert((r * 65536) / r == 65536) by (nonlinear_arith)
        requires
            r > 0,
    ;
    assert(0int / r == 0) by (nonlinear_arith)
        requires
            r > 0,
    ;
    assert(inward.spec_normalize() == ray.direction);
    let travelled = position.minus(ray.start);
    assert(travelled.x@ == d - r && travelled.y@ == 0 && travelled.z@ == 0);
    assert(travelled.spec_exact_dot(travelled) == (d - r) * (d - r)) by (nonlinear_arith)
        requires
            travelled.x@ == d - r && travelled.y@ == 0 && travelled.z@ == 0,
    ;
}

/// The vector that lies on one of the three axes: `value` in the component
/// that `axis` counts from zero, and zero in the other two.
pub open spec fn on_axis(axis: int, value: Scalar) -> Vector3 {
    let zero = Scalar { raw: 0 };
    if axis == 0 {
        Vector3 { x: value, y: zero, z: zero }
    } else if axis == 1 {
        Vector3 { x: zero, y: value, z: zero }
    } else {
        Vector3 { x: zero, y: zero, z: value }
    }
}

/// A vector with its components moved round by one place.
pub open spec fn turned(v: Vector3) -> Vector3 {
    Vector3 { x: v.y, y: v.z, z: v.x }
}

/// A sphere and a ray turned together meet where the sphere and the ray
/// did, turned.
pub proof fn lemma_turned_surface(sphere: Sphere, ray: Ray)
    ensures
        (Sphere { center: turned(sphere.center), size: sphere.size, color: sphere.color }).surface(
            Ray { start: turned(ray.start), direction: turned(ray.direction) },
        ) == match sphere.surface(ray) {
            Some((position, normal)) => Some((turned(position), turned(normal))),
            None => None,
        },
{
    let sphere_turned = Sphere {
        center: turned(sphere.center),
        size: sphere.size,
        color: sphere.color,
    };
    let ray_turned = Ray { start: turned(ray.start), direction: turned(ray.direction) };
    assert(sphere_turned.to_center(ray_turned) == turned(sphere.to_center(ray)));
    assert(sphere_turned.projection(ray_turned) == sphere.projection(ray));
    assert(sphere_turned.discriminant(ray_turned) == sphere.discriminant(ray));
    assert(sphere_turned.entry(ray_turned) == turned(sphere.entry(ray)));
    let inward = sphere.center.minus(sphere.entry(ray));
    assert(sphere_turned.center.minus(sphere_turned.entry(ray_turned)) == turned(inward));
    assert(turned(inward).spec_length() == inward.spec_length());
    assert(turned(inward).spec_normalize() == turned(inward.spec_normalize()));
}

/// A ray fired along an axis at a sphere around the origin, from a distance
/// `d` to the centre, meets the sphere of radius `r` at the distance
/// `d - r`: at the point `-r` on that axis. The normal there points to the
/// centre, as the ray does.
pub proof fn lemma_hit_through_center(sphere: Sphere, ray: Ray, axis: int, from: Scalar)
    requires
        sphere.center.spec_is_zero(),
        sphere.size@ > 0,
        0 <= axis < 3,
        -2147483648 < from@ <= 0,
        ray.start == on_axis(axis, from),
        ray.direction == on_axis(axis, Scalar::of(unit())),
    ensures
        sphere.surface(ray) == Some((on_axis(axis, Scalar::of(-sphere.size@)), ray.direction)),
        distance_squared(
            ray,
            Hit { position: on_axis(axis, Scalar::of(-sphere.size@)), normal: ray.direction, object: 0 },
        ) == (-from@ - sphere.size@) * (-from@ - sphere.size@),
{
    let once = Ray { start: turned(ray.start), direction: turned(ray.direction) };
    let twice = Ray { start: turned(once.start), direction: turned(once.direction) };
    let center = sphere.center;
    assert(turned(center) == center);
    if axis == 0 {
        lemma_hit_along_x(sphere, ray);
    } else if axis == 1 {
        lemma_hit_along_x(sphere, once);
        lemma_turned_surface(sphere, ray);
    } else {
        lemma_hit_along_x(sphere, twice);
        lemma_turned_surface(sphere, once);
        lemma_turned_surface(sphere, ray);
    }
    let position = on_axis(axis, Scalar::of(-sphere.size@));
    let travelled = position.minus(ray.start);
    assert(travelled == on_axis(axis, Scalar::of(-from@ - sphere.size@)));
    lemma_axis_square(axis, travelled);
}

/// The exact dot product of a vector on an axis with itself is the square of
/// its one component.
proof fn lemma_axis_square(axis: int, v: Vector3)
    requires
        0 <= axis < 3,
        exists|value: Scalar| v == on_axis(axis, value),
    ensures
        v.spec_exact_dot(v) == (v.x@ + v.y@ + v.z@) * (v.x@ + v.y@ + v.z@),
{
    let (x, y, z) = (v.x@, v.y@, v.z@);
    assert(x * x + y * y + z * z == (x + y + z) * (x + y + z)) by (nonlinear_arith)
        requires
            (y == 0 && z == 0) || (x == 0 && z == 0) || (x == 0 && y == 0),
    ;
}

/// The objects of a picture, its lights and the colour behind everything.
///
/// An object is known by its index in `objects`, which never changes once
/// the object is in the scene.
#[derive(Debug)]
pub struct Scene<T: Object> {
    pub objects: Vec<T>,
    pub background_color: Color,
    pub ambient_lights: Vec<Color>,
    pub directional_lights: Vec<(Vector3, Color)>,
}

/// The exact squared distance from the start of `ray` to `hit`, in units of
/// `1 / unit()^2`.
pub open spec fn distance_squared(ray: Ray, hit: Hit) -> int {
    let offset = hit.position.minus(ray.start);
    offset.spec_exact_dot(offset)
}

impl<T: Object> Scene<T> {
    /// What object `i` contributes to a query: its hit, unless there is no
    /// such object or it is the excluded one.
    pub open spec fn candidate(&self, ray: Ray, exclude: Option<usize>, i: int) -> Option<Hit> {
        if 0 <= i < self.objects@.len() && exclude != Some(i as usize) {
            hit_at(self.objects@[i].surface(ray), i as usize)
        } else {
            None
        }
    }

    /// Object `i` is hit, and among the first `count` objects none is hit
    /// nearer, nor as near with a smaller index.
    pub open spec fn is_nearest_of(
        &self,
        ray: Ray,
        exclude: Option<usize>,
        count: int,
        i: int,
    ) -> bool {
        &&& 0 <= i < count
        &&& self.candidate(ray, exclude, i) is Some
        &&& forall|j: int|
            0 <= j < count && (#[trigger] self.candidate(ray, exclude, j)) is Some ==> {
                let mine = distance_squared(ray, self.candidate(ray, exclude, i).unwrap());
                let other = distance_squared(ray, self.candidate(ray, exclude, j).unwrap());
                mine < other || (mine == other && i <= j)
            }
    }

    /// Object `i` gives the nearest hit of the whole scene.
    pub open spec fn is_nearest(&self, ray: Ray, exclude: Option<usize>, i: int) -> bool {
        self.is_nearest_of(ray, exclude, self.objects@.len() as int, i)
    }

    /// The hit nearest to the start of `ray` among all objects but the
    /// excluded one; of several at the same distance, that of the object
    /// with the smallest index. `None` if the ray meets none of them.
    pub open spec fn spec_calculate_hit(&self, ray: Ray, exclude: Option<usize>) -> Option<Hit> {
        if exists|i: int| self.is_nearest(ray, exclude, i) {
            self.candidate(ray, exclude, choose|i: int| self.is_nearest(ray, exclude, i))
        } else {
            None
        }
    }

    /// At most one object gives the nearest hit.
    pub proof fn lemma_nearest_unique(&self, ray: Ray, exclude: Option<usize>, i: int, j: int)
        requires
            self.is_nearest(ray, exclude, i),
            self.is_nearest(ray, exclude, j),
        ensures
            i == j,
    {
    }

    /// What the nearest hit is: the hit of the one object that
    /// `is_nearest` singles out, or nothing where no object is hit.
    pub proof fn lemma_calculate_hit(&self, ray: Ray, exclude: Option<usize>)
        ensures
            match self.spec_calculate_hit(ray, exclude) {
                Some(hit) => {
                    &&& hit.object < self.objects@.len()
                    &&& exclude != Some(hit.object)
                    &&& self.is_nearest(ray, exclude, hit.object as int)
                    &&& Some(hit) == hit_at(self.objects@[hit.object as int].surface(ray), hit.object)
                },
                None => forall|i: int| (#[trigger] self.candidate(ray, exclude, i)) is None,
            },
    {
        if exists|i: int| self.is_nearest(ray, exclude, i) {
            let chosen = choose|i: int| self.is_nearest(ray, exclude, i);
            assert(self.objects.len() == self.objects@.len());
        } else {
            if exists|i: int| (#[trigger] self.candidate(ray, exclude, i)) is Some {
                let some = choose|i: int| (#[trigger] self.candidate(ray, exclude, i)) is Some;
                self.lemma_nearest_exists(ray, exclude, self.objects@.len() as int, some);
                let nearest = choose|n: int|
                    self.is_nearest_of(ray, exclude, self.objects@.len() as int, n);
                assert(self.is_nearest(ray, exclude, nearest));
            }
        }
    }

    /// Where one of the first `count` objects is hit, one of them is the
    /// nearest of them.
    pub proof fn lemma_nearest_exists(&self, ray: Ray, exclude: Option<usize>, count: int, i: int)
        requires
            0 <= i < count <= self.objects@.len(),
            self.candidate(ray, exclude, i) is Some,
        ensures
            exists|n: int| self.is_nearest_of(ray, exclude, count, n),
        decreases count,
    {
        let last = count - 1;
        if exists|j: int| 0 <= j < last && (#[trigger] self.candidate(ray, exclude, j)) is Some {
            let j = choose|j: int| 0 <= j < last && (#[trigger] self.candidate(ray, exclude, j)) is Some;
            self.lemma_nearest_exists(ray, exclude, last, j);
            let before = choose|n: int| self.is_nearest_of(ray, exclude, last, n);
            if self.candidate(ray, exclude, last) is Some && distance_squared(
                ray,
                self.candidate(ray, exclude, last).unwrap(),
            ) < distance_squared(ray, self.candidate(ray, exclude, before).unwrap()) {
                assert(self.is_nearest_of(ray, exclude, count, last));
            } else {
                assert(self.is_nearest_of(ray, exclude, count, before));
            }
        } else {
            assert(self.is_nearest_of(ray, exclude, count, last));
        }
    }

    /// Where the ray meets no object, leaving the excluded one aside, there
    /// is no hit. This is so of every ray in a scene without objects.
    pub proof fn lemma_no_hit(&self, ray: Ray, exclude: Option<usize>)
        requires
            forall|i: int|
                0 <= i < self.objects@.len() && exclude != Some(i as usize)
                    ==> (#[trigger] self.objects@[i]).surface(ray) is None,
        ensures
            self.spec_calculate_hit(ray, exclude) is None,
    {
        self.lemma_calculate_hit(ray, exclude);
        if self.spec_calculate_hit(ray, exclude) is Some {
            let hit = self.spec_calculate_hit(ray, exclude).unwrap();
            assert(self.objects@[hit.object as int].surface(ray) is None);
        }
    }

    /// Where the ray meets one object only, leaving the excluded one aside,
    /// the hit is that object's, however far it is.
    pub proof fn lemma_only_hit(&self, ray: Ray, exclude: Option<usize>, only: usize)
        requires
            only < self.objects@.len(),
            exclude != Some(only),
            self.objects@[only as int].surface(ray) is Some,
            forall|i: int|
                0 <= i < self.objects@.len() && i != only && exclude != Some(i as usize)
                    ==> (#[trigger] self.objects@[i]).surface(ray) is None,
        ensures
            self.spec_calculate_hit(ray, exclude) == hit_at(
                self.objects@[only as int].surface(ray),
                only,
            ),
    {
        self.lemma_calculate_hit(ray, exclude);
        assert(self.candidate(ray, exclude, only as int) is Some);
        let hit = self.spec_calculate_hit(ray, exclude).unwrap();
        if hit.object != only {
            assert(self.objects@[hit.object as int].surface(ray) is None);
        }
    }

    /// The excluded object is never the one hit.
    pub proof fn lemma_excluded_not_hit(&self, ray: Ray, exclude: usize)
        ensures
            self.spec_calculate_hit(ray, Some(exclude)) matches Some(hit) ==> hit.object
                != exclude,
    {
        self.lemma_calculate_hit(ray, Some(exclude));
    }

    /// A second query with the same ray, which excludes the object that the
    /// first query hit, does not hit that object again.
    pub proof fn lemma_second_query(&self, ray: Ray, exclude: Option<usize>)
        ensures
            self.spec_calculate_hit(ray, exclude) matches Some(first) ==> (self.spec_calculate_hit(
                ray,
                Some(first.object),
            ) matches Some(second) ==> second.object != first.object),
    {
        if self.spec_calculate_hit(ray, exclude) is Some {
            let first = self.spec_calculate_hit(ray, exclude).unwrap();
            self.lemma_excluded_not_hit(ray, first.object);
        }
    }

    /// A scene without objects and without lights.
    pub fn new(background_color: Color) -> (scene: Scene<T>)
        ensures
            scene.objects@.len() == 0,
            scene.background_color == background_color,
            scene.ambient_lights@.len() == 0,
            scene.directional_lights@.len() == 0,
    {
        Scene {
            objects: Vec::new(),
            background_color,
            ambient_lights: Vec::new(),
            directional_lights: Vec::new(),
        }
    }

    /// Puts `obj` into the scene, behind the objects already there: its
    /// index is the number of objects before the call.
    pub fn add(&mut self, obj: T)
        ensures
            final(self).objects@ == old(self).objects@.push(obj),
            final(self).background_color == old(self).background_color,
            final(self).ambient_lights == old(self).ambient_lights,
            final(self).directional_lights == old(self).directional_lights,
    {
        self.objects.push(obj);
    }

    /// Finds the nearest hit of `ray`, passing over the object `exclude`:
    /// the hit of the one object that `is_nearest` singles out, or nothing
    /// where the ray meets none of the objects.
    pub fn calculate_hit(&self, ray: &Ray, exclude: Option<usize>) -> (nearest: Option<Hit>)
        ensures
            nearest == self.spec_calculate_hit(*ray, exclude),
            match nearest {
                Some(hit) => {
                    &&& hit.object < self.objects@.len()
                    &&& exclude != Some(hit.object)
                    &&& self.is_nearest(*ray, exclude, hit.object as int)
                    &&& Some(hit) == hit_at(self.objects@[hit.object as int].surface(*ray), hit.object)
                },
                None => forall|i: int| (#[trigger] self.candidate(*ray, exclude, i)) is None,
            },
    {
        proof {
            self.lemma_calculate_hit(*ray, exclude);
        }
        let mut best: Option<(Hit, i128)> = None;
        let mut i: usize = 0;
        while i < self.objects.len()
            invariant
                0 <= i <= self.objects@.len(),
                match best {
                    Some((hit, distance)) => {
                        &&& self.is_nearest_of(*ray, exclude, i as int, hit.object as int)
                        &&& self.candidate(*ray, exclude, hit.object as int) == Some(hit)
                        &&& distance as int == distance_squared(*ray, hit)
                    },
                    None => forall|j: int|
                        0 <= j < i ==> (#[trigger] self.candidate(*ray, exclude, j)) is None,
                },
            decreases self.objects@.len() - i,
        {
            let excluded = match exclude {
                Some(skip) => skip == i,
                None => false,
            };
            if !excluded {
                if let Some(hit) = self.objects[i].intersect(ray, i) {
                    let offset = hit.position - ray.start;
                    let distance = offset.exact_dot(offset);
                    let nearer = match best {
                        Some((_, least)) => distance < least,
                        None => true,
                    };
                    if nearer {
                        best = Some((hit, distance));
                    }
                }
            }
            i += 1;
        }
        match best {
            Some((hit, _)) => {
                proof {
                    let found = hit.object as int;
                    assert(self.is_nearest(*ray, exclude, found));
                    let chosen = choose|i: int| self.is_nearest(*ray, exclude, i);
                    self.lemma_nearest_unique(*ray, exclude, found, chosen);
                }
                Some(hit)
            },
            None => {
                proof {
                    if exists|i: int| self.is_nearest(*ray, exclude, i) {
                        let chosen = choose|i: int| self.is_nearest(*ray, exclude, i);
                        assert(self.candidate(*ray, exclude, chosen) is Some);
                    }
                }
                None
            },
        }
    }
}

} // verus!
