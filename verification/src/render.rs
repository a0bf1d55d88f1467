//! The colour of a pixel: a ray followed from bounce to bounce, each hit
//! lit and blended into the running colour.
use crate::color::Color;
use crate::math::scalar::{magnitude, unit, Scalar};
use crate::math::vector3::Vector3;
use crate::ray::{Hit, Ray};
use crate::scene::{Object, Scene};
use vstd::prelude::*;

verus! {

/// Raw value of the share of the light, one fifth, that a surface passes on
/// whatever the angle.
pub const BASE_PASS_RAW: i32 = 13107;

/// Raw value of the further share, four fifths, that a surface passes on
/// to a ray that meets it head on.
pub const ANGLE_PASS_RAW: i32 = 52429;

/// A ray on its way through the scene, with what it has gathered so far.
#[derive(Debug, Clone, Copy)]
pub struct LightPath {
    /// The running estimate of the pixel's colour.
    pub color: Color,
    /// What is left of the light's weight after the bounces so far.
    pub scale: Color,
    /// The ray to cast next.
    pub ray: Ray,
    /// The object that the ray has just left, if any.
    pub exclude: Option<usize>,
}

/// Where a ray ended and what it took to get there.
#[derive(Debug, Clone, Copy)]
pub struct Trace {
    /// The state after the last bounce.
    pub path: LightPath,
    /// How many times the ray hit an object.
    pub bounces: usize,
    /// How many times the scene was asked for the nearest hit.
    pub queries: usize,
}

/// The share of the light that the surface passes on to the running colour:
/// `0.2 + 0.8 * dot(direction, normal)^2`.
pub open spec fn spec_pass_through(direction: Vector3, normal: Vector3) -> Scalar {
    let cosine = direction.spec_dot(normal);
    Scalar { raw: BASE_PASS_RAW }.plus(Scalar { raw: ANGLE_PASS_RAW }.times(cosine.times(cosine)))
}

/// The light that the first `count` directional lights throw on a surface
/// with the given normal: each light that faces the surface adds
/// `surface * lamp * scale`, weighted by the cosine between its direction
/// and the normal.
pub open spec fn directional_light(
    lights: Seq<(Vector3, Color)>,
    normal: Vector3,
    surface: Color,
    scale: Color,
    count: int,
) -> Color
    decreases count,
{
    if count <= 0 {
        Color::spec_black()
    } else {
        let before = directional_light(lights, normal, surface, scale, count - 1);
        let shade = lights[count - 1].0.spec_dot(normal);
        if shade@ > 0 {
            before.accumulated(surface.filtered(lights[count - 1].1).filtered(scale), shade)
        } else {
            before
        }
    }
}

/// `start` with the light of the first `count` ambient lights added: each
/// adds `surface * ambient * scale` at full weight.
pub open spec fn ambient_light(
    lights: Seq<Color>,
    surface: Color,
    scale: Color,
    start: Color,
    count: int,
) -> Color
    decreases count,
{
    if count <= 0 {
        start
    } else {
        ambient_light(lights, surface, scale, start, count - 1).accumulated(
            surface.filtered(lights[count - 1]).filtered(scale),
            Scalar::of(unit()),
        )
    }
}

/// The colour of the surface at `hit` under all the lights of the scene,
/// weighted by `scale`: the directional lights first, then the ambient ones.
pub open spec fn spec_shade<T: Object>(scene: &Scene<T>, hit: Hit, scale: Color) -> Color {
    let surface = scene.objects@[hit.object as int].spec_color();
    let directional = directional_light(
        scene.directional_lights@,
        hit.normal,
        surface,
        scale,
        scene.directional_lights@.len() as int,
    );
    ambient_light(
        scene.ambient_lights@,
        surface,
        scale,
        directional,
        scene.ambient_lights@.len() as int,
    )
}

/// The path after `hit`: the lit colour of the surface, times the share
/// passed on, is blended into the running colour; the weight loses that
/// share; the ray leaves the hit point as a mirror would send it; and the
/// object hit is the one to pass over next.
pub open spec fn path_after_hit<T: Object>(scene: &Scene<T>, path: LightPath, hit: Hit) -> LightPath {
    let pass = spec_pass_through(path.ray.direction, hit.normal);
    let refraction = Scalar::of(unit()).minus(pass);
    LightPath {
        color: path.color.lightest(spec_shade(scene, hit, path.scale).scaled(pass)),
        scale: path.scale.scaled(refraction),
        ray: Ray { start: hit.position, direction: hit.spec_out_angle(path.ray.direction) },
        exclude: Some(hit.object),
    }
}

/// One bounce: the path after the nearest hit, or `None` where the ray
/// meets nothing.
pub open spec fn spec_bounce<T: Object>(scene: &Scene<T>, path: LightPath) -> Option<LightPath> {
    match scene.spec_calculate_hit(path.ray, path.exclude) {
        Some(hit) => Some(path_after_hit(scene, path, hit)),
        None => None,
    }
}

/// The path as a ray enters the scene: the background colour, the full
/// weight, nothing to pass over.
pub open spec fn spec_enter<T: Object>(scene: &Scene<T>, ray: Ray) -> LightPath {
    LightPath { color: scene.background_color, scale: Color::spec_white(), ray, exclude: None }
}

/// The path followed for at most `budget` bounces, and the number of
/// bounces made: it ends early where the ray meets nothing.
pub open spec fn spec_follow<T: Object>(scene: &Scene<T>, path: LightPath, budget: nat) -> (
    LightPath,
    nat,
)
    decreases budget,
{
    if budget == 0 {
        (path, 0)
    } else {
        match spec_bounce(scene, path) {
            Some(next) => {
                let rest = spec_follow(scene, next, (budget - 1) as nat);
                (rest.0, rest.1 + 1)
            },
            None => (path, 0),
        }
    }
}

/// The number of hit queries that following a path takes: one for each
/// bounce, and one more for the miss that ends it early.
pub open spec fn spec_queries(bounces: nat, budget: nat) -> nat {
    if bounces < budget {
        bounces + 1
    } else {
        budget
    }
}

/// The colour that a ray brings back from the scene.
pub open spec fn spec_calculate_color<T: Object>(scene: &Scene<T>, ray: Ray, max_bounces: nat) -> Color {
    spec_follow(scene, spec_enter(scene, ray), max_bounces).0.color
}

/// Whether a path meets an object at each of its next `budget` bounces.
pub open spec fn keeps_hitting<T: Object>(scene: &Scene<T>, path: LightPath, budget: nat) -> bool
    decreases budget,
{
    budget == 0 || match spec_bounce(scene, path) {
        Some(next) => keeps_hitting(scene, next, (budget - 1) as nat),
        None => false,
    }
}

/// A path never makes more bounces than its budget, nor more hit queries:
/// the bounces end after `budget` of them whatever the ray goes on to meet.
pub proof fn lemma_budget_is_kept<T: Object>(scene: &Scene<T>, path: LightPath, budget: nat)
    ensures
        spec_follow(scene, path, budget).1 <= budget,
        spec_queries(spec_follow(scene, path, budget).1, budget) <= budget,
    decreases budget,
{
    if budget > 0 {
        match spec_bounce(scene, path) {
            Some(next) => lemma_budget_is_kept(scene, next, (budget - 1) as nat),
            None => {},
        }
    }
}

/// A path that keeps hitting objects makes exactly `budget` bounces with
/// exactly `budget` hit queries, and only such a path makes that many
/// bounces.
pub proof fn lemma_budget_is_spent<T: Object>(scene: &Scene<T>, path: LightPath, budget: nat)
    ensures
        keeps_hitting(scene, path, budget) <==> spec_follow(scene, path, budget).1 == budget,
        keeps_hitting(scene, path, budget) ==> spec_queries(
            spec_follow(scene, path, budget).1,
            budget,
        ) == budget,
    decreases budget,
{
    if budget > 0 {
        match spec_bounce(scene, path) {
            Some(next) => {
                lemma_budget_is_spent(scene, next, (budget - 1) as nat);
                lemma_budget_is_kept(scene, next, (budget - 1) as nat);
            },
            None => {},
        }
    }
}

/// A bounce never darkens the running colour: no component of it falls.
pub proof fn lemma_bounce_never_darkens<T: Object>(scene: &Scene<T>, path: LightPath)
    ensures
        spec_bounce(scene, path) matches Some(next) ==> {
            &&& next.color.r@ >= path.color.r@
            &&& next.color.g@ >= path.color.g@
            &&& next.color.b@ >= path.color.b@
        },
{
}

/// However long a path is followed, the colour it ends with is in no
/// component below the colour it started with: what an earlier bounce
/// brought in, no later bounce takes away.
pub proof fn lemma_follow_never_darkens<T: Object>(scene: &Scene<T>, path: LightPath, budget: nat)
    ensures
        spec_follow(scene, path, budget).0.color.r@ >= path.color.r@,
        spec_follow(scene, path, budget).0.color.g@ >= path.color.g@,
        spec_follow(scene, path, budget).0.color.b@ >= path.color.b@,
    decreases budget,
{
    if budget > 0 {
        match spec_bounce(scene, path) {
            Some(next) => {
                lemma_bounce_never_darkens(scene, path);
                lemma_follow_never_darkens(scene, next, (budget - 1) as nat);
            },
            None => {},
        }
    }
}

/// Where the cosine between direction and normal is at most one in size,
/// the share passed on lies between one fifth and one.
pub proof fn lemma_pass_through_range(direction: Vector3, normal: Vector3)
    requires
        magnitude(direction.spec_dot(normal)@) <= unit(),
    ensures
        BASE_PASS_RAW <= spec_pass_through(direction, normal)@ <= unit(),
{
    let cosine = direction.spec_dot(normal)@;
    assert(0 <= cosine * cosine <= 65536 * 65536) by (nonlinear_arith)
        requires
            -65536 <= cosine <= 65536,
    ;
    let squared = direction.spec_dot(normal).times(direction.spec_dot(normal))@;
    assert(0 <= squared <= 65536);
    assert(0 <= ANGLE_PASS_RAW * squared <= 52429 * 65536) by (nonlinear_arith)
        requires
            0 <= squared <= 65536,
            ANGLE_PASS_RAW == 52429,
    ;
}

/// Where the cosine between the ray and the normal at the hit is at most
/// one in size, a bounce leaves no component of the weight larger in size
/// than it was: later bounces count for less.
pub proof fn lemma_weight_diminishes<T: Object>(scene: &Scene<T>, path: LightPath)
    requires
        scene.spec_calculate_hit(path.ray, path.exclude) matches Some(hit) && magnitude(
            path.ray.direction.spec_dot(hit.normal)@,
        ) <= unit(),
    ensures
        spec_bounce(scene, path) matches Some(next) && {
            &&& magnitude(next.scale.r@) <= magnitude(path.scale.r@)
            &&& magnitude(next.scale.g@) <= magnitude(path.scale.g@)
            &&& magnitude(next.scale.b@) <= magnitude(path.scale.b@)
        },
{
    let hit = scene.spec_calculate_hit(path.ray, path.exclude).unwrap();
    lemma_pass_through_range(path.ray.direction, hit.normal);
    let refraction = Scalar::of(unit()).minus(spec_pass_through(path.ray.direction, hit.normal));
    assert(0 <= refraction@ <= 65536);
    lemma_fraction_shrinks(path.scale.r, refraction);
    lemma_fraction_shrinks(path.scale.g, refraction);
    lemma_fraction_shrinks(path.scale.b, refraction);
}

/// A scalar times a fraction between zero and one is no larger in size.
pub proof fn lemma_fraction_shrinks(value: Scalar, fraction: Scalar)
    requires
        0 <= fraction@ <= unit(),
    ensures
        magnitude(value.times(fraction)@) <= magnitude(value@),
{
    let size = magnitude(value@);
    assert(0 <= size * fraction@ <= size * 65536) by (nonlinear_arith)
        requires
            0 <= size,
            0 <= fraction@ <= 65536,
    ;
    assert(value@ * fraction@ == size * fraction@ || value@ * fraction@ == -(size * fraction@))
        by (nonlinear_arith)
        requires
            size == value@ || size == -value@,
    ;
}

/// In a scene without objects no ray hits anything, and every pixel has
/// the background colour, whatever the ray and the budget.
pub proof fn lemma_empty_scene<T: Object>(scene: &Scene<T>, ray: Ray, max_bounces: nat)
    requires
        scene.objects@.len() == 0,
    ensures
        forall|exclude: Option<usize>| scene.spec_calculate_hit(ray, exclude) is None,
        spec_calculate_color(scene, ray, max_bounces) == scene.background_color,
{
    assert forall|exclude: Option<usize>| scene.spec_calculate_hit(ray, exclude) is None by {
        scene.lemma_no_hit(ray, exclude);
    }
}

/// The share of the light that a surface passes on to the running colour.
pub fn pass_through(direction: Vector3, normal: Vector3) -> (pass: Scalar)
    ensures
        pass == spec_pass_through(direction, normal),
{
    let cosine = direction.dot(normal);
    Scalar { raw: BASE_PASS_RAW } + Scalar { raw: ANGLE_PASS_RAW } * (cosine * cosine)
}

/// The colour of the surface at `hit` under the lights of the scene.
pub fn shade<T: Object>(scene: &Scene<T>, hit: &Hit, scale: Color) -> (lit: Color)
    requires
        hit.object < scene.objects@.len(),
    ensures
        lit == spec_shade(scene, *hit, scale),
{
    let surface = scene.objects[hit.object].color();
    let mut lit = Color::black();
    let mut i: usize = 0;
    while i < scene.directional_lights.len()
        invariant
            0 <= i <= scene.directional_lights@.len(),
            lit == directional_light(
                scene.directional_lights@,
                hit.normal,
                surface,
                scale,
                i as int,
            ),
        decreases scene.directional_lights@.len() - i,
    {
        let (direction, lamp) = scene.directional_lights[i];
        let cosine = direction.dot(hit.normal);
        if cosine.raw > 0 {
            lit.add(surface * lamp * scale, cosine);
        }
        i += 1;
    }
    let ghost directional = lit;
    let mut k: usize = 0;
    while k < scene.ambient_lights.len()
        invariant
            0 <= k <= scene.ambient_lights@.len(),
            lit == ambient_light(scene.ambient_lights@, surface, scale, directional, k as int),
        decreases scene.ambient_lights@.len() - k,
    {
        let ambient = scene.ambient_lights[k];
        lit.add(surface * ambient * scale, Scalar::one());
        k += 1;
    }
    lit
}

/// One bounce of the path: finds the nearest hit, lights it and sends the
/// ray on. `None` where the ray meets nothing.
pub fn bounce<T: Object>(scene: &Scene<T>, path: &LightPath) -> (next: Option<LightPath>)
    ensures
        next == spec_bounce(scene, *path),
{
    match scene.calculate_hit(&path.ray, path.exclude) {
        Some(hit) => {
            let lit = shade(scene, &hit, path.scale);
            let pass = pass_through(path.ray.direction, hit.normal);
            let refraction = Scalar::one() - pass;
            Some(
                LightPath {
                    color: path.color + lit * pass,
                    scale: path.scale * refraction,
                    ray: Ray { start: hit.position, direction: hit.out_angle(path.ray.direction) },
                    exclude: Some(hit.object),
                },
            )
        },
        None => None,
    }
}

/// Follows `ray` through the scene for at most `max_bounces` bounces.
pub fn trace<T: Object>(scene: &Scene<T>, ray: Ray, max_bounces: usize) -> (trace: Trace)
    ensures
        (trace.path, trace.bounces as nat) == spec_follow(
            scene,
            spec_enter(scene, ray),
            max_bounces as nat,
        ),
        trace.queries == spec_queries(trace.bounces as nat, max_bounces as nat),
{
    let mut path = LightPath {
        color: scene.background_color,
        scale: Color::white(),
        ray,
        exclude: None,
    };
    let mut bounces: usize = 0;
    let mut queries: usize = 0;
    while queries < max_bounces
        invariant_except_break
            queries == bounces,
        invariant
            bounces <= max_bounces,
            spec_follow(scene, spec_enter(scene, ray), max_bounces as nat) == ({
                let rest = spec_follow(scene, path, (max_bounces - bounces) as nat);
                (rest.0, rest.1 + bounces as nat)
            }),
        ensures
            (path, bounces as nat) == spec_follow(
                scene,
                spec_enter(scene, ray),
                max_bounces as nat,
            ),
            queries == spec_queries(bounces as nat, max_bounces as nat),
        decreases max_bounces - queries,
    {
        queries += 1;
        match bounce(scene, &path) {
            Some(next) => {
                path = next;
                bounces += 1;
            },
            None => {
                break ;
            },
        }
    }
    Trace { path, bounces, queries }
}

/// The colour of the pixel whose ray is `ray`: the running colour after at
/// most `max_bounces` bounces.
pub fn calculate_color<T: Object>(scene: &Scene<T>, ray: Ray, max_bounces: usize) -> (color: Color)
    ensures
        color == spec_calculate_color(scene, ray, max_bounces as nat),
{
    trace(scene, ray, max_bounces).path.color
}

} // verus!
