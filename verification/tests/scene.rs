use raytracer::{Color, Hit, Object, Ray, Scalar, Scene, Sphere, Vector3};

fn scalar(value: f32) -> Scalar {
    Scalar { raw: (value * 65536.0).round() as i32 }
}

fn vector(x: f32, y: f32, z: f32) -> Vector3 {
    Vector3::new(scalar(x), scalar(y), scalar(z))
}

fn sphere(x: f32, y: f32, z: f32, size: f32, color: Color) -> Sphere {
    Sphere { center: vector(x, y, z), size: scalar(size), color }
}

fn ray(start: Vector3, direction: Vector3) -> Ray {
    Ray { start, direction }
}

#[test]
fn out_angle_mirrors_about_the_normal() {
    let hit = Hit { position: vector(0.0, 0.0, 0.0), normal: vector(0.0, 1.0, 0.0), object: 0 };
    assert_eq!(hit.out_angle(vector(1.0, -1.0, 0.0)), vector(1.0, 1.0, 0.0));
    assert_eq!(hit.out_angle(vector(0.0, 1.0, 0.0)), vector(0.0, -1.0, 0.0));
    assert_eq!(hit.out_angle(vector(0.5, 0.0, -2.0)), vector(0.5, 0.0, -2.0));
    let slanted = Hit { position: vector(0.0, 0.0, 0.0), normal: vector(0.5, 0.5, 0.0), object: 0 };
    assert_eq!(slanted.out_angle(vector(1.0, 0.0, 0.0)), vector(0.5, -0.5, 0.0));
}

#[test]
fn ray_through_the_center_hits_at_distance_minus_radius() {
    let ball = sphere(0.0, 0.0, 0.0, 3.0, Color::red());
    let hit = ball
        .intersect(&ray(vector(-10.0, 0.0, 0.0), vector(1.0, 0.0, 0.0)), 4)
        .expect("the ray goes through the centre");
    assert_eq!(hit.position, vector(-3.0, 0.0, 0.0));
    assert_eq!(hit.normal, vector(1.0, 0.0, 0.0));
    assert_eq!(hit.object, 4);
    assert_eq!((hit.position - vector(-10.0, 0.0, 0.0)).length(), scalar(7.0));
}

#[test]
fn ray_through_the_center_along_other_axes() {
    let ball = sphere(1.0, 2.0, 3.0, 2.0, Color::red());
    let down = ball
        .intersect(&ray(vector(1.0, 12.0, 3.0), vector(0.0, -1.0, 0.0)), 0)
        .expect("the ray goes through the centre");
    assert_eq!(down.position, vector(1.0, 4.0, 3.0));
    assert_eq!(down.normal, vector(0.0, -1.0, 0.0));
    let forward = ball
        .intersect(&ray(vector(1.0, 2.0, -5.0), vector(0.0, 0.0, 1.0)), 0)
        .expect("the ray goes through the centre");
    assert_eq!(forward.position, vector(1.0, 2.0, 1.0));
    assert_eq!(forward.normal, vector(0.0, 0.0, 1.0));
}

#[test]
fn ray_off_the_axis_hits_the_near_side() {
    let ball = sphere(10.0, 0.0, 0.0, 5.0, Color::red());
    let hit = ball
        .intersect(&ray(vector(0.0, 3.0, 0.0), vector(1.0, 0.0, 0.0)), 0)
        .expect("the ray passes three from the centre of a ball of radius five");
    assert_eq!(hit.position, vector(6.0, 3.0, 0.0));
    assert_eq!(hit.normal.x.raw, 52428);
    assert_eq!(hit.normal.y.raw, -39321);
    assert_eq!(hit.normal.z.raw, 0);
}

#[test]
fn ray_that_passes_by_misses() {
    let ball = sphere(10.0, 0.0, 0.0, 3.0, Color::red());
    assert_eq!(ball.intersect(&ray(vector(0.0, 3.5, 0.0), vector(1.0, 0.0, 0.0)), 0), None);
    assert_eq!(ball.intersect(&ray(vector(0.0, 0.0, 0.0), vector(0.0, 1.0, 0.0)), 0), None);
}

#[test]
fn ray_that_grazes_hits_once() {
    let ball = sphere(10.0, 0.0, 0.0, 3.0, Color::red());
    let hit = ball
        .intersect(&ray(vector(0.0, 3.0, 0.0), vector(1.0, 0.0, 0.0)), 0)
        .expect("the ray touches the ball");
    assert_eq!(hit.position, vector(10.0, 3.0, 0.0));
    assert_eq!(hit.normal, vector(0.0, -1.0, 0.0));
}

#[test]
fn sphere_behind_the_start_is_still_hit() {
    let ball = sphere(-5.0, 0.0, 0.0, 1.0, Color::red());
    let hit = ball
        .intersect(&ray(vector(0.0, 0.0, 0.0), vector(1.0, 0.0, 0.0)), 0)
        .expect("the line of the ray crosses the ball");
    assert_eq!(hit.position, vector(-6.0, 0.0, 0.0));
    assert_eq!(hit.normal, vector(1.0, 0.0, 0.0));
}

#[test]
fn point_sphere_leaves_no_normal_and_no_hit() {
    let point = sphere(5.0, 0.0, 0.0, 0.0, Color::red());
    assert_eq!(point.intersect(&ray(vector(0.0, 0.0, 0.0), vector(1.0, 0.0, 0.0)), 0), None);
}

#[test]
fn sphere_reports_its_color() {
    assert_eq!(sphere(0.0, 0.0, 0.0, 1.0, Color::green()).color(), Color::green());
}

#[test]
fn new_scene_is_empty() {
    let scene: Scene<Sphere> = Scene::new(Color::blue());
    assert_eq!(scene.objects.len(), 0);
    assert_eq!(scene.ambient_lights.len(), 0);
    assert_eq!(scene.directional_lights.len(), 0);
    assert_eq!(scene.background_color, Color::blue());
}

#[test]
fn add_appends_objects_in_order() {
    let mut scene = Scene::new(Color::black());
    scene.ambient_lights.push(Color::white());
    scene.add(sphere(1.0, 0.0, 0.0, 1.0, Color::red()));
    scene.add(sphere(2.0, 0.0, 0.0, 1.0, Color::green()));
    assert_eq!(scene.objects.len(), 2);
    assert_eq!(scene.objects[0].color, Color::red());
    assert_eq!(scene.objects[1].color, Color::green());
    assert_eq!(scene.objects[1].center, vector(2.0, 0.0, 0.0));
    assert_eq!(scene.ambient_lights.len(), 1);
    assert_eq!(scene.background_color, Color::black());
}

#[test]
fn nearest_of_two_spheres_is_hit() {
    let mut scene = Scene::new(Color::black());
    scene.add(sphere(20.0, 0.0, 0.0, 3.0, Color::red()));
    scene.add(sphere(10.0, 0.0, 0.0, 3.0, Color::green()));
    let along = ray(vector(0.0, 0.0, 0.0), vector(1.0, 0.0, 0.0));
    let hit = scene.calculate_hit(&along, None).expect("both spheres are on the ray");
    assert_eq!(hit.object, 1);
    assert_eq!(hit.position, vector(7.0, 0.0, 0.0));
    assert_eq!(hit.normal, vector(1.0, 0.0, 0.0));
}

#[test]
fn excluding_the_nearer_sphere_gives_the_farther() {
    let mut scene = Scene::new(Color::black());
    scene.add(sphere(10.0, 0.0, 0.0, 3.0, Color::red()));
    scene.add(sphere(20.0, 0.0, 0.0, 3.0, Color::green()));
    let along = ray(vector(0.0, 0.0, 0.0), vector(1.0, 0.0, 0.0));
    let hit = scene.calculate_hit(&along, Some(0)).expect("the farther sphere is on the ray");
    assert_eq!(hit.object, 1);
    assert_eq!(hit.position, vector(17.0, 0.0, 0.0));
    let aside = ray(vector(0.0, 0.0, 0.0), vector(0.0, 0.0, 1.0));
    assert_eq!(scene.calculate_hit(&aside, None), None);
    assert_eq!(scene.calculate_hit(&aside, Some(0)), None);
}

#[test]
fn ray_that_meets_only_the_farther_sphere() {
    let mut scene = Scene::new(Color::black());
    scene.add(sphere(10.0, 0.0, 0.0, 3.0, Color::red()));
    scene.add(sphere(20.0, 8.0, 0.0, 3.0, Color::green()));
    let above = ray(vector(0.0, 8.0, 0.0), vector(1.0, 0.0, 0.0));
    let hit = scene.calculate_hit(&above, None).expect("the farther sphere is on the ray");
    assert_eq!(hit.object, 1);
    assert_eq!(hit.position, vector(17.0, 8.0, 0.0));
    assert_eq!(scene.calculate_hit(&above, Some(1)), None);
}

#[test]
fn second_query_does_not_hit_the_same_object() {
    let mut scene = Scene::new(Color::black());
    scene.add(sphere(10.0, 0.0, 0.0, 3.0, Color::red()));
    let along = ray(vector(0.0, 0.0, 0.0), vector(1.0, 0.0, 0.0));
    let first = scene.calculate_hit(&along, None).expect("the sphere is on the ray");
    assert_eq!(first.object, 0);
    assert_eq!(scene.calculate_hit(&along, Some(first.object)), None);
    let leaving = ray(first.position, first.out_angle(along.direction));
    assert_eq!(scene.calculate_hit(&leaving, Some(first.object)), None);
    let again = scene.calculate_hit(&leaving, None).expect("nothing is excluded");
    assert_eq!(again.object, 0);

    scene.add(sphere(30.0, 0.0, 0.0, 3.0, Color::green()));
    let second = scene
        .calculate_hit(&along, Some(first.object))
        .expect("the second sphere is on the ray");
    assert_eq!(second.object, 1);
    assert_eq!(second.position, vector(27.0, 0.0, 0.0));
}

#[test]
fn equal_distances_keep_the_first_object() {
    let mut scene = Scene::new(Color::black());
    scene.add(sphere(10.0, 0.0, 0.0, 3.0, Color::red()));
    scene.add(sphere(10.0, 0.0, 0.0, 3.0, Color::green()));
    scene.add(sphere(10.0, 0.0, 0.0, 3.0, Color::blue()));
    let along = ray(vector(0.0, 0.0, 0.0), vector(1.0, 0.0, 0.0));
    assert_eq!(scene.calculate_hit(&along, None).map(|hit| hit.object), Some(0));
    assert_eq!(scene.calculate_hit(&along, Some(0)).map(|hit| hit.object), Some(1));
    assert_eq!(scene.calculate_hit(&along, Some(1)).map(|hit| hit.object), Some(0));
}

#[test]
fn excluding_an_index_outside_the_scene_changes_nothing() {
    let mut scene = Scene::new(Color::black());
    scene.add(sphere(10.0, 0.0, 0.0, 3.0, Color::red()));
    let along = ray(vector(0.0, 0.0, 0.0), vector(1.0, 0.0, 0.0));
    assert_eq!(scene.calculate_hit(&along, Some(7)), scene.calculate_hit(&along, None));
}

#[test]
fn empty_scene_has_no_hits() {
    let scene: Scene<Sphere> = Scene::new(Color::black());
    let rays = [
        ray(vector(0.0, 0.0, 0.0), vector(1.0, 0.0, 0.0)),
        ray(vector(5.0, -3.0, 2.0), vector(0.0, 0.6, -0.8)),
        ray(vector(-100.0, 0.0, 0.0), vector(0.0, 0.0, 0.0)),
    ];
    for along in rays {
        assert_eq!(scene.calculate_hit(&along, None), None);
        assert_eq!(scene.calculate_hit(&along, Some(0)), None);
    }
}
