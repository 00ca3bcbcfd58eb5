use kessler::scene::Error;
use kessler::tracer::Ground;
use kessler::tracer::Primitive;
use kessler::tracer::Sphere;
use kessler::tracer::TraceScene;
use kessler::tracer::Viewable;
use kessler::tracer::get_color;
use kessler::tracer::ray_march;

const BACKGROUND: (u8, u8, u8, u8) = (173, 216, 230, 255);

#[test]
fn sphere_ahead_is_hit() {
    // a sphere of radius 2 units straight along the center pixel's ray
    let scene = vec![Primitive::Sphere(Sphere((0, 0, 10 * 1024), 2 * 1024, (10, 20, 30, 40)))];
    let c = get_color(50, 50, 100, 100, &scene, 0);
    assert_eq!(c, (10, 20, 30, 40));
}

#[test]
fn sphere_behind_is_missed() {
    let scene = vec![Primitive::Sphere(Sphere((0, 0, -10 * 1024), 2 * 1024, (10, 20, 30, 40)))];
    let c = get_color(50, 50, 100, 100, &scene, 0);
    assert_eq!(c, BACKGROUND);
}

#[test]
fn empty_primitive_set_is_rejected() {
    let r = TraceScene::new(Vec::new());
    assert_eq!(r.err().unwrap(), Error::BadPrimitives);
}

#[test]
fn out_of_range_primitive_is_rejected() {
    let too_far = Primitive::Sphere(Sphere((0, 0, i64::MAX / 2), 1024, (0, 0, 0, 0)));
    let r = TraceScene::new(vec![too_far]);
    assert_eq!(r.err().unwrap(), Error::BadPrimitives);
}

#[test]
fn trace_scene_renders_through_color_at() {
    let ts = TraceScene::new(vec![Primitive::Sphere(Sphere(
        (0, 0, 10 * 1024),
        2 * 1024,
        (10, 20, 30, 40),
    ))])
    .unwrap();
    assert_eq!(ts.color_at(50, 50, 100, 100, 0), (10, 20, 30, 40));
    assert_eq!(ts.color_at(0, 0, 100, 100, 0), BACKGROUND);
}

#[test]
fn ground_hit_below() {
    // a downward ray through a low pixel reaches the ground plane
    let scene = vec![Primitive::Ground(Ground((1, 2, 3, 4)))];
    assert_eq!(get_color(50, 99, 100, 100, &scene, 0), (1, 2, 3, 4));
}

#[test]
fn ground_missed_straight_ahead() {
    let scene = vec![Primitive::Ground(Ground((1, 2, 3, 4)))];
    assert_eq!(get_color(50, 50, 100, 100, &scene, 0), BACKGROUND);
}

#[test]
fn first_of_equal_primitives_wins() {
    // two identical spheres: the march reports the first in scene order
    let a = Primitive::Sphere(Sphere((0, 0, 10 * 1024), 2 * 1024, (1, 1, 1, 1)));
    let b = Primitive::Sphere(Sphere((0, 0, 10 * 1024), 2 * 1024, (9, 9, 9, 9)));
    let scene = vec![a, b];
    assert_eq!(get_color(50, 50, 100, 100, &scene, 0), (1, 1, 1, 1));
}

#[test]
fn ray_march_returns_hit_primitive() {
    let scene = vec![Primitive::Sphere(Sphere((0, 0, 10 * 1024), 2 * 1024, (10, 20, 30, 40)))];
    let hit = ray_march((0, 0, 0), (0, 0, 1024), &scene, 0);
    match hit {
        Some(p) => assert_eq!(p.color(), (10, 20, 30, 40)),
        None => panic!("expected a hit"),
    }
    let miss = ray_march((0, 0, 0), (0, 0, -1024), &scene, 0);
    assert!(miss.is_none());
}

#[test]
fn primitive_colors() {
    let s = Sphere((0, 0, 0), 1024, (5, 6, 7, 8));
    assert_eq!(s.color(), (5, 6, 7, 8));
    let g = Ground((9, 10, 11, 12));
    assert_eq!(g.color(), (9, 10, 11, 12));
}

#[test]
fn sphere_distance_is_signed() {
    let s = Sphere((0, 0, 0), 1024, (0, 0, 0, 0));
    // from the surface outwards the distance grows; inside it is negative
    assert_eq!(s.dist2((0, 0, 2048), 0), 2048 * 2048 - 1024 * 1024);
    assert!(s.dist2((0, 0, 0), 0) < 0);
}

#[test]
fn ground_distance_is_squared_offset() {
    let g = Ground((0, 0, 0, 0));
    assert_eq!(g.dist2((0, -25_600, 0), 0), 0);
    assert_eq!(g.dist2((0, 0, 0), 0), 25_600i64 * 25_600);
}
