use gfs::tracer::{
    background_color, canvas_to_viewport, nearest_hit, subtract, trace_ray, Color, Point3, Roots,
    Scene, Sphere, PROJECTION_PLANE_Z, VIEWPORT_SIZE,
};

const RED: Color = Color { r: 255, g: 0, b: 0 };
const BLUE: Color = Color { r: 0, g: 0, b: 255 };
const GREEN: Color = Color { r: 0, g: 255, b: 0 };
const WHITE: Color = Color { r: 255, g: 255, b: 255 };

fn p(x: i32, y: i32, z: i32) -> Point3 {
    Point3 { x, y, z }
}

/// Order key of a floating-point ray parameter: integer order agrees with
/// floating-point order.
fn key(t: f64) -> i64 {
    let b = t.to_bits() as i64;
    if b < 0 {
        b ^ i64::MAX
    } else {
        b
    }
}

/// Floating-point intersection of a ray with a sphere, as the host computes it.
fn intersect(origin: Point3, d: (f64, f64, f64), s: &Sphere) -> Roots {
    let oc = subtract(origin, s.center);
    let oc = (oc.x as f64, oc.y as f64, oc.z as f64);
    let dot = |a: (f64, f64, f64), b: (f64, f64, f64)| a.0 * b.0 + a.1 * b.1 + a.2 * b.2;
    let k1 = dot(d, d);
    let k2 = 2.0 * dot(oc, d);
    let k3 = dot(oc, oc) - (s.radius as f64) * (s.radius as f64);
    let disc = k2 * k2 - 4.0 * k1 * k3;
    if disc < 0.0 {
        return Roots::Miss;
    }
    let t1 = (-k2 + disc.sqrt()) / (2.0 * k1);
    let t2 = (-k2 - disc.sqrt()) / (2.0 * k1);
    Roots::Hit(key(t1), key(t2))
}

fn reference_scene() -> Scene {
    Scene::new(
        p(0, 0, 0),
        vec![
            Sphere::new(p(0, -1, 3), 1, RED),
            Sphere::new(p(2, 0, 4), 1, BLUE),
            Sphere::new(p(-2, 0, 4), 1, GREEN),
        ],
    )
}

fn trace_pixel(scene: &Scene, x: i32, y: i32, w: u32, h: u32) -> Color {
    let d = canvas_to_viewport((x, y), w, h);
    let dir = (
        d.x.num as f64 / d.x.den as f64,
        d.y.num as f64 / d.y.den as f64,
        d.z.num as f64 / d.z.den as f64,
    );
    let roots: Vec<Roots> = scene
        .spheres
        .iter()
        .map(|s| intersect(scene.camera_position, dir, s))
        .collect();
    trace_ray(&scene.spheres, &roots, key(1.0), key(f64::INFINITY))
}

#[test]
fn background_is_white() {
    assert_eq!(background_color(), WHITE);
}

#[test]
fn subtract_is_exact() {
    let r = subtract(p(3, -1, 0), p(1, 2, -4));
    assert_eq!((r.x, r.y, r.z), (2, -3, 4));
    let r = subtract(p(i32::MIN, i32::MAX, 0), p(i32::MAX, i32::MIN, 0));
    assert_eq!(r.x, i32::MIN as i64 - i32::MAX as i64);
    assert_eq!(r.y, i32::MAX as i64 - i32::MIN as i64);
    assert_eq!(r.z, 0);
}

#[test]
fn viewport_z_is_projection_plane() {
    for &(x, y) in &[(-300, -300), (-1, 299), (150, -20), (299, 299)] {
        let d = canvas_to_viewport((x, y), 600, 600);
        assert_eq!((d.z.num, d.z.den), (PROJECTION_PLANE_Z, 1));
        assert_eq!(canvas_to_viewport((x, y), 600, 600), d);
    }
}

#[test]
fn viewport_components_are_fractions_of_canvas() {
    let d = canvas_to_viewport((150, -100), 600, 400);
    assert_eq!((d.x.num, d.x.den), (150 * VIEWPORT_SIZE, 600));
    assert_eq!((d.y.num, d.y.den), (-100 * VIEWPORT_SIZE, 400));
}

#[test]
fn viewport_centre_looks_ahead() {
    for &(w, h) in &[(1, 1), (600, 600), (640, 480), (u32::MAX, 7)] {
        let d = canvas_to_viewport((0, 0), w, h);
        assert_eq!(d.x.num, 0);
        assert_eq!(d.y.num, 0);
        assert_eq!((d.z.num, d.z.den), (PROJECTION_PLANE_Z, 1));
    }
}

#[test]
fn nearest_hit_empty_scene() {
    assert_eq!(nearest_hit(&vec![], 1, 100), None);
}

#[test]
fn nearest_hit_all_miss() {
    assert_eq!(nearest_hit(&vec![Roots::Miss, Roots::Miss], 1, 100), None);
}

#[test]
fn nearest_hit_range_is_open() {
    assert_eq!(nearest_hit(&vec![Roots::Hit(1, 100)], 1, 100), None);
    assert_eq!(nearest_hit(&vec![Roots::Hit(1, 99)], 1, 100), Some((0, 99)));
    assert_eq!(nearest_hit(&vec![Roots::Hit(2, 100)], 1, 100), Some((0, 2)));
}

#[test]
fn nearest_hit_takes_far_root_when_near_is_clipped() {
    assert_eq!(nearest_hit(&vec![Roots::Hit(9, -3)], 1, 100), Some((0, 9)));
    assert_eq!(nearest_hit(&vec![Roots::Hit(-3, 9), Roots::Hit(12, 10)], 1, 100), Some((0, 9)));
}

#[test]
fn nearest_hit_smaller_wins() {
    let roots = vec![Roots::Hit(8, 6), Roots::Miss, Roots::Hit(4, 7)];
    assert_eq!(nearest_hit(&roots, 1, 100), Some((2, 4)));
}

#[test]
fn nearest_hit_tie_goes_to_earlier() {
    let roots = vec![Roots::Miss, Roots::Hit(9, 5), Roots::Hit(5, 6)];
    assert_eq!(nearest_hit(&roots, 1, 100), Some((1, 5)));
}

#[test]
fn trace_misses_give_background() {
    let spheres = vec![Sphere::new(p(0, 0, 5), 1, RED), Sphere::new(p(3, 0, 5), 2, BLUE)];
    let roots = vec![Roots::Miss, Roots::Miss];
    assert_eq!(trace_ray(&spheres, &roots, 1, i64::MAX), WHITE);
    let roots = vec![Roots::Hit(-5, -2), Roots::Hit(0, 1)];
    assert_eq!(trace_ray(&spheres, &roots, 1, i64::MAX), WHITE);
}

#[test]
fn trace_overlapping_spheres_nearer_wins() {
    let spheres = vec![Sphere::new(p(0, 0, 6), 2, RED), Sphere::new(p(0, 0, 4), 2, BLUE)];
    let roots = vec![Roots::Hit(8, 4), Roots::Hit(6, 2)];
    assert_eq!(trace_ray(&spheres, &roots, 1, i64::MAX), BLUE);
    let roots = vec![Roots::Hit(8, 4), Roots::Hit(6, 5)];
    assert_eq!(trace_ray(&spheres, &roots, 1, i64::MAX), RED);
}

#[test]
fn trace_tie_goes_to_earlier_sphere() {
    let spheres = vec![Sphere::new(p(0, 0, 6), 2, GREEN), Sphere::new(p(0, 0, 6), 2, BLUE)];
    let roots = vec![Roots::Hit(8, 4), Roots::Hit(8, 4)];
    assert_eq!(trace_ray(&spheres, &roots, 1, i64::MAX), GREEN);
}

#[test]
fn reference_scene_centre_is_red() {
    let scene = reference_scene();
    assert_eq!(trace_pixel(&scene, 0, 0, 600, 600), RED);
}

#[test]
fn reference_scene_side_spheres() {
    let scene = reference_scene();
    assert_eq!(trace_pixel(&scene, 250, 0, 600, 600), BLUE);
    assert_eq!(trace_pixel(&scene, -250, 0, 600, 600), GREEN);
}

#[test]
fn reference_scene_far_pixel_is_background() {
    let scene = reference_scene();
    assert_eq!(trace_pixel(&scene, -299, 299, 600, 600), WHITE);
    assert_eq!(trace_pixel(&scene, 0, 299, 600, 600), WHITE);
}

#[test]
fn rendering_twice_is_identical() {
    let scene = reference_scene();
    let render = |s: &Scene| {
        let mut out = Vec::new();
        for x in (-300..300).step_by(7) {
            for y in (-300..300).step_by(7) {
                out.push(trace_pixel(s, x, y, 600, 600));
            }
        }
        out
    };
    assert_eq!(render(&scene), render(&scene));
}
