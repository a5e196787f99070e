use vstd::prelude::*;

verus! {

/// A flat colour, one byte per channel.
#[derive(Clone, Copy, Debug, PartialEq, Eq, Structural)]
pub struct Color {
    pub r: u8,
    pub g: u8,
    pub b: u8,
}

pub open spec fn background() -> Color {
    Color { r: 255, g: 255, b: 255 }
}

/// The colour shown where a ray meets no sphere.
pub fn background_color() -> (c: Color)
    ensures
        c == background(),
{
    Color { r: 255, g: 255, b: 255 }
}

/// Width and height of the viewport, in world units.
pub const VIEWPORT_SIZE: i64 = 1;

/// Distance from the camera to the viewport along the viewing axis.
pub const PROJECTION_PLANE_Z: i64 = 1;

/// A point of world space with integer coordinates.
#[derive(Clone, Copy, Debug, PartialEq, Eq, Structural)]
pub struct Point3 {
    pub x: i32,
    pub y: i32,
    pub z: i32,
}

/// The difference of two points, exact.
#[derive(Clone, Copy, Debug, PartialEq, Eq, Structural)]
pub struct Offset3 {
    pub x: i64,
    pub y: i64,
    pub z: i64,
}

/// Component-wise `a - b`.
pub fn subtract(a: Point3, b: Point3) -> (r: Offset3)
    ensures
        r.x == a.x - b.x,
        r.y == a.y - b.y,
        r.z == a.z - b.z,
{
    Offset3 { x: a.x as i64 - b.x as i64, y: a.y as i64 - b.y as i64, z: a.z as i64 - b.z as i64 }
}

/// A sphere with a flat colour.
#[derive(Clone, Copy, Debug, PartialEq, Eq, Structural)]
pub struct Sphere {
    pub center: Point3,
    pub radius: u32,
    pub color: Color,
}

impl Sphere {
    pub fn new(center: Point3, radius: u32, color: Color) -> (s: Sphere)
        ensures
            s.center == center,
            s.radius == radius,
            s.color == color,
    {
        Sphere { center, radius, color }
    }
}

/// The spheres of a scene, in scan order, and the camera they are seen from.
pub struct Scene {
    pub camera_position: Point3,
    pub spheres: Vec<Sphere>,
}

impl Scene {
    pub fn new(camera_position: Point3, spheres: Vec<Sphere>) -> (s: Scene)
        ensures
            s.camera_position == camera_position,
            s.spheres@ == spheres@,
    {
        Scene { camera_position, spheres }
    }
}

/// An exact fraction `num / den`.
#[derive(Clone, Copy, Debug, PartialEq, Eq, Structural)]
pub struct Ratio {
    pub num: i64,
    pub den: i64,
}

/// A ray direction through the viewport, each component an exact fraction.
/// It is not normalised.
#[derive(Clone, Copy, Debug, PartialEq, Eq, Structural)]
pub struct Direction {
    pub x: Ratio,
    pub y: Ratio,
    pub z: Ratio,
}

/// `a` and `b` stand for the same number.
pub open spec fn same_value(a: Ratio, b: Ratio) -> bool {
    a.num * b.den == b.num * a.den
}

/// The direction from the camera through the viewport point of canvas pixel
/// `p` (origin at the canvas centre, `+y` up) on a `width` by `height` canvas:
/// `(p.0 * VIEWPORT_SIZE / width, p.1 * VIEWPORT_SIZE / height, PROJECTION_PLANE_Z)`.
pub fn canvas_to_viewport(p: (i32, i32), width: u32, height: u32) -> (d: Direction)
    requires
        width > 0,
        height > 0,
    ensures
        d.x.num == p.0 * VIEWPORT_SIZE && d.x.den == width,
        d.y.num == p.1 * VIEWPORT_SIZE && d.y.den == height,
        d.z.num == PROJECTION_PLANE_Z && d.z.den == 1,
{
    Direction {
        x: Ratio { num: p.0 as i64 * VIEWPORT_SIZE, den: width as i64 },
        y: Ratio { num: p.1 as i64 * VIEWPORT_SIZE, den: height as i64 },
        z: Ratio { num: PROJECTION_PLANE_Z, den: 1 },
    }
}

/// The pixel at the canvas centre looks straight ahead: its direction is
/// `(0, 0, PROJECTION_PLANE_Z)`, whatever the canvas dimensions.
pub proof fn lemma_centre_looks_ahead(width: u32, height: u32, d: Direction)
    requires
        width > 0,
        height > 0,
        d.x.num == 0 * VIEWPORT_SIZE && d.x.den == width,
        d.y.num == 0 * VIEWPORT_SIZE && d.y.den == height,
        d.z.num == PROJECTION_PLANE_Z && d.z.den == 1,
    ensures
        same_value(d.x, Ratio { num: 0, den: 1 }),
        same_value(d.y, Ratio { num: 0, den: 1 }),
        same_value(d.z, Ratio { num: PROJECTION_PLANE_Z, den: 1 }),
{
}

/// The two parameters at which a ray meets a sphere's surface, or none.
///
/// A parameter is given by an order key: an integer whose order is the
/// order of the parameters along the ray (for a floating-point parameter,
/// its bits rearranged so that signed integer comparison agrees with
/// floating-point comparison).
#[derive(Clone, Copy, Debug, PartialEq, Eq, Structural)]
pub enum Roots {
    Miss,
    Hit(i64, i64),
}

/// `r` offers the parameter `t`, and `t` lies strictly inside `(t_min, t_max)`.
pub open spec fn offers(r: Roots, t: i64, t_min: i64, t_max: i64) -> bool {
    match r {
        Roots::Miss => false,
        Roots::Hit(a, b) => (t == a || t == b) && t_min < t && t < t_max,
    }
}

/// No sphere among the first `n` offers a parameter in range.
pub open spec fn misses_all(roots: Seq<Roots>, n: int, t_min: i64, t_max: i64) -> bool {
    forall|j: int, u: i64| 0 <= j < n ==> !#[trigger] offers(roots[j], u, t_min, t_max)
}

/// Among the first `n` spheres, sphere `i` offers `t`, no sphere offers a
/// smaller parameter in range, and no earlier sphere offers `t` itself.
pub open spec fn nearest_in(
    roots: Seq<Roots>,
    n: int,
    t_min: i64,
    t_max: i64,
    i: int,
    t: i64,
) -> bool {
    &&& 0 <= i < n
    &&& offers(roots[i], t, t_min, t_max)
    &&& forall|j: int, u: i64|
        0 <= j < n && #[trigger] offers(roots[j], u, t_min, t_max) ==> t <= u
    &&& forall|j: int| 0 <= j < i ==> !#[trigger] offers(roots[j], t, t_min, t_max)
}

/// Keeps `t` from sphere `i` as the new closest hit when it lies in range and
/// is strictly nearer than the hit kept so far.
fn consider(best: Option<(usize, i64)>, i: usize, t: i64, t_min: i64, t_max: i64) -> (r: Option<(usize, i64)>)
    ensures
        r == (if t_min < t && t < t_max && (match best { None => true, Some((_, c)) => t < c }) {
            Some((i, t))
        } else {
            best
        }),
{
    if t_min < t && t < t_max {
        match best {
            None => Some((i, t)),
            Some((k, c)) => if t < c { Some((i, t)) } else { Some((k, c)) },
        }
    } else {
        best
    }
}

/// Finds the sphere whose parameter in `(t_min, t_max)` is the smallest, and
/// that parameter; on a tie the sphere earlier in the list wins.
pub fn nearest_hit(roots: &Vec<Roots>, t_min: i64, t_max: i64) -> (r: Option<(usize, i64)>)
    ensures
        r is None <==> misses_all(roots@, roots@.len() as int, t_min, t_max),
        r matches Some((i, t)) ==> nearest_in(roots@, roots@.len() as int, t_min, t_max, i as int, t),
{
    let mut best: Option<(usize, i64)> = None;
    let mut k: usize = 0;
    while k < roots.len()
        invariant
            k <= roots@.len(),
            best is None ==> misses_all(roots@, k as int, t_min, t_max),
            best matches Some((i, t)) ==> nearest_in(roots@, k as int, t_min, t_max, i as int, t),
        decreases roots@.len() - k,
    {
        let ghost before = best;
        match roots[k] {
            Roots::Miss => {},
            Roots::Hit(a, b) => {
                best = consider(best, k, a, t_min, t_max);
                best = consider(best, k, b, t_min, t_max);
            },
        }
        proof {
            assert forall|j: int, u: i64|
                0 <= j < k + 1 && #[trigger] offers(roots@[j], u, t_min, t_max) implies
                    (best matches Some((i, t)) && t <= u) by {
                if j < k {
                    assert(before matches Some((_, _)));
                }
            }
        }
        k = k + 1;
    }
    best
}

/// There is at most one nearest hit: the sphere and the parameter are fixed
/// by the parameters on offer.
pub proof fn lemma_nearest_unique(
    roots: Seq<Roots>,
    n: int,
    t_min: i64,
    t_max: i64,
    i1: int,
    t1: i64,
    i2: int,
    t2: i64,
)
    requires
        nearest_in(roots, n, t_min, t_max, i1, t1),
        nearest_in(roots, n, t_min, t_max, i2, t2),
    ensures
        i1 == i2,
        t1 == t2,
{
    assert(t1 <= t2 && t2 <= t1) by {
        assert(offers(roots[i2], t2, t_min, t_max));
        assert(offers(roots[i1], t1, t_min, t_max));
    }
    if i1 < i2 {
        assert(offers(roots[i1], t2, t_min, t_max));
    } else if i2 < i1 {
        assert(offers(roots[i2], t1, t_min, t_max));
    }
}

/// `c` is the colour seen along a ray: the background where no sphere offers
/// a parameter in `(t_min, t_max)`, else the colour of the nearest hit's
/// sphere.
pub open spec fn traced(spheres: Seq<Sphere>, roots: Seq<Roots>, t_min: i64, t_max: i64, c: Color) -> bool {
    &&& misses_all(roots, roots.len() as int, t_min, t_max) ==> c == background()
    &&& !misses_all(roots, roots.len() as int, t_min, t_max) ==> exists|i: int, t: i64|
        #[trigger] nearest_in(roots, roots.len() as int, t_min, t_max, i, t) && c == spheres[i].color
}

/// The colour seen along a ray, given for each sphere of `spheres` the
/// parameters at which the ray meets it (`roots[i]` for `spheres[i]`).
pub fn trace_ray(spheres: &Vec<Sphere>, roots: &Vec<Roots>, t_min: i64, t_max: i64) -> (c: Color)
    requires
        roots@.len() == spheres@.len(),
    ensures
        traced(spheres@, roots@, t_min, t_max, c),
        (forall|j: int| 0 <= j < roots@.len() ==> #[trigger] roots@[j] == Roots::Miss) ==> c == background(),
{
    proof {
        if forall|j: int| 0 <= j < roots@.len() ==> #[trigger] roots@[j] == Roots::Miss {
            assert forall|j: int, u: i64| 0 <= j < roots@.len() implies
                !#[trigger] offers(roots@[j], u, t_min, t_max) by {
                assert(roots@[j] == Roots::Miss);
            }
        }
    }
    match nearest_hit(roots, t_min, t_max) {
        None => background_color(),
        Some((i, t)) => {
            assert(nearest_in(roots@, roots@.len() as int, t_min, t_max, i as int, t));
            spheres[i].color
        },
    }
}

/// Tracing is a function of the scene and the ray: two colours that both
/// meet the contract of `trace_ray` on the same inputs are the same colour.
pub proof fn lemma_trace_deterministic(
    spheres: Seq<Sphere>,
    roots: Seq<Roots>,
    t_min: i64,
    t_max: i64,
    c1: Color,
    c2: Color,
)
    requires
        traced(spheres, roots, t_min, t_max, c1),
        traced(spheres, roots, t_min, t_max, c2),
    ensures
        c1 == c2,
{
    if !misses_all(roots, roots.len() as int, t_min, t_max) {
        let (i1, t1) = choose|i: int, t: i64|
            #[trigger] nearest_in(roots, roots.len() as int, t_min, t_max, i, t) && c1 == spheres[i].color;
        let (i2, t2) = choose|i: int, t: i64|
            #[trigger] nearest_in(roots, roots.len() as int, t_min, t_max, i, t) && c2 == spheres[i].color;
        lemma_nearest_unique(roots, roots.len() as int, t_min, t_max, i1, t1, i2, t2);
    }
}

/// Of overlapping spheres along a ray, the one offering the smallest
/// parameter in `(t_min, t_max)` gives the colour; where several offer that
/// same smallest parameter, the one earliest in scan order does.
pub proof fn lemma_nearest_sphere_wins(
    spheres: Seq<Sphere>,
    roots: Seq<Roots>,
    t_min: i64,
    t_max: i64,
    c: Color,
    i: int,
    t: i64,
)
    requires
        roots.len() == spheres.len(),
        traced(spheres, roots, t_min, t_max, c),
        0 <= i < roots.len(),
        offers(roots[i], t, t_min, t_max),
        forall|j: int, u: i64| 0 <= j < roots.len() && #[trigger] offers(roots[j], u, t_min, t_max) ==> t <= u,
        forall|j: int| 0 <= j < i ==> !#[trigger] offers(roots[j], t, t_min, t_max),
    ensures
        c == spheres[i].color,
{
    assert(nearest_in(roots, roots.len() as int, t_min, t_max, i, t));
    assert(!misses_all(roots, roots.len() as int, t_min, t_max));
    let (i2, t2) = choose|k: int, u: i64|
        #[trigger] nearest_in(roots, roots.len() as int, t_min, t_max, k, u) && c == spheres[k].color;
    lemma_nearest_unique(roots, roots.len() as int, t_min, t_max, i, t, i2, t2);
}

} // verus!
