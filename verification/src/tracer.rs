//! The sphere-tracing renderer: implicit-surface primitives and the
//! per-pixel ray march, in fixed-point integer arithmetic (`FP` sub-units
//! per scene unit).

use vstd::prelude::*;
use crate::fixed::ANGLE_MAX;
use crate::fixed::FP;
use crate::fixed::HALF_TURN;
use crate::fixed::TURN;
use crate::fixed::div_fl;
use crate::fixed::isqrt;
use crate::fixed::isqrt_spec;
use crate::fixed::sin_fp;
use crate::fixed::sin_fp_spec;
use crate::scene::Error;
use crate::scene::MAX_DIM;
use crate::scene::lemma_div_in_range;

verus! {

/// An RGBA color, one byte per channel.
pub type Color = (u8, u8, u8, u8);

/// Bound on the magnitude of a primitive's stored coordinate or radius.
pub const TR_COORD_MAX: i64 = 1_048_576;

/// Bound on the magnitude of a marching point's coordinate.
pub const TR_POS_MAX: i64 = 4_000_000;

/// Bound on the magnitude of the camera origin's coordinates.
pub const CAM_MAX: i64 = 1_048_576;

/// Bound on the magnitude of a squared pseudo-distance.
pub const DIST_MAX: i64 = 200_000_000_000_000;

/// Squared far-plane radius: rays beyond it miss.
pub const FAR2: i64 = 5_242_880_000;

/// Squared hit tolerance: half a squared scene unit.
pub const HIT2: i64 = 524_288;

/// Squared step clamp: a single march step never exceeds its square root.
pub const STEP2_MAX: i64 = 0x400_0000_0000;

/// Largest accepted primitive count.
pub const SCENE_LIMIT: usize = 100;

/// Number of march iterations before a ray gives up.
pub const MARCH_STEPS: u64 = 100;

/// The marching point stays within bounds.
pub open spec fn pt_ok(p: (i64, i64, i64)) -> bool {
    &&& -TR_POS_MAX <= p.0 <= TR_POS_MAX
    &&& -TR_POS_MAX <= p.1 <= TR_POS_MAX
    &&& -TR_POS_MAX <= p.2 <= TR_POS_MAX
}

/// What the ray march asks of a primitive: a bounded squared pseudo-distance
/// pinned to its specification, and a base color.
pub trait Viewable: Sized {
    /// The primitive's parameters are in range.
    spec fn inv(&self) -> bool;

    /// Squared pseudo-distance from `p`, under time perturbation `pert`.
    spec fn dist2_spec(&self, p: (int, int, int), pert: int) -> int;

    /// The primitive's base color.
    spec fn color_spec(&self) -> Color;

    /// Compute the squared pseudo-distance from `p`.
    fn dist2(&self, p: (i64, i64, i64), pert: i64) -> (r: i64)
        requires
            self.inv(),
            pt_ok(p),
            -FP <= pert <= FP,
        ensures
            r == self.dist2_spec((p.0 as int, p.1 as int, p.2 as int), pert as int),
            -DIST_MAX <= r <= DIST_MAX,
    ;

    /// Return the primitive's base color.
    fn color(&self) -> (c: Color)
        ensures
            c == self.color_spec(),
    ;
}

/// A sphere: center, radius, color. Its distance is perturbed vertically by
/// half the shared time offset, so it appears to bob without stored state.
#[derive(Clone, Copy, Debug)]
pub struct Sphere(pub (i64, i64, i64), pub i64, pub Color);

impl Viewable for Sphere {
    open spec fn inv(&self) -> bool {
        &&& -TR_COORD_MAX <= self.0.0 <= TR_COORD_MAX
        &&& -TR_COORD_MAX <= self.0.1 <= TR_COORD_MAX
        &&& -TR_COORD_MAX <= self.0.2 <= TR_COORD_MAX
        &&& 0 <= self.1 <= TR_COORD_MAX
    }

    open spec fn dist2_spec(&self, p: (int, int, int), pert: int) -> int {
        let dx = self.0.0 - p.0;
        let dy = self.0.1 - p.1 + pert / 2;
        let dz = self.0.2 - p.2;
        dx * dx + dy * dy + dz * dz - self.1 * self.1
    }

    open spec fn color_spec(&self) -> Color {
        self.2
    }

    fn dist2(&self, p: (i64, i64, i64), pert: i64) -> (r: i64) {
        let dx: i64 = self.0.0 - p.0;
        let dy: i64 = self.0.1 - p.1 + div_fl(pert, 2);
        let dz: i64 = self.0.2 - p.2;
        proof {
            assert(0 <= dx * dx <= 36_000_000_000_000 && 0 <= dy * dy <= 36_000_000_000_000
                && 0 <= dz * dz <= 36_000_000_000_000 && 0 <= self.1 * self.1
                <= 1_100_000_000_000) by (nonlinear_arith)
                requires
                    -6_000_000 <= dx <= 6_000_000,
                    -6_000_000 <= dy <= 6_000_000,
                    -6_000_000 <= dz <= 6_000_000,
                    0 <= self.1 <= 1_048_576,
            ;
        }
        dx * dx + dy * dy + dz * dz - self.1 * self.1
    }

    fn color(&self) -> (c: Color) {
        self.2
    }
}

/// Height of the ground plane below the camera, in `FP` sub-units.
pub const GROUND_Y: i64 = 25_600;

/// An infinite ground plane at a fixed height; its pseudo-distance is the
/// squared vertical offset.
#[derive(Clone, Copy, Debug)]
pub struct Ground(pub Color);

impl Viewable for Ground {
    open spec fn inv(&self) -> bool {
        true
    }

    open spec fn dist2_spec(&self, p: (int, int, int), pert: int) -> int {
        let dz = p.1 + GROUND_Y;
        dz * dz
    }

    open spec fn color_spec(&self) -> Color {
        self.0
    }

    fn dist2(&self, p: (i64, i64, i64), pert: i64) -> (r: i64) {
        let dz: i64 = p.1 + GROUND_Y;
        proof {
            assert(0 <= dz * dz <= 36_000_000_000_000) by (nonlinear_arith)
                requires
                    -6_000_000 <= dz <= 6_000_000,
            ;
        }
        dz * dz
    }

    fn color(&self) -> (c: Color) {
        self.0
    }
}

/// A scene primitive: a tagged variant over the implicit surfaces.
#[derive(Clone, Copy, Debug)]
pub enum Primitive {
    Sphere(Sphere),
    Ground(Ground),
}

/// The primitive's parameters are in range.
pub open spec fn prim_inv(pr: Primitive) -> bool {
    match pr {
        Primitive::Sphere(s) => s.inv(),
        Primitive::Ground(g) => g.inv(),
    }
}

/// Squared pseudo-distance of a primitive from `p`.
pub open spec fn prim_dist2_spec(pr: Primitive, p: (int, int, int), pert: int) -> int {
    match pr {
        Primitive::Sphere(s) => s.dist2_spec(p, pert),
        Primitive::Ground(g) => g.dist2_spec(p, pert),
    }
}

/// A primitive's base color.
pub open spec fn prim_color_spec(pr: Primitive) -> Color {
    match pr {
        Primitive::Sphere(s) => s.color_spec(),
        Primitive::Ground(g) => g.color_spec(),
    }
}

/// A usable primitive set: non-empty (an empty set is a configuration
/// error, rejected at construction), small enough, every primitive in
/// range.
pub open spec fn scene_wf(s: Seq<Primitive>) -> bool {
    &&& 1 <= s.len() <= SCENE_LIMIT
    &&& forall|i: int| 0 <= i < s.len() ==> prim_inv(#[trigger] s[i])
}

/// Check one primitive's bounds.
fn prim_ok(pr: &Primitive) -> (r: bool)
    ensures
        r == prim_inv(*pr),
{
    match pr {
        Primitive::Sphere(sp) => -TR_COORD_MAX <= sp.0.0 && sp.0.0 <= TR_COORD_MAX
            && -TR_COORD_MAX <= sp.0.1 && sp.0.1 <= TR_COORD_MAX && -TR_COORD_MAX <= sp.0.2
            && sp.0.2 <= TR_COORD_MAX && 0 <= sp.1 && sp.1 <= TR_COORD_MAX,
        Primitive::Ground(_) => true,
    }
}

/// A validated ray-march scene: construction fails fast on an empty or
/// oversized primitive set and on out-of-range primitives, so a held scene
/// always satisfies `scene_wf`.
pub struct TraceScene {
    pub prims: Vec<Primitive>,
}

impl TraceScene {
    /// Build a traced scene from a primitive set, rejecting an invalid one.
    pub fn new(prims: Vec<Primitive>) -> (r: Result<TraceScene, Error>)
        ensures
            match r {
                Result::Ok(ts) => scene_wf(prims@) && ts.prims@ == prims@,
                Result::Err(e) => !scene_wf(prims@) && e == Error::BadPrimitives,
            },
    {
        let n = prims.len();
        if !(1 <= n && n <= SCENE_LIMIT) {
            return Result::Err(Error::BadPrimitives);
        }
        let mut ok = true;
        let mut i: usize = 0;
        while i < prims.len()
            invariant
                i <= prims@.len(),
                ok == forall|j: int| 0 <= j < i ==> prim_inv(#[trigger] prims@[j]),
            decreases prims@.len() - i,
        {
            let p_ok = prim_ok(&prims[i]);
            ok = ok && p_ok;
            i += 1;
        }
        if !ok {
            return Result::Err(Error::BadPrimitives);
        }
        Result::Ok(TraceScene { prims })
    }

    /// Color of the pixel at `(x, y)` on a `width` by `height` canvas, ray
    /// marched against this scene.
    pub fn color_at(&self, x: usize, y: usize, width: usize, height: usize, delta: i64) -> (c:
        Color)
        requires
            scene_wf(self.prims@),
            1 <= width <= MAX_DIM,
            1 <= height <= MAX_DIM,
            x < width,
            y < height,
            -ANGLE_MAX <= delta <= ANGLE_MAX,
        ensures
            c == get_color_spec(
                x as int,
                y as int,
                width as int,
                height as int,
                self.prims@,
                delta as int,
            ),
    {
        get_color(x, y, width, height, &self.prims, delta)
    }
}

impl Viewable for Primitive {
    open spec fn inv(&self) -> bool {
        prim_inv(*self)
    }

    open spec fn dist2_spec(&self, p: (int, int, int), pert: int) -> int {
        prim_dist2_spec(*self, p, pert)
    }

    open spec fn color_spec(&self) -> Color {
        prim_color_spec(*self)
    }

    fn dist2(&self, p: (i64, i64, i64), pert: i64) -> (r: i64) {
        match self {
            Primitive::Sphere(s) => s.dist2(p, pert),
            Primitive::Ground(g) => g.dist2(p, pert),
        }
    }

    fn color(&self) -> (c: Color) {
        match self {
            Primitive::Sphere(s) => s.color(),
            Primitive::Ground(g) => g.color(),
        }
    }
}

/// The least squared distance over the first `n` primitives, with the index
/// of the first primitive achieving it, or `-1` over an empty prefix. The
/// first primitive achieving the minimum wins: a later one replaces it only
/// when strictly closer.
pub open spec fn scan_min_spec(scene: Seq<Primitive>, p: (int, int, int), pert: int, n: int) -> (
    int,
    int,
)
    decreases n,
{
    if n <= 0 {
        (i64::MAX as int, -1)
    } else {
        let prev = scan_min_spec(scene, p, pert, n - 1);
        let d = prim_dist2_spec(scene[n - 1], p, pert);
        if d < prev.0 {
            (d, n - 1)
        } else {
            prev
        }
    }
}

/// What the scan yields: a sentinel on the empty prefix, otherwise the
/// distance of the primitive at the reported index, no larger than any
/// other.
pub proof fn lemma_scan_min_props(scene: Seq<Primitive>, p: (int, int, int), pert: int, n: int)
    requires
        0 <= n <= scene.len(),
    ensures
        ({
            let r = scan_min_spec(scene, p, pert, n);
            &&& r.1 == -1 ==> r.0 == i64::MAX as int
            &&& r.1 != -1 ==> 0 <= r.1 < n && r.0 == prim_dist2_spec(scene[r.1], p, pert)
            &&& forall|j: int| 0 <= j < n ==> r.0 <= prim_dist2_spec(#[trigger] scene[j], p, pert)
        }),
    decreases n,
{
    if n > 0 {
        lemma_scan_min_props(scene, p, pert, n - 1);
    }
}

/// One march step: advance `pos` along `dir` by the square root of the
/// clamped minimum distance.
pub open spec fn step_pos(pos: (int, int, int), dir: (int, int, int), s: int) -> (int, int, int) {
    (pos.0 + (dir.0 * s) / (FP as int), pos.1 + (dir.1 * s) / (FP as int), pos.2 + (dir.2 * s) / (
    FP as int))
}

/// The sphere-tracing recursion: give up past the far plane or out of fuel,
/// hit when the least squared distance falls below the tolerance, else step
/// by its square root.
pub open spec fn march_spec(
    pos: (int, int, int),
    dir: (int, int, int),
    scene: Seq<Primitive>,
    pert: int,
    fuel: nat,
) -> Option<Primitive>
    decreases fuel,
{
    if fuel == 0 {
        Option::None
    } else if pos.0 * pos.0 + pos.1 * pos.1 + pos.2 * pos.2 >= FAR2 {
        Option::None
    } else {
        let r = scan_min_spec(scene, pos, pert, scene.len() as int);
        if r.0 < HIT2 {
            Option::Some(scene[r.1])
        } else {
            let clamped = if r.0 < STEP2_MAX {
                r.0
            } else {
                STEP2_MAX as int
            };
            march_spec(
                step_pos(pos, dir, isqrt_spec(clamped as nat) as int),
                dir,
                scene,
                pert,
                (fuel - 1) as nat,
            )
        }
    }
}

/// The full ray march: start one step ahead of the camera, perturb the
/// scene by the sine of the shared time value, and trace.
pub open spec fn ray_march_spec(
    from: (int, int, int),
    dir: (int, int, int),
    scene: Seq<Primitive>,
    delta: int,
) -> Option<Primitive> {
    march_spec(
        (from.0 + dir.0, from.1 + dir.1, from.2 + dir.2),
        dir,
        scene,
        sin_fp_spec(delta),
        MARCH_STEPS as nat,
    )
}

/// Cast a ray from `from` along `dir` (components in `FP` sub-units, at
/// most one unit long) and return the first primitive hit, if any.
pub fn ray_march(
    from: (i64, i64, i64),
    dir: (i64, i64, i64),
    scene: &Vec<Primitive>,
    delta: i64,
) -> (r: Option<Primitive>)
    requires
        -CAM_MAX <= from.0 <= CAM_MAX,
        -CAM_MAX <= from.1 <= CAM_MAX,
        -CAM_MAX <= from.2 <= CAM_MAX,
        -FP <= dir.0 <= FP,
        -FP <= dir.1 <= FP,
        -FP <= dir.2 <= FP,
        scene_wf(scene@),
        -ANGLE_MAX <= delta <= ANGLE_MAX,
    ensures
        r == ray_march_spec(
            (from.0 as int, from.1 as int, from.2 as int),
            (dir.0 as int, dir.1 as int, dir.2 as int),
            scene@,
            delta as int,
        ),
{
    let pert = sin_fp(delta);
    let mut x: i64 = from.0 + dir.0;
    let mut y: i64 = from.1 + dir.1;
    let mut z: i64 = from.2 + dir.2;
    let ghost target = ray_march_spec(
        (from.0 as int, from.1 as int, from.2 as int),
        (dir.0 as int, dir.1 as int, dir.2 as int),
        scene@,
        delta as int,
    );
    let mut fuel: u64 = MARCH_STEPS;
    while fuel > 0
        invariant
            fuel <= MARCH_STEPS,
            pt_ok((x, y, z)),
            -FP <= dir.0 <= FP,
            -FP <= dir.1 <= FP,
            -FP <= dir.2 <= FP,
            -FP <= pert <= FP,
            scene_wf(scene@),
            target == ray_march_spec(
                (from.0 as int, from.1 as int, from.2 as int),
                (dir.0 as int, dir.1 as int, dir.2 as int),
                scene@,
                delta as int,
            ),
            march_spec(
                (x as int, y as int, z as int),
                (dir.0 as int, dir.1 as int, dir.2 as int),
                scene@,
                pert as int,
                fuel as nat,
            ) == target,
        decreases fuel,
    {
        proof {
            assert(0 <= x * x <= 16_000_000_000_000 && 0 <= y * y <= 16_000_000_000_000 && 0 <= z
                * z <= 16_000_000_000_000) by (nonlinear_arith)
                requires
                    -4_000_000 <= x <= 4_000_000,
                    -4_000_000 <= y <= 4_000_000,
                    -4_000_000 <= z <= 4_000_000,
            ;
        }
        if x * x + y * y + z * z >= FAR2 {
            return Option::None;
        }
        let m = scan_min(scene, (x, y, z), pert);
        proof {
            lemma_scan_min_props(
                scene@,
                (x as int, y as int, z as int),
                pert as int,
                scene@.len() as int,
            );
        }
        if m.0 < HIT2 {
            match m.1 {
                Option::Some(ix) => {
                    return Option::Some(scene[ix]);
                },
                Option::None => {
                    proof {
                        assert(false);
                    }
                    return Option::None;
                },
            }
        }
        let clamped: i64 = if m.0 < STEP2_MAX {
            m.0
        } else {
            STEP2_MAX
        };
        let s: u64 = isqrt(clamped as u64);
        proof {
            assert(s <= 2_097_152) by (nonlinear_arith)
                requires
                    (s as int) * (s as int) <= 0x400_0000_0000,
            ;
        }
        let si: i64 = s as i64;
        proof {
            assert((-2_097_152) * FP <= (si as int) * FP && {
                &&& dir.0 * (si as int) <= 2_097_152 * FP
                &&& (-2_097_152) * FP <= dir.0 * (si as int)
                &&& dir.1 * (si as int) <= 2_097_152 * FP
                &&& (-2_097_152) * FP <= dir.1 * (si as int)
                &&& dir.2 * (si as int) <= 2_097_152 * FP
                &&& (-2_097_152) * FP <= dir.2 * (si as int)
            }) by (nonlinear_arith)
                requires
                    -FP <= dir.0 <= FP,
                    -FP <= dir.1 <= FP,
                    -FP <= dir.2 <= FP,
                    0 <= si <= 2_097_152,
                    0 < FP,
            ;
            lemma_div_in_range(dir.0 as int * (si as int), 2_097_152, FP as int);
            lemma_div_in_range(dir.1 as int * (si as int), 2_097_152, FP as int);
            lemma_div_in_range(dir.2 as int * (si as int), 2_097_152, FP as int);
            assert(-72_500 <= x <= 72_500 && -72_500 <= y <= 72_500 && -72_500 <= z <= 72_500)
                by (nonlinear_arith)
                requires
                    x * x + y * y + z * z < 5_242_880_000,
                    0 <= x * x,
                    0 <= y * y,
                    0 <= z * z,
            ;
        }
        x = x + div_fl(dir.0 * si, FP);
        y = y + div_fl(dir.1 * si, FP);
        z = z + div_fl(dir.2 * si, FP);
        fuel = fuel - 1;
    }
    Option::None
}

/// Scan the scene for the least squared distance from `p`, keeping the
/// first primitive achieving it.
fn scan_min(scene: &Vec<Primitive>, p: (i64, i64, i64), pert: i64) -> (r: (i64, Option<usize>))
    requires
        scene_wf(scene@),
        pt_ok(p),
        -FP <= pert <= FP,
    ensures
        ({
            let sm = scan_min_spec(
                scene@,
                (p.0 as int, p.1 as int, p.2 as int),
                pert as int,
                scene@.len() as int,
            );
            &&& r.0 == sm.0
            &&& r.1 == if sm.1 < 0 {
                Option::<usize>::None
            } else {
                Option::<usize>::Some(sm.1 as usize)
            }
        }),
{
    let mut best: i64 = i64::MAX;
    let mut bi: Option<usize> = Option::None;
    let mut o: usize = 0;
    while o < scene.len()
        invariant
            o <= scene@.len(),
            scene_wf(scene@),
            pt_ok(p),
            -FP <= pert <= FP,
            ({
                let sm = scan_min_spec(
                    scene@,
                    (p.0 as int, p.1 as int, p.2 as int),
                    pert as int,
                    o as int,
                );
                &&& best == sm.0
                &&& bi == if sm.1 < 0 {
                    Option::<usize>::None
                } else {
                    Option::<usize>::Some(sm.1 as usize)
                }
            }),
        decreases scene@.len() - o,
    {
        let d = scene[o].dist2(p, pert);
        if d < best {
            best = d;
            bi = Option::Some(o);
        }
        o += 1;
    }
    (best, bi)
}

/// The background color returned when a ray misses everything.
pub open spec fn background_spec() -> Color {
    (173u8, 216u8, 230u8, 255u8)
}

/// What `get_color` returns: the normalized pixel ray is marched against
/// the scene; a hit yields the primitive's color, a miss the background.
pub open spec fn get_color_spec(
    x: int,
    y: int,
    w: int,
    h: int,
    scene: Seq<Primitive>,
    delta: int,
) -> Color {
    let md = if w < h {
        w
    } else {
        h
    };
    let xr = ((2 * x - w) * FP) / md;
    let yr = ((h - 2 * y) * FP) / md;
    let mag = isqrt_spec((xr * xr + yr * yr + FP * FP) as nat) as int;
    let dir = ((xr * FP) / mag, (yr * FP) / mag, (FP * FP) / mag);
    match ray_march_spec((0, 0, 0), dir, scene, delta) {
        Option::None => background_spec(),
        Option::Some(pr) => prim_color_spec(pr),
    }
}

/// The sine specification vanishes at angle zero.
proof fn lemma_sin_spec_zero()
    ensures
        sin_fp_spec(0) == 0,
{
    vstd::arithmetic::div_mod::lemma_fundamental_div_mod_converse_mod(0, TURN as int, 0, 0);
    let den = 5 * (HALF_TURN as int) * (HALF_TURN as int) - 4 * (0 * (HALF_TURN - 0));
    assert(16 * (0 * (HALF_TURN - 0)) * FP == 0 && den > 0 && den * 0 == 0)
        by (nonlinear_arith)
        requires
            den == 5 * (HALF_TURN as int) * (HALF_TURN as int) - 4 * (0 * (HALF_TURN - 0)),
            HALF_TURN == 3142,
            FP == 1024,
    ;
    vstd::arithmetic::div_mod::lemma_div_multiples_vanish(0, den);
}

/// One induction step of the axis-sphere march: while the ray has not hit,
/// every step is at least `isqrt(HIT2)` sub-units, so the remaining axis
/// distance shrinks by at least that much per unit of fuel.
proof fn lemma_axis_march_converges(
    scene: Seq<Primitive>,
    cz: i64,
    rz: i64,
    col: Color,
    z: int,
    fuel: nat,
)
    requires
        scene.len() == 1,
        scene[0] == Primitive::Sphere(Sphere((0i64, 0i64, cz), rz, col)),
        FP <= rz,
        0 < z < cz,
        cz * cz < FAR2,
        cz - z <= 724 * fuel,
    ensures
        march_spec((0, 0, z), (0, 0, FP as int), scene, 0, fuel) == Option::Some(scene[0]),
    decreases fuel,
{
    let u = cz - z;
    assert(fuel > 0);
    assert(z * z < FAR2 && (cz - z) * (cz - z) <= cz * cz && 0 <= rz * rz)
        by (nonlinear_arith)
        requires
            0 < z < cz,
            cz * cz < FAR2,
    ;
    let sp = Sphere((0i64, 0i64, cz), rz, col);
    let d = prim_dist2_spec(scene[0], (0, 0, z), 0);
    assert(d == sp.dist2_spec((0, 0, z), 0));
    let dx = sp.0.0 - 0;
    let dy = sp.0.1 - 0 + 0int / 2;
    let dz = sp.0.2 - z;
    assert(sp.dist2_spec((0, 0, z), 0) == dx * dx + dy * dy + dz * dz - sp.1 * sp.1);
    assert(dx == 0 && dy == 0 && dz == cz - z && sp.1 == rz);
    assert(dx * dx == 0 && dy * dy == 0 && dz * dz == (cz - z) * (cz - z) && sp.1 * sp.1 == rz
        * rz) by (nonlinear_arith)
        requires
            dx == 0,
            dy == 0,
            dz == cz - z,
            sp.1 == rz,
    ;
    assert(d == (cz - z) * (cz - z) - rz * rz);
    let r = scan_min_spec(scene, (0, 0, z), 0, 1);
    assert(scan_min_spec(scene, (0, 0, z), 0, 0) == (i64::MAX as int, -1int));
    assert(r == (d, 0int));
    if d < HIT2 {
        assert(march_spec((0, 0, z), (0, 0, FP as int), scene, 0, fuel) == Option::Some(
            scene[0]));
    } else {
        assert(d < STEP2_MAX);
        let st = isqrt_spec(d as nat) as int;
        crate::fixed::lemma_isqrt_spec_bounds(d as nat);
        assert(724 <= st && st < cz - z) by (nonlinear_arith)
            requires
                st * st <= d,
                d < (st + 1) * (st + 1),
                HIT2 <= d,
                HIT2 == 524_288,
                d == (cz - z) * (cz - z) - rz * rz,
                FP <= rz,
                FP == 1024,
                0 <= st,
                0 < cz - z,
        ;
        let den2 = FP as int;
        vstd::arithmetic::div_mod::lemma_div_multiples_vanish(st, den2);
        vstd::arithmetic::div_mod::lemma_div_multiples_vanish(0, den2);
        assert(den2 * 0 == 0 && 0 * st == 0);
        assert(step_pos((0, 0, z), (0, 0, FP as int), st) == (0int, 0int, z + st));
        lemma_axis_march_converges(scene, cz, rz, col, z + st, (fuel - 1) as nat);
    }
}

/// A single sphere centered on the ray's axis, with radius at least one
/// unit and center strictly beyond the first step but inside the far
/// plane, is hit within the iteration cap, and the march reports it.
pub proof fn lemma_march_hits_axis_sphere(scene: Seq<Primitive>, cz: i64, rz: i64, col: Color)
    requires
        scene.len() == 1,
        scene[0] == Primitive::Sphere(Sphere((0i64, 0i64, cz), rz, col)),
        FP <= rz,
        FP < cz,
        cz * cz < FAR2,
    ensures
        ray_march_spec((0, 0, 0), (0, 0, FP as int), scene, 0) == Option::Some(scene[0]),
{
    lemma_sin_spec_zero();
    assert(cz <= 72_407) by (nonlinear_arith)
        requires
            0 < cz,
            cz * cz < 5_242_880_000,
    ;
    lemma_axis_march_converges(scene, cz, rz, col, FP as int, MARCH_STEPS as nat);
}

/// A hit always reports a primitive of the scene, never an invented one.
pub proof fn lemma_march_hit_is_in_scene(
    pos: (int, int, int),
    dir: (int, int, int),
    scene: Seq<Primitive>,
    pert: int,
    fuel: nat,
)
    ensures
        march_spec(pos, dir, scene, pert, fuel) matches Option::Some(pr) ==> scene.contains(pr),
    decreases fuel,
{
    if fuel > 0 {
        if pos.0 * pos.0 + pos.1 * pos.1 + pos.2 * pos.2 < FAR2 {
            let r = scan_min_spec(scene, pos, pert, scene.len() as int);
            lemma_scan_min_props(scene, pos, pert, scene.len() as int);
            if r.0 < HIT2 {
            } else {
                let clamped = if r.0 < STEP2_MAX {
                    r.0
                } else {
                    STEP2_MAX as int
                };
                lemma_march_hit_is_in_scene(
                    step_pos(pos, dir, isqrt_spec(clamped as nat) as int),
                    dir,
                    scene,
                    pert,
                    (fuel - 1) as nat,
                );
            }
        }
    }
}

/// A ray that starts within the far plane, already within the hit tolerance
/// of some primitive, hits at once.
pub proof fn lemma_march_hits_when_close(
    pos: (int, int, int),
    dir: (int, int, int),
    scene: Seq<Primitive>,
    pert: int,
    fuel: nat,
    i: int,
)
    requires
        fuel > 0,
        pos.0 * pos.0 + pos.1 * pos.1 + pos.2 * pos.2 < FAR2,
        0 <= i < scene.len(),
        prim_dist2_spec(scene[i], pos, pert) < HIT2,
    ensures
        march_spec(pos, dir, scene, pert, fuel) is Some,
{
    lemma_scan_min_props(scene, pos, pert, scene.len() as int);
}

/// Every pixel shows either the background color or the base color of a
/// primitive of the scene.
pub proof fn lemma_get_color_from_scene(
    x: int,
    y: int,
    w: int,
    h: int,
    scene: Seq<Primitive>,
    delta: int,
)
    ensures
        ({
            let c = get_color_spec(x, y, w, h, scene, delta);
            c == background_spec() || exists|i: int|
                0 <= i < scene.len() && c == prim_color_spec(#[trigger] scene[i])
        }),
{
    let md = if w < h {
        w
    } else {
        h
    };
    let xr = ((2 * x - w) * FP) / md;
    let yr = ((h - 2 * y) * FP) / md;
    let mag = isqrt_spec((xr * xr + yr * yr + FP * FP) as nat) as int;
    let dir = ((xr * FP) / mag, (yr * FP) / mag, (FP * FP) / mag);
    lemma_march_hit_is_in_scene(
        (0 + dir.0, 0 + dir.1, 0 + dir.2),
        dir,
        scene,
        sin_fp_spec(delta),
        MARCH_STEPS as nat,
    );
    match ray_march_spec((0, 0, 0), dir, scene, delta) {
        Option::Some(pr) => {
            let i = choose|i: int| 0 <= i < scene.len() && scene[i] == pr;
            assert(0 <= i < scene.len() && get_color_spec(x, y, w, h, scene, delta)
                == prim_color_spec(scene[i]));
        },
        Option::None => {
        },
    }
}

/// Color of the pixel at `(x, y)` on a `width` by `height` canvas: cast a
/// perspective ray through the pixel and march it against the scene.
pub fn get_color(
    x: usize,
    y: usize,
    width: usize,
    height: usize,
    scene: &Vec<Primitive>,
    delta: i64,
) -> (c: Color)
    requires
        1 <= width <= MAX_DIM,
        1 <= height <= MAX_DIM,
        x < width,
        y < height,
        scene_wf(scene@),
        -ANGLE_MAX <= delta <= ANGLE_MAX,
    ensures
        c == get_color_spec(
            x as int,
            y as int,
            width as int,
            height as int,
            scene@,
            delta as int,
        ),
{
    let md: i64 = if width < height {
        width as i64
    } else {
        height as i64
    };
    let xc: i64 = 2 * (x as i64) - width as i64;
    let yc: i64 = height as i64 - 2 * (y as i64);
    proof {
        assert((-67_108_864) * (md as int) <= xc * FP && xc * FP <= 67_108_864 * (md as int)
            && (-67_108_864) * (md as int) <= yc * FP && yc * FP <= 67_108_864 * (md as int))
            by (nonlinear_arith)
            requires
                -65535 <= xc <= 65535,
                -65535 <= yc <= 65535,
                1 <= md,
                FP == 1024,
        ;
        lemma_div_in_range(xc as int * (FP as int), 67_108_864, md as int);
        lemma_div_in_range(yc as int * (FP as int), 67_108_864, md as int);
    }
    let xr: i64 = div_fl(xc * FP, md);
    let yr: i64 = div_fl(yc * FP, md);
    proof {
        assert(0 <= xr * xr <= 4_503_599_627_370_496 && 0 <= yr * yr <= 4_503_599_627_370_496)
            by (nonlinear_arith)
            requires
                -67_108_864 <= xr <= 67_108_864,
                -67_108_864 <= yr <= 67_108_864,
        ;
    }
    let mag2: i64 = xr * xr + yr * yr + FP * FP;
    let mag_u: u64 = isqrt(mag2 as u64);
    proof {
        assert(1024 <= mag_u && mag_u <= 134_217_728 && (xr < 0 ==> -xr <= mag_u) && (0 <= xr
            ==> xr <= mag_u) && (yr < 0 ==> -yr <= mag_u) && (0 <= yr ==> yr <= mag_u))
            by (nonlinear_arith)
            requires
                (mag_u as int) * (mag_u as int) <= mag2 as int,
                (mag2 as int) < ((mag_u as int) + 1) * ((mag_u as int) + 1),
                mag2 as int == xr * xr + yr * yr + FP * FP,
                0 <= mag_u,
                -67_108_864 <= xr <= 67_108_864,
                -67_108_864 <= yr <= 67_108_864,
                FP == 1024,
        ;
    }
    let mag: i64 = mag_u as i64;
    proof {
        assert((-1024) * (mag as int) <= xr * FP && xr * FP <= 1024 * (mag as int) && (-1024) * (
        mag as int) <= yr * FP && yr * FP <= 1024 * (mag as int) && (-1024) * (mag as int) <= FP
            * FP && FP * FP <= 1024 * (mag as int)) by (nonlinear_arith)
            requires
                -mag <= xr <= mag,
                -mag <= yr <= mag,
                1024 <= mag,
                FP == 1024,
        ;
        lemma_div_in_range(xr as int * (FP as int), 1024, mag as int);
        lemma_div_in_range(yr as int * (FP as int), 1024, mag as int);
        lemma_div_in_range((FP as int) * (FP as int), 1024, mag as int);
    }
    let dx: i64 = div_fl(xr * FP, mag);
    let dy: i64 = div_fl(yr * FP, mag);
    let dz: i64 = div_fl(FP * FP, mag);
    match ray_march((0, 0, 0), (dx, dy, dz), scene, delta) {
        Option::None => (173, 216, 230, 255),
        Option::Some(pr) => pr.color(),
    }
}

} // verus!
