//! Scene state and the per-frame animation update: anchor motion, particle
//! retirement and particle spawning.

use vstd::prelude::*;
use crate::curves::Curve;
use crate::curves::CurveGen;
use crate::curves::T_MAX;
use crate::curves::curve_at;
use crate::curves::curve_gen_wf;
use crate::fixed::FP;
use crate::fixed::cos_fp;
use crate::fixed::cos_fp_spec;
use crate::fixed::div_fl;
use crate::fixed::sin_fp;
use crate::fixed::sin_fp_spec;
use crate::rng::draw_color;
use crate::rng::draw_in;
use vstd::arithmetic::div_mod::lemma_fundamental_div_mod;
use vstd::arithmetic::div_mod::lemma_mod_bound;
use vstd::arithmetic::div_mod::lemma_div_is_ordered_by_denominator;

verus! {

/// Largest accepted canvas side, in pixels.
pub const MAX_DIM: usize = 65535;

/// Largest accepted particle population cap.
pub const CAP_LIMIT: usize = 1_000_000;

/// Largest accepted trajectory set.
pub const CURVE_LIMIT: usize = 10_000;

/// Largest accepted particle lifetime, in milliseconds.
pub const LIFE_MAX: u64 = 60_000;

/// Bound on the magnitude of a stored particle coordinate.
pub const POS_LIMIT: i64 = 4_194_304;

/// A short-lived particle: three curve points, a color and a spawn time.
#[derive(Clone, Copy)]
pub struct Flake {
    pub color: (u8, u8, u8, u8),
    pub beg: (i64, i64),
    pub mid: (i64, i64),
    pub end: (i64, i64),
    pub start: u64,
}

/// Stored particle coordinates stay bounded and the spawn time is a valid
/// timestamp.
pub open spec fn flake_wf(f: Flake) -> bool {
    &&& -POS_LIMIT <= f.beg.0 <= POS_LIMIT
    &&& -POS_LIMIT <= f.beg.1 <= POS_LIMIT
    &&& -POS_LIMIT <= f.mid.0 <= POS_LIMIT
    &&& -POS_LIMIT <= f.mid.1 <= POS_LIMIT
    &&& -POS_LIMIT <= f.end.0 <= POS_LIMIT
    &&& -POS_LIMIT <= f.end.1 <= POS_LIMIT
    &&& f.start <= T_MAX
}

/// A configuration rejected at construction or at a render call.
#[derive(Clone, Copy, Debug, PartialEq, Eq, Structural)]
pub enum Error {
    BadDimensions,
    BadPopulation,
    BadLifetime,
    BadCurves,
    BadPrimitives,
    BadBufferSize,
}

/// Scene construction options.
pub struct Config {
    pub width: usize,
    pub height: usize,
    pub floor: usize,
    pub cap: usize,
    pub lifetime_ms: u64,
    pub curves: Vec<CurveGen>,
}

/// The options a scene can be built from.
pub open spec fn config_valid(c: Config) -> bool {
    &&& 1 <= c.width <= MAX_DIM
    &&& 1 <= c.height <= MAX_DIM
    &&& c.floor <= c.cap <= CAP_LIMIT
    &&& 1 <= c.lifetime_ms <= LIFE_MAX
    &&& 1 <= c.curves@.len() <= CURVE_LIMIT
    &&& forall|i: int| 0 <= i < c.curves@.len() ==> curve_gen_wf(#[trigger] c.curves@[i])
}

/// The error reported for an invalid configuration: the first failed check in
/// the order dimensions, population, lifetime, trajectory set.
pub open spec fn first_config_error(c: Config) -> Error {
    if !(1 <= c.width <= MAX_DIM && 1 <= c.height <= MAX_DIM) {
        Error::BadDimensions
    } else if !(c.floor <= c.cap <= CAP_LIMIT) {
        Error::BadPopulation
    } else if !(1 <= c.lifetime_ms <= LIFE_MAX) {
        Error::BadLifetime
    } else {
        Error::BadCurves
    }
}

/// Horizontal anchor position at time `t` (milliseconds) on a canvas `w`
/// pixels wide.
pub open spec fn root_x_at(t: int, w: int) -> int {
    w / 2 + ((w / 8) * cos_fp_spec(t / 5)) / (FP as int)
}

/// Vertical anchor position at time `t` (milliseconds) on a canvas `h`
/// pixels tall.
pub open spec fn root_y_at(t: int, h: int) -> int {
    h / 2 - ((h / 8) * sin_fp_spec(t / 5)) / (FP as int)
}

/// A particle is still alive at `now`: its age, clamped at zero for
/// non-monotonic timestamps, is below the lifetime.
pub open spec fn alive_at(f: Flake, now: int, lifetime: int) -> bool {
    now < f.start + lifetime
}

/// The particles of `s` still alive at `now`, in order.
pub open spec fn kept_flakes(s: Seq<Flake>, now: int, lifetime: int) -> Seq<Flake> {
    s.filter(|f: Flake| alive_at(f, now, lifetime))
}

/// The population the spawn step fills up to, from `k` survivors.
pub open spec fn pop_target(k: int, floor: int, cap: int) -> int {
    if k + floor <= cap {
        k + floor
    } else if k <= cap {
        cap
    } else {
        k
    }
}

/// A particle freshly spawned at `now`: it starts within the spawn jitter of
/// the anchor, and its control and end points lie within their jitter of some
/// trajectory of the set evaluated at `now`.
pub open spec fn spawn_ok(f: Flake, root: (i64, i64), curves: Seq<CurveGen>, now: int) -> bool {
    &&& f.start == now
    &&& -5 <= f.beg.0 - root.0 <= 5
    &&& -5 <= f.beg.1 - root.1 <= 5
    &&& exists|ci: int|
        0 <= ci < curves.len() && {
            let c = curve_at(#[trigger] curves[ci], now);
            &&& -20 <= f.mid.0 - c.mid.0 <= 20
            &&& -20 <= f.mid.1 - c.mid.1 <= 20
            &&& -60 <= f.end.0 - c.end.0 <= 60
            &&& -60 <= f.end.1 - c.end.1 <= 60
        }
}

/// The procedural scene: configuration, anchor, particles, and the timestamp
/// of the latest update.
pub struct Scene {
    pub width: usize,
    pub height: usize,
    pub floor: usize,
    pub cap: usize,
    pub lifetime_ms: u64,
    pub curves: Vec<CurveGen>,
    pub flakes: Vec<Flake>,
    pub root: (i64, i64),
    pub now: u64,
}

impl Scene {
    /// Scene invariant: configuration in range, population within the cap,
    /// every stored particle bounded.
    pub open spec fn wf(self) -> bool {
        &&& 1 <= self.width <= MAX_DIM
        &&& 1 <= self.height <= MAX_DIM
        &&& self.floor <= self.cap <= CAP_LIMIT
        &&& 1 <= self.lifetime_ms <= LIFE_MAX
        &&& 1 <= self.curves@.len() <= CURVE_LIMIT
        &&& forall|i: int| 0 <= i < self.curves@.len() ==> curve_gen_wf(#[trigger] self.curves@[i])
        &&& self.flakes@.len() <= self.cap
        &&& forall|i: int| 0 <= i < self.flakes@.len() ==> flake_wf(#[trigger] self.flakes@[i])
        &&& forall|i: int|
            0 <= i < self.flakes@.len() ==> alive_at(
                #[trigger] self.flakes@[i],
                self.now as int,
                self.lifetime_ms as int,
            )
        &&& -POS_LIMIT <= self.root.0 <= POS_LIMIT
        &&& -POS_LIMIT <= self.root.1 <= POS_LIMIT
        &&& self.now <= T_MAX
    }

    /// Build a scene from a configuration, rejecting invalid options.
    pub fn new(cfg: Config) -> (r: Result<Scene, Error>)
        ensures
            match r {
                Result::Ok(s) => {
                    &&& config_valid(cfg)
                    &&& s.wf()
                    &&& s.width == cfg.width
                    &&& s.height == cfg.height
                    &&& s.floor == cfg.floor
                    &&& s.cap == cfg.cap
                    &&& s.lifetime_ms == cfg.lifetime_ms
                    &&& s.curves@ == cfg.curves@
                    &&& s.flakes@.len() == 0
                    &&& s.root.0 == cfg.width as int / 2
                    &&& s.root.1 == cfg.height as int / 2
                    &&& s.now == 0
                },
                Result::Err(e) => !config_valid(cfg) && e == first_config_error(cfg),
            },
    {
        if !(1 <= cfg.width && cfg.width <= MAX_DIM && 1 <= cfg.height && cfg.height <= MAX_DIM) {
            return Result::Err(Error::BadDimensions);
        }
        if !(cfg.floor <= cfg.cap && cfg.cap <= CAP_LIMIT) {
            return Result::Err(Error::BadPopulation);
        }
        if !(1 <= cfg.lifetime_ms && cfg.lifetime_ms <= LIFE_MAX) {
            return Result::Err(Error::BadLifetime);
        }
        let ncurves = cfg.curves.len();
        if !(1 <= ncurves && ncurves <= CURVE_LIMIT) {
            return Result::Err(Error::BadCurves);
        }
        let mut ok = true;
        let mut i: usize = 0;
        while i < cfg.curves.len()
            invariant
                i <= cfg.curves@.len(),
                ok == forall|j: int| 0 <= j < i ==> curve_gen_wf(#[trigger] cfg.curves@[j]),
            decreases cfg.curves@.len() - i,
        {
            let g = cfg.curves[i];
            let c_ok = osc_ok(&g.mid.0) && osc_ok(&g.mid.1) && osc_ok(&g.end.0) && osc_ok(
                &g.end.1);
            ok = ok && c_ok;
            i += 1;
        }
        if !ok {
            return Result::Err(Error::BadCurves);
        }
        let w = cfg.width;
        let h = cfg.height;
        Result::Ok(
            Scene {
                width: cfg.width,
                height: cfg.height,
                floor: cfg.floor,
                cap: cfg.cap,
                lifetime_ms: cfg.lifetime_ms,
                curves: cfg.curves,
                flakes: Vec::new(),
                root: ((w / 2) as i64, (h / 2) as i64),
                now: 0,
            },
        )
    }

    /// Advance the scene to time `now` (milliseconds): move the anchor,
    /// retire every particle whose lifetime has elapsed, and spawn fresh
    /// particles up to the population target. The anchor lands exactly on its
    /// closed-form position; survivors keep their order; each spawned
    /// particle starts at the anchor and follows one of the configured
    /// trajectories, up to the spawn jitter.
    pub fn advance(&mut self, now: u64, rng: &mut rand::rngs::StdRng)
        requires
            old(self).wf(),
            now <= T_MAX,
        ensures
            final(self).wf(),
            final(self).width == old(self).width,
            final(self).height == old(self).height,
            final(self).floor == old(self).floor,
            final(self).cap == old(self).cap,
            final(self).lifetime_ms == old(self).lifetime_ms,
            final(self).curves@ == old(self).curves@,
            final(self).now == now,
            final(self).root.0 == root_x_at(now as int, old(self).width as int),
            final(self).root.1 == root_y_at(now as int, old(self).height as int),
            ({
                let kept = kept_flakes(
                    old(self).flakes@,
                    now as int,
                    old(self).lifetime_ms as int,
                );
                &&& final(self).flakes@.len() == pop_target(
                    kept.len() as int,
                    old(self).floor as int,
                    old(self).cap as int,
                )
                &&& final(self).flakes@.subrange(0, kept.len() as int) == kept
                &&& forall|i: int|
                    kept.len() <= i < final(self).flakes@.len() ==> spawn_ok(
                        #[trigger] final(self).flakes@[i],
                        final(self).root,
                        old(self).curves@,
                        now as int,
                    )
            }),
    {
        let w = self.width;
        let h = self.height;
        let r = root_at(now, w, h);
        self.root = r;
        self.now = now;
        let life = self.lifetime_ms;
        let ghost pred = |f: Flake| alive_at(f, now as int, life as int);

        let mut kept: Vec<Flake> = Vec::new();
        let mut i: usize = 0;
        while i < self.flakes.len()
            invariant
                i <= self.flakes@.len(),
                self.flakes@ == old(self).flakes@,
                life == old(self).lifetime_ms,
                life <= LIFE_MAX,
                now <= T_MAX,
                forall|j: int| 0 <= j < self.flakes@.len() ==> flake_wf(#[trigger] self.flakes@[j]),
                kept@ == self.flakes@.take(i as int).filter(pred),
                pred == (|f: Flake| alive_at(f, now as int, life as int)),
                forall|j: int| 0 <= j < kept@.len() ==> flake_wf(#[trigger] kept@[j]),
            decreases self.flakes@.len() - i,
        {
            let f = self.flakes[i];
            proof {
                reveal(Seq::filter);
                assert(self.flakes@.take(i + 1).drop_last() =~= self.flakes@.take(i as int));
                assert(self.flakes@.take(i + 1).last() == self.flakes@[i as int]);
            }
            if now < f.start + life {
                kept.push(f);
            }
            i += 1;
        }
        proof {
            assert(self.flakes@.take(self.flakes@.len() as int) =~= self.flakes@);
            self.flakes@.lemma_filter_len(pred);
        }

        let ghost kept0 = kept@;
        let floor = self.floor;
        let cap = self.cap;
        let target: usize = if kept.len() + floor <= cap {
            kept.len() + floor
        } else if kept.len() <= cap {
            cap
        } else {
            kept.len()
        };

        while kept.len() < target
            invariant
                kept0.len() <= kept@.len() <= target,
                target <= CAP_LIMIT,
                kept@.subrange(0, kept0.len() as int) == kept0,
                forall|j: int| 0 <= j < kept@.len() ==> flake_wf(#[trigger] kept@[j]),
                forall|j: int|
                    kept0.len() <= j < kept@.len() ==> spawn_ok(
                        #[trigger] kept@[j],
                        self.root,
                        self.curves@,
                        now as int,
                    ),
                self.curves@ == old(self).curves@,
                1 <= self.curves@.len() <= CURVE_LIMIT,
                forall|i2: int|
                    0 <= i2 < self.curves@.len() ==> curve_gen_wf(#[trigger] self.curves@[i2]),
                0 <= self.root.0 <= MAX_DIM,
                0 <= self.root.1 <= MAX_DIM,
                now <= T_MAX,
            decreases target - kept.len(),
        {
            let ci64 = draw_in(rng, 0, self.curves.len() as i64);
            let ci = ci64 as usize;
            let cv: Curve = self.curves[ci].eval(now);
            let bx = self.root.0 + draw_in(rng, -5, 6);
            let by = self.root.1 + draw_in(rng, -5, 6);
            let mx = cv.mid.0 + draw_in(rng, -20, 21);
            let my = cv.mid.1 + draw_in(rng, -20, 21);
            let ex = cv.end.0 + draw_in(rng, -60, 61);
            let ey = cv.end.1 + draw_in(rng, -60, 61);
            let col = draw_color(rng);
            let f = Flake { color: col, beg: (bx, by), mid: (mx, my), end: (ex, ey), start: now };
            proof {
                let c = curve_at(self.curves@[ci as int], now as int);
                assert(0 <= (ci as int) && (ci as int) < self.curves@.len() && {
                    &&& -20 <= f.mid.0 - c.mid.0 <= 20
                    &&& -20 <= f.mid.1 - c.mid.1 <= 20
                    &&& -60 <= f.end.0 - c.end.0 <= 60
                    &&& -60 <= f.end.1 - c.end.1 <= 60
                });
                assert(spawn_ok(f, self.root, self.curves@, now as int));
            }
            kept.push(f);
            proof {
                assert(kept@.subrange(0, kept0.len() as int) =~= kept0);
            }
        }

        self.flakes = kept;
        proof {
            assert(final(self).flakes@.subrange(0, kept0.len() as int) == kept0);
            assert forall|i2: int| 0 <= i2 < self.flakes@.len() implies alive_at(
                #[trigger] self.flakes@[i2],
                now as int,
                life as int,
            ) by {
                if i2 < kept0.len() {
                    assert(self.flakes@.subrange(0, kept0.len() as int)[i2] == self.flakes@[i2]);
                    assert(self.flakes@[i2] == kept0[i2]);
                    old(self).flakes@.lemma_filter_pred(pred, i2);
                } else {
                    assert(spawn_ok(self.flakes@[i2], self.root, self.curves@, now as int));
                }
            }
        }
    }
}

/// Check one oscillator's bounds.
fn osc_ok(o: &crate::curves::Osc) -> (r: bool)
    ensures
        r == crate::curves::osc_wf(*o),
{
    1 <= o.t_div && o.t_div <= crate::curves::OSC_DIV_MAX && -crate::curves::OSC_PARAM_MAX
        <= o.amp && o.amp <= crate::curves::OSC_PARAM_MAX && -crate::curves::OSC_PARAM_MAX
        <= o.phase && o.phase <= crate::curves::OSC_PARAM_MAX && -crate::curves::OSC_PARAM_MAX
        <= o.off && o.off <= crate::curves::OSC_PARAM_MAX
}

/// Compute the anchor position at time `t` on a `w` by `h` canvas.
pub fn root_at(t: u64, w: usize, h: usize) -> (r: (i64, i64))
    requires
        1 <= w <= MAX_DIM,
        1 <= h <= MAX_DIM,
        t <= T_MAX,
    ensures
        r.0 == root_x_at(t as int, w as int),
        r.1 == root_y_at(t as int, h as int),
        0 <= r.0 <= w,
        0 <= r.1 <= h,
{
    proof {
        lemma_div_is_ordered_by_denominator(t as int, 1, 5);
    }
    let a: i64 = (t / 5) as i64;
    let c = cos_fp(a);
    let s = sin_fp(a);
    let wq: i64 = (w / 8) as i64;
    let hq: i64 = (h / 8) as i64;
    proof {
        assert(-wq * FP <= wq * c <= wq * FP && -hq * FP <= hq * s <= hq * FP)
            by (nonlinear_arith)
            requires
                0 <= wq,
                0 <= hq,
                -FP <= c <= FP,
                -FP <= s <= FP,
        ;
    }
    let px = wq * c;
    let py = hq * s;
    let dx = div_fl(px, FP);
    let dy = div_fl(py, FP);
    proof {
        lemma_div_in_range(px as int, wq as int, FP as int);
        lemma_div_in_range(py as int, hq as int, FP as int);
        lemma_div_is_ordered_by_denominator(w as int, 2, 8);
        lemma_div_is_ordered_by_denominator(h as int, 2, 8);
        assert(w as int / 2 + w as int / 8 <= w as int) by {
            lemma_fundamental_div_mod(w as int, 2);
            lemma_mod_bound(w as int, 2);
            lemma_fundamental_div_mod(w as int, 8);
            lemma_mod_bound(w as int, 8);
        }
        assert(h as int / 2 + h as int / 8 <= h as int) by {
            lemma_fundamental_div_mod(h as int, 2);
            lemma_mod_bound(h as int, 2);
            lemma_fundamental_div_mod(h as int, 8);
            lemma_mod_bound(h as int, 8);
        }
    }
    ((w / 2) as i64 + dx, (h / 2) as i64 - dy)
}

/// Advancing two scenes of the same canvas to the same time puts their
/// anchors at the same coordinates: the anchor position is a pure function
/// of the elapsed time and the canvas, never of the particle state or of
/// any random draw.
pub proof fn lemma_anchor_deterministic(s1: Scene, s2: Scene, t: u64)
    requires
        s1.width == s2.width,
        s1.height == s2.height,
    ensures
        root_x_at(t as int, s1.width as int) == root_x_at(t as int, s2.width as int),
        root_y_at(t as int, s1.height as int) == root_y_at(t as int, s2.height as int),
{
}

/// The spawn step never drops a survivor and never exceeds the cap: the
/// population after an update is the target, which is at least the survivor
/// count and at most the cap.
pub proof fn lemma_population_bounds(k: int, floor: int, cap: int)
    requires
        0 <= k <= cap,
        0 <= floor,
    ensures
        k <= pop_target(k, floor, cap) <= cap,
{
}

/// A quotient with bounded dividend is bounded: `|x| <= b * d` gives
/// `|x / d| <= b`.
pub proof fn lemma_div_in_range(x: int, b: int, d: int)
    requires
        0 < d,
        0 <= b,
        -b * d <= x <= b * d,
    ensures
        -b <= x / d <= b,
{
    lemma_fundamental_div_mod(x, d);
    lemma_mod_bound(x, d);
    assert(-b <= x / d <= b) by (nonlinear_arith)
        requires
            x == d * (x / d) + x % d,
            0 <= x % d < d,
            -b * d <= x <= b * d,
            0 < d,
            0 <= b,
    ;
}

} // verus!
