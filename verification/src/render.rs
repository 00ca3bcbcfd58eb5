//! The pixel compositor: quadratic particle curves, fade, and rasterization
//! of every particle into a caller-owned BGRA frame buffer.

use vstd::prelude::*;
use crate::blend::put_at;
use crate::blend::sat_add8;
use crate::blend::sat_add_at;
use crate::curves::T_MAX;
use crate::fixed::clamp_i64;
use crate::fixed::clamp_spec;
use crate::fixed::div_fl;
use crate::scene::Error;
use crate::scene::Flake;
use crate::scene::LIFE_MAX;
use crate::scene::MAX_DIM;
use crate::scene::POS_LIMIT;
use crate::scene::Scene;
use crate::scene::alive_at;
use crate::scene::flake_wf;
use crate::scene::lemma_div_in_range;
use vstd::arithmetic::div_mod::lemma_fundamental_div_mod;
use vstd::arithmetic::div_mod::lemma_fundamental_div_mod_converse;
use vstd::arithmetic::div_mod::lemma_div_multiples_vanish;
use vstd::arithmetic::div_mod::lemma_div_is_ordered;

verus! {

/// Span of a particle's curve parameter and of its fade, in milliseconds.
pub const FADE_MS: u64 = 10_000;

/// Bound on the magnitude of an evaluated curve position.
pub const BEZ_LIMIT: i64 = 1_000_000_000;

/// One coordinate of the quadratic curve
/// `P(u) = mid + (1 - u)^2 (beg - mid) + u^2 (end - mid)`,
/// where `u` is `age / FADE_MS` and the division rounds towards minus
/// infinity.
pub open spec fn bezier_coord(b: int, m: int, e: int, age: int) -> int {
    let s = FADE_MS as int;
    m + (((s - age) * (s - age)) * (b - m) + (age * age) * (e - m)) / (s * s)
}

fn bezier_axis(b: i64, m: i64, e: i64, w0: i64, w2: i64) -> (r: i64)
    requires
        -POS_LIMIT <= b <= POS_LIMIT,
        -POS_LIMIT <= m <= POS_LIMIT,
        -POS_LIMIT <= e <= POS_LIMIT,
        0 <= w0 <= 2_500_000_000,
        0 <= w2 <= 3_600_000_000,
    ensures
        r == m + (w0 * (b - m) + w2 * (e - m)) / 100_000_000,
        -BEZ_LIMIT <= r <= BEZ_LIMIT,
{
    let db: i64 = b - m;
    let de: i64 = e - m;
    proof {
        assert(-21_000_000_000_000_000 <= w0 * db <= 21_000_000_000_000_000
            && -31_000_000_000_000_000 <= w2 * de <= 31_000_000_000_000_000) by (nonlinear_arith)
            requires
                -8_388_608 <= db <= 8_388_608,
                -8_388_608 <= de <= 8_388_608,
                0 <= w0 <= 2_500_000_000,
                0 <= w2 <= 3_600_000_000,
        ;
    }
    let num: i64 = w0 * db + w2 * de;
    let q = div_fl(num, 100_000_000);
    proof {
        lemma_div_in_range(num as int, 600_000_000, 100_000_000);
    }
    m + q
}

/// Evaluate the particle curve at `age` milliseconds into the particle's
/// life.
pub fn bezier_point(beg: (i64, i64), mid: (i64, i64), end: (i64, i64), age: u64) -> (p: (
    i64,
    i64,
))
    requires
        -POS_LIMIT <= beg.0 <= POS_LIMIT,
        -POS_LIMIT <= beg.1 <= POS_LIMIT,
        -POS_LIMIT <= mid.0 <= POS_LIMIT,
        -POS_LIMIT <= mid.1 <= POS_LIMIT,
        -POS_LIMIT <= end.0 <= POS_LIMIT,
        -POS_LIMIT <= end.1 <= POS_LIMIT,
        age <= LIFE_MAX,
    ensures
        p.0 == bezier_coord(beg.0 as int, mid.0 as int, end.0 as int, age as int),
        p.1 == bezier_coord(beg.1 as int, mid.1 as int, end.1 as int, age as int),
        -BEZ_LIMIT <= p.0 <= BEZ_LIMIT,
        -BEZ_LIMIT <= p.1 <= BEZ_LIMIT,
{
    let d: i64 = (FADE_MS as i64) - (age as i64);
    proof {
        assert(0 <= d * d <= 2_500_000_000 && 0 <= (age as i64) * (age as i64) <= 3_600_000_000)
            by (nonlinear_arith)
            requires
                -50_000 <= d <= 10_000,
                0 <= age as i64 <= 60_000,
        ;
    }
    let w0: i64 = d * d;
    let a: i64 = age as i64;
    let w2: i64 = a * a;
    let px = bezier_axis(beg.0, mid.0, end.0, w0, w2);
    let py = bezier_axis(beg.1, mid.1, end.1, w0, w2);
    (px, py)
}

/// At the start of its life the curve sits exactly on `beg`; a full fade
/// span later it sits exactly on `end`, whatever the control points.
pub proof fn lemma_bezier_endpoints(b: int, m: int, e: int)
    ensures
        bezier_coord(b, m, e, 0) == b,
        bezier_coord(b, m, e, FADE_MS as int) == e,
{
    let s = FADE_MS as int;
    assert(((s - 0) * (s - 0)) * (b - m) + (0 * 0) * (e - m) == (b - m) * (s * s))
        by (nonlinear_arith);
    assert(((s - s) * (s - s)) * (b - m) + (s * s) * (e - m) == (e - m) * (s * s))
        by (nonlinear_arith);
    lemma_div_multiples_vanish(b - m, s * s);
    lemma_div_multiples_vanish(e - m, s * s);
    assert((b - m) * (s * s) == (s * s) * (b - m)) by (nonlinear_arith);
    assert((e - m) * (s * s) == (s * s) * (e - m)) by (nonlinear_arith);
}

/// The fade factor applied to a channel contribution: the fraction of the
/// fade span still remaining, zero once the span has elapsed.
pub open spec fn faded(v: u8, age: int) -> u8 {
    let s = FADE_MS as int;
    let rem = if age >= s {
        0
    } else {
        s - age
    };
    ((v * rem) / s) as u8
}

/// Scale channel `v` by the remaining fraction of the fade span.
pub fn faded_channel(v: u8, age: u64) -> (r: u8)
    ensures
        r == faded(v, age as int),
        r <= v,
{
    let rem: u64 = if age >= FADE_MS {
        0
    } else {
        FADE_MS - age
    };
    let vu: u64 = v as u64;
    proof {
        assert(0 <= (vu as int) * (rem as int) <= (v as int) * (FADE_MS as int)
            && (vu as int) * (rem as int) <= 2_550_000
            && (vu as int) * (rem as int) == (v as int) * (rem as int)) by (nonlinear_arith)
            requires
                0 <= v as int <= 255,
                vu as int == v as int,
                0 <= rem as int <= FADE_MS as int,
                FADE_MS == 10_000,
        ;
    }
    let num: u64 = vu * rem;
    proof {
        lemma_div_is_ordered((v as int) * (rem as int), (v as int) * (FADE_MS as int),
            FADE_MS as int);
        lemma_div_multiples_vanish(v as int, FADE_MS as int);
        assert((v as int) * (FADE_MS as int) == (FADE_MS as int) * (v as int))
            by (nonlinear_arith);
        vstd::arithmetic::div_mod::lemma_div_pos_is_pos((v as int) * (rem as int),
            FADE_MS as int);
    }
    let q: u64 = num / FADE_MS;
    q as u8
}

/// The base contribution of a particle color to channel `ch` of its square:
/// the full first and fourth components, a quarter of the second, half of
/// the third.
pub open spec fn chan_base(c: (u8, u8, u8, u8), ch: int) -> u8 {
    if ch == 0 {
        c.0
    } else if ch == 1 {
        c.1 / 4
    } else if ch == 2 {
        c.2 / 2
    } else {
        c.3
    }
}

/// The faded contribution of particle `f` to buffer channel `k`.
pub open spec fn flake_contrib(f: Flake, k: int, age: int) -> u8 {
    faded(chan_base(f.color, k % 4), age)
}

/// A particle's age at `now`, clamped at zero for non-monotonic timestamps.
pub open spec fn flake_age(f: Flake, now: int) -> int {
    if now >= f.start {
        now - f.start
    } else {
        0
    }
}

/// Channel `k` of a row-major frame `w` pixels wide lies in the pixel box
/// `[lx, ox) x [ly, oy)`.
pub open spec fn in_box(k: int, w: int, lx: int, ox: int, ly: int, oy: int) -> bool {
    let p = k / 4;
    let px = p % w;
    let py = p / w;
    lx <= px && px < ox && ly <= py && py < oy
}

/// Partial progress through a particle's box: columns `[lx, ci)` fully
/// drawn, and rows `[ly, cj)` of column `ci`.
spec fn in_prog(k: int, w: int, lx: int, ly: int, oy: int, ci: int, cj: int) -> bool {
    let p = k / 4;
    let px = p % w;
    let py = p / w;
    (lx <= px && px < ci && ly <= py && py < oy) || (px == ci && ly <= py && py < cj)
}

/// The frame after drawing the box channels selected by `in_prog`.
spec fn prog_frame(
    s: Seq<u8>,
    f: Flake,
    age: int,
    w: int,
    lx: int,
    ly: int,
    oy: int,
    ci: int,
    cj: int,
) -> Seq<u8> {
    Seq::new(
        s.len(),
        |k: int|
            if in_prog(k, w, lx, ly, oy, ci, cj) {
                sat_add8(s[k], flake_contrib(f, k, age))
            } else {
                s[k]
            },
    )
}

/// The frame after rasterizing particle `f` at time `now` over `s`: a small
/// filled square around the particle's curve position, accumulated with
/// saturation, faded by the particle's age.
pub open spec fn draw_flake_spec(s: Seq<u8>, f: Flake, now: int, w: int, h: int) -> Seq<u8> {
    let age = flake_age(f, now);
    let x = bezier_coord(f.beg.0 as int, f.mid.0 as int, f.end.0 as int, age);
    let y = bezier_coord(f.beg.1 as int, f.mid.1 as int, f.end.1 as int, age);
    let lx = clamp_spec(x - 2, 0, w);
    let ox = clamp_spec(x + 2, 0, w);
    let ly = clamp_spec(y - 2, 0, h);
    let oy = clamp_spec(y + 2, 0, h);
    Seq::new(
        s.len(),
        |k: int|
            if in_box(k, w, lx, ox, ly, oy) {
                sat_add8(s[k], flake_contrib(f, k, age))
            } else {
                s[k]
            },
    )
}

/// Rasterize one particle into the frame buffer.
pub fn draw_flake(buf: &mut Vec<u8>, f: &Flake, now: u64, w: usize, h: usize)
    requires
        flake_wf(*f),
        now <= T_MAX,
        now <= f.start + LIFE_MAX,
        1 <= w <= MAX_DIM,
        1 <= h <= MAX_DIM,
        old(buf)@.len() == 4 * w * h,
    ensures
        final(buf)@ == draw_flake_spec(old(buf)@, *f, now as int, w as int, h as int),
        final(buf)@.len() == old(buf)@.len(),
{
    let age: u64 = if now >= f.start {
        now - f.start
    } else {
        0
    };
    let p = bezier_point(f.beg, f.mid, f.end, age);
    let x = p.0;
    let y = p.1;
    let lx: usize = clamp_i64(x - 2, 0, w as i64) as usize;
    let ox: usize = clamp_i64(x + 2, 0, w as i64) as usize;
    let ly: usize = clamp_i64(y - 2, 0, h as i64) as usize;
    let oy: usize = clamp_i64(y + 2, 0, h as i64) as usize;
    let c0 = faded_channel(f.color.0, age);
    let c1 = faded_channel(f.color.1 / 4, age);
    let c2 = faded_channel(f.color.2 / 2, age);
    let c3 = faded_channel(f.color.3, age);
    let ghost s0 = buf@;
    proof {
        broadcast use vstd::std_specs::vec::axiom_spec_len;
        assert(vstd::std_specs::vec::spec_vec_len(buf) == buf@.len());
        assert(s0.len() <= usize::MAX);
    }
    let ghost ag = age as int;
    let ghost wi = w as int;
    let ghost lxi = lx as int;
    let ghost oxi = ox as int;
    let ghost lyi = ly as int;
    let ghost oyi = oy as int;
    proof {
        assert(buf@ =~= prog_frame(s0, *f, ag, wi, lxi, lyi, oyi, lxi, lyi));
    }
    let mut i: usize = lx;
    while i < ox
        invariant
            lxi <= i as int,
            lxi < oxi ==> i as int <= oxi,
            lxi >= oxi ==> i as int == lxi,
            lxi == lx as int,
            oxi == ox as int,
            lyi == ly as int,
            oyi == oy as int,
            wi == w as int,
            1 <= w <= MAX_DIM,
            1 <= h <= MAX_DIM,
            ox <= w,
            oy <= h,
            buf@.len() == s0.len(),
            s0.len() == 4 * w * h,
            s0.len() <= usize::MAX,
            c0 == faded(chan_base(f.color, 0), ag),
            c1 == faded(chan_base(f.color, 1), ag),
            c2 == faded(chan_base(f.color, 2), ag),
            c3 == faded(chan_base(f.color, 3), ag),
            buf@ == prog_frame(s0, *f, ag, wi, lxi, lyi, oyi, i as int, lyi),
        decreases ox - i,
    {
        let mut j: usize = ly;
        proof {
            assert(prog_frame(s0, *f, ag, wi, lxi, lyi, oyi, i as int, lyi) =~= prog_frame(
                s0, *f, ag, wi, lxi, lyi, oyi, i as int, j as int));
        }
        while j < oy
            invariant
                lyi <= j as int,
                lyi < oyi ==> j as int <= oyi,
                lyi >= oyi ==> j as int == lyi,
                lxi <= i as int,
                (i as int) < oxi,
                lxi == lx as int,
                oxi == ox as int,
                lyi == ly as int,
                oyi == oy as int,
                wi == w as int,
                1 <= w <= MAX_DIM,
                1 <= h <= MAX_DIM,
                i < ox,
                ox <= w,
                oy <= h,
                buf@.len() == s0.len(),
                s0.len() == 4 * w * h,
                s0.len() <= usize::MAX,
                c0 == faded(chan_base(f.color, 0), ag),
                c1 == faded(chan_base(f.color, 1), ag),
                c2 == faded(chan_base(f.color, 2), ag),
                c3 == faded(chan_base(f.color, 3), ag),
                buf@ == prog_frame(s0, *f, ag, wi, lxi, lyi, oyi, i as int, j as int),
            decreases oy - j,
        {
            proof {
                assert(j * w + i < w * h && 4 * (j * w + i) + 3 < 4 * w * h && w * h <= 4 * w
                    * h) by (nonlinear_arith)
                    requires
                        j < h,
                        i < w,
                        1 <= w,
                        1 <= h,
                ;
            }
            let base: usize = 4 * (j * w + i);
            proof {
                assert(base + 3 < buf@.len());
            }
            let ghost before = buf@;
            sat_add_at(buf, base, c0);
            sat_add_at(buf, base + 1, c1);
            sat_add_at(buf, base + 2, c2);
            sat_add_at(buf, base + 3, c3);
            proof {
                let pi = (j * w + i) as int;
                let bi = base as int;
                lemma_fundamental_div_mod_converse(pi, wi, j as int, i as int);
                assert forall|k: int| 0 <= k < s0.len() implies buf@[k] == prog_frame(
                    s0, *f, ag, wi, lxi, lyi, oyi, i as int, j as int + 1)[k] by {
                    if bi <= k < bi + 4 {
                        lemma_fundamental_div_mod_converse(k, 4, pi, k - bi);
                        assert(before[k] == s0[k]);
                        assert(buf@[k] == sat_add8(s0[k], flake_contrib(*f, k, ag)));
                    } else {
                        lemma_fundamental_div_mod(k, 4);
                        let pk = k / 4;
                        lemma_fundamental_div_mod(pk, wi);
                        assert(buf@[k] == before[k]);
                        if pk % wi == i as int && pk / wi == j as int {
                            assert(pk == wi * (pk / wi) + pk % wi);
                            assert(wi * (j as int) == (j as int) * wi) by (nonlinear_arith);
                            assert(pk == pi);
                            assert(false);
                        }
                    }
                }
                assert(buf@ =~= prog_frame(s0, *f, ag, wi, lxi, lyi, oyi, i as int,
                    j as int + 1));
            }
            j += 1;
        }
        proof {
            assert(prog_frame(s0, *f, ag, wi, lxi, lyi, oyi, i as int, j as int) =~= prog_frame(
                s0, *f, ag, wi, lxi, lyi, oyi, i as int + 1, lyi));
        }
        i += 1;
    }
    proof {
        assert(buf@ =~= draw_flake_spec(s0, *f, now as int, wi, h as int));
    }
}

/// An all-zero frame of `n` channel bytes.
pub open spec fn zero_frame(n: int) -> Seq<u8> {
    Seq::new(n as nat, |k: int| 0u8)
}

/// The frame after rasterizing a whole particle list over `s`, in order.
pub open spec fn draw_all_spec(s: Seq<u8>, fl: Seq<Flake>, now: int, w: int, h: int) -> Seq<u8>
    decreases fl.len(),
{
    if fl.len() == 0 {
        s
    } else {
        draw_flake_spec(draw_all_spec(s, fl.drop_last(), now, w, h), fl.last(), now, w, h)
    }
}

/// The full frame a scene renders: a cleared buffer with every live particle
/// rasterized over it.
pub open spec fn render_spec(s: Scene) -> Seq<u8> {
    draw_all_spec(
        zero_frame(4 * s.width as int * s.height as int),
        s.flakes@,
        s.now as int,
        s.width as int,
        s.height as int,
    )
}

impl Scene {
    /// Render the scene into `buf`, a row-major BGRA frame of exactly
    /// `4 * width * height` bytes matching the configured canvas. A
    /// mismatched buffer or canvas is rejected untouched; otherwise the
    /// buffer holds exactly the cleared frame with every live particle
    /// rasterized over it.
    pub fn render(&self, buf: &mut Vec<u8>, width: usize, height: usize) -> (r: Result<
        (),
        Error,
    >)
        requires
            self.wf(),
        ensures
            match r {
                Result::Ok(()) => {
                    &&& width == self.width
                    &&& height == self.height
                    &&& old(buf)@.len() == 4 * width * height
                    &&& final(buf)@ == render_spec(*self)
                },
                Result::Err(e) => {
                    &&& e == Error::BadBufferSize
                    &&& !(width == self.width && height == self.height && old(buf)@.len() == 4
                        * width * height)
                    &&& final(buf)@ == old(buf)@
                },
            },
    {
        if !(width == self.width && height == self.height) {
            return Result::Err(Error::BadBufferSize);
        }
        proof {
            assert((4 * (width as u64)) * (height as u64) <= 17_179_344_900 && (4 * (
            width as int)) * (height as int) == (4 * ((width as u64) as int)) * ((
            height as u64) as int)) by (nonlinear_arith)
                requires
                    width <= 65535,
                    height <= 65535,
                    (width as u64) as int == width as int,
                    (height as u64) as int == height as int,
            ;
        }
        let need: u64 = 4 * (width as u64) * (height as u64);
        if buf.len() as u64 != need {
            return Result::Err(Error::BadBufferSize);
        }
        let n: usize = buf.len();
        proof {
            assert(n as int == 4 * width * height);
        }
        let mut k: usize = 0;
        while k < n
            invariant
                k <= n,
                buf@.len() == n,
                forall|j: int| 0 <= j < k ==> buf@[j] == 0u8,
            decreases n - k,
        {
            put_at(buf, k, 0);
            k += 1;
        }
        proof {
            assert(buf@ =~= zero_frame(n as int));
        }
        let ghost wi = self.width as int;
        let ghost hi = self.height as int;
        let m = self.flakes.len();
        let mut fi: usize = 0;
        while fi < m
            invariant
                fi <= m,
                m == self.flakes@.len(),
                self.wf(),
                width == self.width,
                height == self.height,
                wi == self.width as int,
                hi == self.height as int,
                buf@.len() == 4 * self.width * self.height,
                buf@ == draw_all_spec(
                    zero_frame(4 * wi * hi),
                    self.flakes@.take(fi as int),
                    self.now as int,
                    wi,
                    hi,
                ),
            decreases m - fi,
        {
            let f = self.flakes[fi];
            proof {
                assert(alive_at(f, self.now as int, self.lifetime_ms as int));
                assert(self.flakes@.take(fi as int + 1).drop_last() =~= self.flakes@.take(
                    fi as int));
                assert(self.flakes@.take(fi as int + 1).last() == f);
            }
            draw_flake(buf, &f, self.now, width, height);
            fi += 1;
        }
        proof {
            assert(self.flakes@.take(m as int) =~= self.flakes@);
        }
        Result::Ok(())
    }
}

} // verus!
