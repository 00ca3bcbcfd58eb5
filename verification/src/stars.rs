//! Star and corona rendering for the analytic compositor: an inverse-square
//! glow around each star, blended into the frame with the max-merge policy
//! so overlapping bright regions never darken each other.

use vstd::prelude::*;
use crate::blend::max8;
use crate::blend::max_merge_at;
use crate::curves::T_MAX;
use crate::fixed::clamp_i64;
use crate::fixed::clamp_spec;
use crate::fixed::div_fl;
use crate::fixed::sin_fp;
use crate::fixed::sin_fp_spec;
use crate::scene::MAX_DIM;
use crate::scene::POS_LIMIT;
use vstd::arithmetic::div_mod::lemma_fundamental_div_mod;
use vstd::arithmetic::div_mod::lemma_fundamental_div_mod_converse;

verus! {

/// Largest accepted star radius parameter.
pub const STAR_R_MAX: i64 = 64;

/// A stationary glint: a position and a radius parameter that scales its
/// brightness and its drawing box.
#[derive(Clone, Copy)]
pub struct Star {
    pub pos: (i64, i64),
    pub radius: i64,
}

/// Star parameters in range.
pub open spec fn star_wf(s: Star) -> bool {
    &&& -POS_LIMIT <= s.pos.0 <= POS_LIMIT
    &&& -POS_LIMIT <= s.pos.1 <= POS_LIMIT
    &&& 1 <= s.radius <= STAR_R_MAX
}

/// The time-varying brightness offset: a sine of the elapsed time and the
/// pixel position, scaled to `[-256, 256]`.
pub open spec fn star_offset_spec(t: int, px: int, py: int) -> int {
    sin_fp_spec(t / 3 + 5 * (px + py)) / 4
}

/// The brightness a star paints at pixel `(px, py)` at time `t`: an
/// inverse-square glow, `(256 r + offset) / (d^2 + 1)` clamped to a byte.
/// The `+ 1` keeps the divisor at least one at the star's own pixel.
pub open spec fn star_pix_spec(s: Star, t: int, px: int, py: int) -> u8 {
    let dx = px - s.pos.0;
    let dy = py - s.pos.1;
    let d2 = dx * dx + dy * dy + 1;
    clamp_spec((256 * s.radius + star_offset_spec(t, px, py)) / d2, 0, 255) as u8
}

/// Compute the brightness a star paints at pixel `(px, py)`.
pub fn star_pixel(s: &Star, t: u64, px: usize, py: usize) -> (b: u8)
    requires
        star_wf(*s),
        t <= T_MAX,
        px <= MAX_DIM,
        py <= MAX_DIM,
    ensures
        b == star_pix_spec(*s, t as int, px as int, py as int),
{
    let dx: i64 = px as i64 - s.pos.0;
    let dy: i64 = py as i64 - s.pos.1;
    proof {
        assert(0 <= dx * dx <= 18_490_000_000_000 && 0 <= dy * dy <= 18_490_000_000_000)
            by (nonlinear_arith)
            requires
                -4_300_000 <= dx <= 4_300_000,
                -4_300_000 <= dy <= 4_300_000,
        ;
    }
    let d2: i64 = dx * dx + dy * dy + 1;
    let angle: i64 = (t / 3) as i64 + 5 * (px as i64 + py as i64);
    let off: i64 = div_fl(sin_fp(angle), 4);
    let q: i64 = div_fl(256 * s.radius + off, d2);
    clamp_i64(q, 0, 255) as u8
}

/// Channel `k` of a row-major frame `w` pixels wide lies in the star's
/// clamped drawing box, four radius parameters around its position.
spec fn in_star_prog(k: int, w: int, lx: int, ly: int, oy: int, ci: int, cj: int) -> bool {
    let p = k / 4;
    let px = p % w;
    let py = p / w;
    (lx <= px && px < ci && ly <= py && py < oy) || (px == ci && ly <= py && py < cj)
}

/// The frame after max-merging the star over the box channels selected by
/// `in_star_prog`.
spec fn star_prog_frame(
    s: Seq<u8>,
    st: Star,
    t: int,
    w: int,
    lx: int,
    ly: int,
    oy: int,
    ci: int,
    cj: int,
) -> Seq<u8> {
    Seq::new(
        s.len(),
        |k: int|
            if in_star_prog(k, w, lx, ly, oy, ci, cj) {
                max8(s[k], star_pix_spec(st, t, (k / 4) % w, (k / 4) / w))
            } else {
                s[k]
            },
    )
}

/// The frame after rasterizing one star at time `t` over `s`: every channel
/// of every pixel in the clamped box four radius parameters around the star
/// is max-merged with the star's brightness there.
pub open spec fn draw_star_spec(s: Seq<u8>, st: Star, t: int, w: int, h: int) -> Seq<u8> {
    let lx = clamp_spec(st.pos.0 - 4 * st.radius, 0, w);
    let ox = clamp_spec(st.pos.0 + 4 * st.radius, 0, w);
    let ly = clamp_spec(st.pos.1 - 4 * st.radius, 0, h);
    let oy = clamp_spec(st.pos.1 + 4 * st.radius, 0, h);
    Seq::new(
        s.len(),
        |k: int|
            if ({
                let p = k / 4;
                let px = p % w;
                let py = p / w;
                lx <= px && px < ox && ly <= py && py < oy
            }) {
                max8(s[k], star_pix_spec(st, t, (k / 4) % w, (k / 4) / w))
            } else {
                s[k]
            },
    )
}

/// Rasterize one star into the frame buffer with the max-merge policy.
pub fn draw_star(buf: &mut Vec<u8>, st: &Star, t: u64, w: usize, h: usize)
    requires
        star_wf(*st),
        t <= T_MAX,
        1 <= w <= MAX_DIM,
        1 <= h <= MAX_DIM,
        old(buf)@.len() == 4 * w * h,
    ensures
        final(buf)@ == draw_star_spec(old(buf)@, *st, t as int, w as int, h as int),
        final(buf)@.len() == old(buf)@.len(),
{
    let lx: usize = clamp_i64(st.pos.0 - 4 * st.radius, 0, w as i64) as usize;
    let ox: usize = clamp_i64(st.pos.0 + 4 * st.radius, 0, w as i64) as usize;
    let ly: usize = clamp_i64(st.pos.1 - 4 * st.radius, 0, h as i64) as usize;
    let oy: usize = clamp_i64(st.pos.1 + 4 * st.radius, 0, h as i64) as usize;
    let ghost s0 = buf@;
    proof {
        broadcast use vstd::std_specs::vec::axiom_spec_len;
        assert(vstd::std_specs::vec::spec_vec_len(buf) == buf@.len());
        assert(s0.len() <= usize::MAX);
    }
    let ghost ti = t as int;
    let ghost wi = w as int;
    let ghost lxi = lx as int;
    let ghost oxi = ox as int;
    let ghost lyi = ly as int;
    let ghost oyi = oy as int;
    proof {
        assert(buf@ =~= star_prog_frame(s0, *st, ti, wi, lxi, lyi, oyi, lxi, lyi));
    }
    let mut i: usize = lx;
    while i < ox
        invariant
            lxi <= i as int,
            lxi < oxi ==> i as int <= oxi,
            lxi >= oxi ==> i as int == lxi,
            lxi == lx as int,
            oxi == ox as int,
            lyi == ly as int,
            oyi == oy as int,
            wi == w as int,
            ti == t as int,
            t <= T_MAX,
            star_wf(*st),
            1 <= w <= MAX_DIM,
            1 <= h <= MAX_DIM,
            ox <= w,
            oy <= h,
            buf@.len() == s0.len(),
            s0.len() == 4 * w * h,
            s0.len() <= usize::MAX,
            buf@ == star_prog_frame(s0, *st, ti, wi, lxi, lyi, oyi, i as int, lyi),
        decreases ox - i,
    {
        let mut j: usize = ly;
        proof {
            assert(star_prog_frame(s0, *st, ti, wi, lxi, lyi, oyi, i as int, lyi)
                =~= star_prog_frame(s0, *st, ti, wi, lxi, lyi, oyi, i as int, j as int));
        }
        while j < oy
            invariant
                lyi <= j as int,
                lyi < oyi ==> j as int <= oyi,
                lyi >= oyi ==> j as int == lyi,
                lxi <= i as int,
                (i as int) < oxi,
                lxi == lx as int,
                oxi == ox as int,
                lyi == ly as int,
                oyi == oy as int,
                wi == w as int,
                ti == t as int,
                t <= T_MAX,
                star_wf(*st),
                1 <= w <= MAX_DIM,
                1 <= h <= MAX_DIM,
                i < ox,
                ox <= w,
                oy <= h,
                buf@.len() == s0.len(),
                s0.len() == 4 * w * h,
                s0.len() <= usize::MAX,
                buf@ == star_prog_frame(s0, *st, ti, wi, lxi, lyi, oyi, i as int, j as int),
            decreases oy - j,
        {
            proof {
                assert(j * w + i < w * h && 4 * (j * w + i) + 3 < 4 * w * h && w * h <= 4 * w
                    * h) by (nonlinear_arith)
                    requires
                        j < h,
                        i < w,
                        1 <= w,
                        1 <= h,
                ;
            }
            let b = star_pixel(st, t, i, j);
            let base: usize = 4 * (j * w + i);
            proof {
                assert(base + 3 < buf@.len());
            }
            let ghost before = buf@;
            max_merge_at(buf, base, b);
            max_merge_at(buf, base + 1, b);
            max_merge_at(buf, base + 2, b);
            max_merge_at(buf, base + 3, b);
            proof {
                let pi = (j * w + i) as int;
                let bi = base as int;
                lemma_fundamental_div_mod_converse(pi, wi, j as int, i as int);
                assert forall|k: int| 0 <= k < s0.len() implies buf@[k] == star_prog_frame(
                    s0, *st, ti, wi, lxi, lyi, oyi, i as int, j as int + 1)[k] by {
                    if bi <= k < bi + 4 {
                        lemma_fundamental_div_mod_converse(k, 4, pi, k - bi);
                        assert(before[k] == s0[k]);
                        assert(buf@[k] == max8(s0[k], star_pix_spec(*st, ti, (k / 4) % wi, (k / 4)
                            / wi)));
                    } else {
                        lemma_fundamental_div_mod(k, 4);
                        let pk = k / 4;
                        lemma_fundamental_div_mod(pk, wi);
                        assert(buf@[k] == before[k]);
                        if pk % wi == i as int && pk / wi == j as int {
                            assert(pk == wi * (pk / wi) + pk % wi);
                            assert(wi * (j as int) == (j as int) * wi) by (nonlinear_arith);
                            assert(pk == pi);
                            assert(false);
                        }
                    }
                }
                assert(buf@ =~= star_prog_frame(s0, *st, ti, wi, lxi, lyi, oyi, i as int,
                    j as int + 1));
            }
            j += 1;
        }
        proof {
            assert(star_prog_frame(s0, *st, ti, wi, lxi, lyi, oyi, i as int, j as int)
                =~= star_prog_frame(s0, *st, ti, wi, lxi, lyi, oyi, i as int + 1, lyi));
        }
        i += 1;
    }
    proof {
        assert(buf@ =~= draw_star_spec(s0, *st, ti, wi, h as int));
    }
}

/// The frame after rasterizing a whole star list over `s`, in order.
pub open spec fn draw_stars_spec(s: Seq<u8>, stars: Seq<Star>, t: int, w: int, h: int) -> Seq<u8>
    decreases stars.len(),
{
    if stars.len() == 0 {
        s
    } else {
        draw_star_spec(draw_stars_spec(s, stars.drop_last(), t, w, h), stars.last(), t, w, h)
    }
}

/// Rasterize a whole star list into the frame buffer, in order.
pub fn draw_stars(buf: &mut Vec<u8>, stars: &Vec<Star>, t: u64, w: usize, h: usize)
    requires
        forall|i: int| 0 <= i < stars@.len() ==> star_wf(#[trigger] stars@[i]),
        t <= T_MAX,
        1 <= w <= MAX_DIM,
        1 <= h <= MAX_DIM,
        old(buf)@.len() == 4 * w * h,
    ensures
        final(buf)@ == draw_stars_spec(old(buf)@, stars@, t as int, w as int, h as int),
{
    let ghost s0 = buf@;
    let n = stars.len();
    let mut si: usize = 0;
    while si < n
        invariant
            si <= n,
            n == stars@.len(),
            forall|i: int| 0 <= i < stars@.len() ==> star_wf(#[trigger] stars@[i]),
            t <= T_MAX,
            1 <= w <= MAX_DIM,
            1 <= h <= MAX_DIM,
            buf@.len() == 4 * w * h,
            s0.len() == 4 * w * h,
            buf@ == draw_stars_spec(s0, stars@.take(si as int), t as int, w as int, h as int),
        decreases n - si,
    {
        let st = stars[si];
        proof {
            assert(stars@.take(si as int + 1).drop_last() =~= stars@.take(si as int));
            assert(stars@.take(si as int + 1).last() == st);
        }
        draw_star(buf, &st, t, w, h);
        si += 1;
    }
    proof {
        assert(stars@.take(n as int) =~= stars@);
    }
}

} // verus!
