//! The pluggable scalar noise field and the noise-based glow of the
//! analytic compositor: a radial corona whose first pass decides whether a
//! differently-parameterized second pass carves a brighter core.

use vstd::prelude::*;
use crate::blend::max8;
use crate::blend::max_merge_at;
use crate::curves::T_MAX;
use crate::fixed::FP;
use crate::fixed::clamp_i64;
use crate::fixed::clamp_spec;
use crate::fixed::div_fl;
use crate::fixed::div_nn;
use crate::fixed::sin_fp;
use crate::fixed::sin_fp_spec;
use crate::scene::MAX_DIM;
use crate::scene::POS_LIMIT;
use vstd::arithmetic::div_mod::lemma_fundamental_div_mod;
use vstd::arithmetic::div_mod::lemma_fundamental_div_mod_converse;
use vstd::arithmetic::div_mod::lemma_mod_bound;
use vstd::arithmetic::div_mod::lemma_div_pos_is_pos;
use vstd::arithmetic::div_mod::lemma_div_nonincreasing;

verus! {

/// Largest accepted magnitude of a noise field coordinate.
pub const NOISE_COORD_MAX: i64 = 0x100_0000_0000;

/// A scalar field on integer coordinates, valued in `[-FP, FP]` (one unit
/// of fixed-point amplitude). Implementations may be swapped under the
/// compositor: everything drawn from a field is verified against this
/// contract alone.
pub trait Field: Sized {
    /// The field's value at `(x, y, z)`.
    spec fn at_spec(&self, x: int, y: int, z: int) -> int;

    /// Evaluate the field at `(x, y, z)`.
    fn at(&self, x: i64, y: i64, z: i64) -> (r: i64)
        requires
            -NOISE_COORD_MAX <= x <= NOISE_COORD_MAX,
            -NOISE_COORD_MAX <= y <= NOISE_COORD_MAX,
            -NOISE_COORD_MAX <= z <= NOISE_COORD_MAX,
        ensures
            r == self.at_spec(x as int, y as int, z as int),
            -FP <= r <= FP,
    ;
}

/// The bit mix behind the hash noise: three multiplied lane keys folded
/// into the seed, then finalized with shifts.
pub open spec fn noise_mix(seed: u64, xs: u64, ys: u64, zs: u64) -> u64 {
    let a = seed ^ xs.wrapping_mul(0x9E37_79B9_7F4A_7C15);
    let b = a ^ ys.wrapping_mul(0xC2B2_AE3D_27D4_EB4F);
    let c = b ^ zs.wrapping_mul(0x1656_67B1_9E37_79F9);
    let d = c ^ (c >> 29);
    let e = d.wrapping_mul(0xBF58_476D_1CE4_E5B9);
    e ^ (e >> 32)
}

/// A seeded integer hash noise: deterministic, uncorrelated lattice values
/// in `[-FP, FP]`.
#[derive(Clone, Copy)]
pub struct HashNoise {
    pub seed: u64,
}

impl Field for HashNoise {
    open spec fn at_spec(&self, x: int, y: int, z: int) -> int {
        let h = noise_mix(
            self.seed,
            (x + NOISE_COORD_MAX) as u64,
            (y + NOISE_COORD_MAX) as u64,
            (z + NOISE_COORD_MAX) as u64,
        );
        (h % 2049) - FP
    }

    fn at(&self, x: i64, y: i64, z: i64) -> (r: i64) {
        let xs: u64 = (x + NOISE_COORD_MAX) as u64;
        let ys: u64 = (y + NOISE_COORD_MAX) as u64;
        let zs: u64 = (z + NOISE_COORD_MAX) as u64;
        let a: u64 = self.seed ^ xs.wrapping_mul(0x9E37_79B9_7F4A_7C15);
        let b: u64 = a ^ ys.wrapping_mul(0xC2B2_AE3D_27D4_EB4F);
        let c: u64 = b ^ zs.wrapping_mul(0x1656_67B1_9E37_79F9);
        let d: u64 = c ^ (c >> 29);
        let e: u64 = d.wrapping_mul(0xBF58_476D_1CE4_E5B9);
        let h: u64 = e ^ (e >> 32);
        let m: u64 = h % 2049;
        proof {
            lemma_mod_bound(h as int, 2049);
        }
        (m as i64) - FP
    }
}

/// A noise-driven corona: a square region around a center, a radius
/// parameter scaling the brightness.
#[derive(Clone, Copy)]
pub struct Glow {
    pub center: (i64, i64),
    pub radius: i64,
    pub size: i64,
}

/// Glow parameters in range.
pub open spec fn glow_wf(g: Glow) -> bool {
    &&& -POS_LIMIT <= g.center.0 <= POS_LIMIT
    &&& -POS_LIMIT <= g.center.1 <= POS_LIMIT
    &&& 1 <= g.radius <= 64
    &&& 1 <= g.size <= 256
}

/// One glow pass at a pixel: remap the field value to `[0, 256]`, square
/// and scale it, subtract it from the squared radial distance saturating at
/// zero, floor the result at one, and take the inverse relationship,
/// clamped to a byte.
pub open spec fn glow_level(n: int, g: Glow, px: int, py: int) -> int {
    let v = (n + FP) / 8;
    let s = (v * v) / 4;
    let dx = px - g.center.0;
    let dy = py - g.center.1;
    let d2 = dx * dx + dy * dy;
    let q = if d2 > s {
        d2 - s
    } else {
        0
    };
    let q1 = if q < 1 {
        1
    } else {
        q
    };
    clamp_spec((256 * g.radius) / q1, 0, 255)
}

/// The color a glow paints at a pixel, in the buffer's BGRA channel order:
/// a red-dominant first pass (full red, quarter green, eighth blue); when
/// it saturates, a second field evaluation at shifted coordinates carves a
/// brighter core with a reduced green channel.
pub open spec fn glow_pix_spec<F: Field>(f: F, g: Glow, t: int, dim: int, px: int, py: int) -> (
    u8,
    u8,
    u8,
    u8,
) {
    let az = t / 1000;
    let ax = px / 20 + az;
    let ay = py / 20 + sin_fp_spec((1000 * px) / dim) / 64;
    let b1 = glow_level(f.at_spec(ax, ay, az), g, px, py);
    if b1 < 255 {
        ((b1 / 8) as u8, (b1 / 4) as u8, b1 as u8, b1 as u8)
    } else {
        let b2 = glow_level(f.at_spec(ax + 31, ay + 17, az + 11), g, px, py);
        ((b2 / 4) as u8, (b2 / 8) as u8, 255u8, 255u8)
    }
}

fn glow_level_at(n: i64, g: &Glow, px: usize, py: usize) -> (b: i64)
    requires
        -FP <= n <= FP,
        glow_wf(*g),
        px <= MAX_DIM,
        py <= MAX_DIM,
    ensures
        b == glow_level(n as int, *g, px as int, py as int),
        0 <= b <= 255,
{
    let v: i64 = div_nn(n + FP, 8);
    proof {
        lemma_div_nonincreasing((n + FP) as int, 8);
        lemma_div_pos_is_pos((n + FP) as int, 8);
        assert(0 <= v * v <= 65536 * 65536) by (nonlinear_arith)
            requires
                0 <= v <= 65536,
        ;
    }
    let s: i64 = div_nn(v * v, 4);
    let dx: i64 = px as i64 - g.center.0;
    let dy: i64 = py as i64 - g.center.1;
    proof {
        lemma_div_nonincreasing((v * v) as int, 4);
        lemma_div_pos_is_pos((v * v) as int, 4);
        assert(0 <= dx * dx <= 18_490_000_000_000 && 0 <= dy * dy <= 18_490_000_000_000)
            by (nonlinear_arith)
            requires
                -4_300_000 <= dx <= 4_300_000,
                -4_300_000 <= dy <= 4_300_000,
        ;
    }
    let d2: i64 = dx * dx + dy * dy;
    let q: i64 = if d2 > s {
        d2 - s
    } else {
        0
    };
    let q1: i64 = if q < 1 {
        1
    } else {
        q
    };
    clamp_i64(div_fl(256 * g.radius, q1), 0, 255)
}

/// Compute the color a glow paints at pixel `(px, py)` over field `f`.
pub fn glow_pixel<F: Field>(f: &F, g: &Glow, t: u64, dim: i64, px: usize, py: usize) -> (c: (
    u8,
    u8,
    u8,
    u8,
))
    requires
        glow_wf(*g),
        t <= T_MAX,
        1 <= dim <= MAX_DIM,
        px <= MAX_DIM,
        py <= MAX_DIM,
    ensures
        c == glow_pix_spec(*f, *g, t as int, dim as int, px as int, py as int),
{
    let az: i64 = (t / 1000) as i64;
    proof {
        lemma_div_nonincreasing(t as int, 1000);
        lemma_div_pos_is_pos(t as int, 1000);
        lemma_div_nonincreasing((1000 * px) as int, dim as int);
        lemma_div_pos_is_pos((1000 * px) as int, dim as int);
        lemma_div_nonincreasing((px / 20) as int, 1);
    }
    let ax: i64 = (px / 20) as i64 + az;
    let sv: i64 = sin_fp(((1000 * px as u64) / (dim as u64)) as i64);
    let ay: i64 = (py / 20) as i64 + div_fl(sv, 64);
    let n1 = f.at(ax, ay, az);
    let b1 = glow_level_at(n1, g, px, py);
    if b1 < 255 {
        ((b1 / 8) as u8, (b1 / 4) as u8, b1 as u8, b1 as u8)
    } else {
        let n2 = f.at(ax + 31, ay + 17, az + 11);
        let b2 = glow_level_at(n2, g, px, py);
        ((b2 / 4) as u8, (b2 / 8) as u8, 255u8, 255u8)
    }
}

/// Pick one channel of a color.
pub open spec fn tuple_chan(c: (u8, u8, u8, u8), ch: int) -> u8 {
    if ch == 0 {
        c.0
    } else if ch == 1 {
        c.1
    } else if ch == 2 {
        c.2
    } else {
        c.3
    }
}

spec fn in_glow_prog(k: int, w: int, lx: int, ly: int, oy: int, ci: int, cj: int) -> bool {
    let p = k / 4;
    let px = p % w;
    let py = p / w;
    (lx <= px && px < ci && ly <= py && py < oy) || (px == ci && ly <= py && py < cj)
}

spec fn glow_prog_frame<F: Field>(
    s: Seq<u8>,
    f: F,
    g: Glow,
    t: int,
    dim: int,
    w: int,
    lx: int,
    ly: int,
    oy: int,
    ci: int,
    cj: int,
) -> Seq<u8> {
    Seq::new(
        s.len(),
        |k: int|
            if in_glow_prog(k, w, lx, ly, oy, ci, cj) {
                max8(s[k], tuple_chan(glow_pix_spec(f, g, t, dim, (k / 4) % w, (k / 4) / w), k % 4))
            } else {
                s[k]
            },
    )
}

/// The frame after rasterizing one glow at time `t` over `s`: every channel
/// of every pixel in the glow's clamped square region is max-merged with
/// the glow's color there.
pub open spec fn draw_glow_spec<F: Field>(
    s: Seq<u8>,
    f: F,
    g: Glow,
    t: int,
    w: int,
    h: int,
) -> Seq<u8> {
    let dim = if w < h {
        w
    } else {
        h
    };
    let lx = clamp_spec(g.center.0 - g.size, 0, w);
    let ox = clamp_spec(g.center.0 + g.size, 0, w);
    let ly = clamp_spec(g.center.1 - g.size, 0, h);
    let oy = clamp_spec(g.center.1 + g.size, 0, h);
    Seq::new(
        s.len(),
        |k: int|
            if ({
                let p = k / 4;
                let px = p % w;
                let py = p / w;
                lx <= px && px < ox && ly <= py && py < oy
            }) {
                max8(s[k], tuple_chan(glow_pix_spec(f, g, t, dim, (k / 4) % w, (k / 4) / w), k % 4))
            } else {
                s[k]
            },
    )
}

/// Rasterize one noise-driven glow into the frame buffer with the
/// max-merge policy.
pub fn draw_glow<F: Field>(buf: &mut Vec<u8>, f: &F, g: &Glow, t: u64, w: usize, h: usize)
    requires
        glow_wf(*g),
        t <= T_MAX,
        1 <= w <= MAX_DIM,
        1 <= h <= MAX_DIM,
        old(buf)@.len() == 4 * w * h,
    ensures
        final(buf)@ == draw_glow_spec(old(buf)@, *f, *g, t as int, w as int, h as int),
        final(buf)@.len() == old(buf)@.len(),
{
    let dim: i64 = if w < h {
        w as i64
    } else {
        h as i64
    };
    let lx: usize = clamp_i64(g.center.0 - g.size, 0, w as i64) as usize;
    let ox: usize = clamp_i64(g.center.0 + g.size, 0, w as i64) as usize;
    let ly: usize = clamp_i64(g.center.1 - g.size, 0, h as i64) as usize;
    let oy: usize = clamp_i64(g.center.1 + g.size, 0, h as i64) as usize;
    let ghost s0 = buf@;
    proof {
        broadcast use vstd::std_specs::vec::axiom_spec_len;
        assert(vstd::std_specs::vec::spec_vec_len(buf) == buf@.len());
        assert(s0.len() <= usize::MAX);
    }
    let ghost ti = t as int;
    let ghost di = dim as int;
    let ghost wi = w as int;
    let ghost lxi = lx as int;
    let ghost oxi = ox as int;
    let ghost lyi = ly as int;
    let ghost oyi = oy as int;
    proof {
        assert(buf@ =~= glow_prog_frame(s0, *f, *g, ti, di, wi, lxi, lyi, oyi, lxi, lyi));
    }
    let mut i: usize = lx;
    while i < ox
        invariant
            lxi <= i as int,
            lxi < oxi ==> i as int <= oxi,
            lxi >= oxi ==> i as int == lxi,
            lxi == lx as int,
            oxi == ox as int,
            lyi == ly as int,
            oyi == oy as int,
            wi == w as int,
            ti == t as int,
            di == dim as int,
            1 <= dim <= MAX_DIM,
            t <= T_MAX,
            glow_wf(*g),
            1 <= w <= MAX_DIM,
            1 <= h <= MAX_DIM,
            ox <= w,
            oy <= h,
            buf@.len() == s0.len(),
            s0.len() == 4 * w * h,
            s0.len() <= usize::MAX,
            buf@ == glow_prog_frame(s0, *f, *g, ti, di, wi, lxi, lyi, oyi, i as int, lyi),
        decreases ox - i,
    {
        let mut j: usize = ly;
        proof {
            assert(glow_prog_frame(s0, *f, *g, ti, di, wi, lxi, lyi, oyi, i as int, lyi)
                =~= glow_prog_frame(s0, *f, *g, ti, di, wi, lxi, lyi, oyi, i as int, j as int));
        }
        while j < oy
            invariant
                lyi <= j as int,
                lyi < oyi ==> j as int <= oyi,
                lyi >= oyi ==> j as int == lyi,
                lxi <= i as int,
                (i as int) < oxi,
                lxi == lx as int,
                oxi == ox as int,
                lyi == ly as int,
                oyi == oy as int,
                wi == w as int,
                ti == t as int,
                di == dim as int,
                1 <= dim <= MAX_DIM,
                t <= T_MAX,
                glow_wf(*g),
                1 <= w <= MAX_DIM,
                1 <= h <= MAX_DIM,
                i < ox,
                ox <= w,
                oy <= h,
                buf@.len() == s0.len(),
                s0.len() == 4 * w * h,
                s0.len() <= usize::MAX,
                buf@ == glow_prog_frame(s0, *f, *g, ti, di, wi, lxi, lyi, oyi, i as int, j as int),
            decreases oy - j,
        {
            proof {
                assert(j * w + i < w * h && 4 * (j * w + i) + 3 < 4 * w * h && w * h <= 4 * w
                    * h) by (nonlinear_arith)
                    requires
                        j < h,
                        i < w,
                        1 <= w,
                        1 <= h,
                ;
            }
            let c = glow_pixel(f, g, t, dim, i, j);
            let base: usize = 4 * (j * w + i);
            proof {
                assert(base + 3 < buf@.len());
            }
            let ghost before = buf@;
            max_merge_at(buf, base, c.0);
            max_merge_at(buf, base + 1, c.1);
            max_merge_at(buf, base + 2, c.2);
            max_merge_at(buf, base + 3, c.3);
            proof {
                let pi = (j * w + i) as int;
                let bi = base as int;
                lemma_fundamental_div_mod_converse(pi, wi, j as int, i as int);
                assert forall|k: int| 0 <= k < s0.len() implies buf@[k] == glow_prog_frame(
                    s0, *f, *g, ti, di, wi, lxi, lyi, oyi, i as int, j as int + 1)[k] by {
                    if bi <= k < bi + 4 {
                        lemma_fundamental_div_mod_converse(k, 4, pi, k - bi);
                        assert(before[k] == s0[k]);
                        assert(buf@[k] == max8(s0[k], tuple_chan(glow_pix_spec(*f, *g, ti, di, (k
                            / 4) % wi, (k / 4) / wi), k % 4)));
                    } else {
                        lemma_fundamental_div_mod(k, 4);
                        let pk = k / 4;
                        lemma_fundamental_div_mod(pk, wi);
                        assert(buf@[k] == before[k]);
                        if pk % wi == i as int && pk / wi == j as int {
                            assert(pk == wi * (pk / wi) + pk % wi);
                            assert(wi * (j as int) == (j as int) * wi) by (nonlinear_arith);
                            assert(pk == pi);
                            assert(false);
                        }
                    }
                }
                assert(buf@ =~= glow_prog_frame(s0, *f, *g, ti, di, wi, lxi, lyi, oyi, i as int,
                    j as int + 1));
            }
            j += 1;
        }
        proof {
            assert(glow_prog_frame(s0, *f, *g, ti, di, wi, lxi, lyi, oyi, i as int, j as int)
                =~= glow_prog_frame(s0, *f, *g, ti, di, wi, lxi, lyi, oyi, i as int + 1, lyi));
        }
        i += 1;
    }
    proof {
        assert(buf@ =~= draw_glow_spec(s0, *f, *g, ti, wi, h as int));
    }
}

} // verus!
