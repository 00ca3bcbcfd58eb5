//! Trajectory generators: pure functions from elapsed time to the control and
//! end points of a particle's curve, kept as a small set of oscillator
//! parameters instead of stored closures.

use vstd::prelude::*;
use crate::fixed::FP;
use crate::fixed::cos_fp;
use crate::fixed::cos_fp_spec;
use crate::fixed::div_fl;
use crate::fixed::sin_fp;
use crate::fixed::sin_fp_spec;
use vstd::arithmetic::div_mod::lemma_fundamental_div_mod;
use vstd::arithmetic::div_mod::lemma_mod_bound;
use vstd::arithmetic::div_mod::lemma_div_nonincreasing;
use vstd::arithmetic::div_mod::lemma_div_pos_is_pos;

verus! {

/// Latest timestamp (milliseconds) the scene accepts.
pub const T_MAX: u64 = 0x100_0000_0000;

/// Bound on an oscillator's amplitude, offset and phase magnitude.
pub const OSC_PARAM_MAX: i64 = 1_000_000;

/// Bound on an oscillator's time divisor.
pub const OSC_DIV_MAX: i64 = 1000;

/// Bound on the magnitude of an oscillator's value.
pub const OSC_VAL_MAX: i64 = 2_000_000;

/// Which wave an oscillator follows.
#[derive(Clone, Copy, PartialEq, Eq, Structural)]
pub enum Wave {
    Sine,
    Cosine,
}

/// One coordinate of a trajectory point: `amp * wave(t / t_div + phase) / FP
/// + off`, with `t` in milliseconds and angles in milliradians. A constant
/// coordinate is an oscillator with amplitude zero.
#[derive(Clone, Copy)]
pub struct Osc {
    pub amp: i64,
    pub t_div: i64,
    pub phase: i64,
    pub off: i64,
    pub wave: Wave,
}

/// Parameter bounds under which oscillator evaluation stays in range.
pub open spec fn osc_wf(o: Osc) -> bool {
    &&& 1 <= o.t_div <= OSC_DIV_MAX
    &&& -OSC_PARAM_MAX <= o.amp <= OSC_PARAM_MAX
    &&& -OSC_PARAM_MAX <= o.phase <= OSC_PARAM_MAX
    &&& -OSC_PARAM_MAX <= o.off <= OSC_PARAM_MAX
}

/// The value of an oscillator at time `t`.
pub open spec fn osc_at(o: Osc, t: int) -> int {
    let s = match o.wave {
        Wave::Sine => sin_fp_spec(t / o.t_div as int + o.phase),
        Wave::Cosine => cos_fp_spec(t / o.t_div as int + o.phase),
    };
    (o.amp * s) / FP as int + o.off
}

impl Osc {
    /// Evaluate the oscillator at time `t` (milliseconds).
    pub fn eval(&self, t: u64) -> (r: i64)
        requires
            osc_wf(*self),
            t <= T_MAX,
        ensures
            r == osc_at(*self, t as int),
            -OSC_VAL_MAX <= r <= OSC_VAL_MAX,
    {
        proof {
            lemma_div_nonincreasing(t as int, self.t_div as int);
            lemma_div_pos_is_pos(t as int, self.t_div as int);
        }
        let base: i64 = (t / (self.t_div as u64)) as i64;
        let angle: i64 = base + self.phase;
        let s: i64 = match self.wave {
            Wave::Sine => sin_fp(angle),
            Wave::Cosine => cos_fp(angle),
        };
        proof {
            assert(-OSC_PARAM_MAX * FP <= self.amp * s <= OSC_PARAM_MAX * FP)
                by (nonlinear_arith)
                requires
                    -OSC_PARAM_MAX <= self.amp <= OSC_PARAM_MAX,
                    -FP <= s <= FP,
                    0 < FP,
            ;
        }
        let prod: i64 = self.amp * s;
        let q: i64 = div_fl(prod, FP);
        proof {
            lemma_fundamental_div_mod(prod as int, FP as int);
            lemma_mod_bound(prod as int, FP as int);
            assert(-OSC_PARAM_MAX <= (prod as int) / (FP as int) <= OSC_PARAM_MAX)
                by (nonlinear_arith)
                requires
                    -OSC_PARAM_MAX * FP <= prod <= OSC_PARAM_MAX * FP,
                    prod as int == FP * ((prod as int) / (FP as int)) + ((prod as int) % (
                    FP as int)),
                    0 <= (prod as int) % (FP as int) < FP,
                    0 < FP,
            ;
        }
        q + self.off
    }
}

/// The control and end point of one particle trajectory at a given time.
#[derive(Clone, Copy)]
pub struct Curve {
    pub mid: (i64, i64),
    pub end: (i64, i64),
}

/// A trajectory generator: oscillators for the control point and the end
/// point of the curve.
#[derive(Clone, Copy)]
pub struct CurveGen {
    pub mid: (Osc, Osc),
    pub end: (Osc, Osc),
}

/// All four oscillators of a generator are in range.
pub open spec fn curve_gen_wf(g: CurveGen) -> bool {
    osc_wf(g.mid.0) && osc_wf(g.mid.1) && osc_wf(g.end.0) && osc_wf(g.end.1)
}

/// The trajectory of generator `g` at time `t`.
pub open spec fn curve_at(g: CurveGen, t: int) -> Curve {
    Curve {
        mid: (osc_at(g.mid.0, t) as i64, osc_at(g.mid.1, t) as i64),
        end: (osc_at(g.end.0, t) as i64, osc_at(g.end.1, t) as i64),
    }
}

impl CurveGen {
    /// Evaluate the generator at time `t` (milliseconds).
    pub fn eval(&self, t: u64) -> (c: Curve)
        requires
            curve_gen_wf(*self),
            t <= T_MAX,
        ensures
            c == curve_at(*self, t as int),
            -OSC_VAL_MAX <= c.mid.0 <= OSC_VAL_MAX,
            -OSC_VAL_MAX <= c.mid.1 <= OSC_VAL_MAX,
            -OSC_VAL_MAX <= c.end.0 <= OSC_VAL_MAX,
            -OSC_VAL_MAX <= c.end.1 <= OSC_VAL_MAX,
    {
        Curve {
            mid: (self.mid.0.eval(t), self.mid.1.eval(t)),
            end: (self.end.0.eval(t), self.end.1.eval(t)),
        }
    }
}

/// A coordinate fixed at `v`.
pub open spec fn const_osc_spec(v: i64) -> Osc {
    Osc { amp: 0, t_div: 1, phase: 0, off: v, wave: Wave::Sine }
}

fn const_osc(v: i64) -> (o: Osc)
    ensures
        o == const_osc_spec(v),
{
    Osc { amp: 0, t_div: 1, phase: 0, off: v, wave: Wave::Sine }
}

/// A coordinate swinging as `amp * wave(t / t_div + phase) / FP + off`.
pub open spec fn wave_osc_spec(amp: i64, t_div: i64, phase: i64, off: i64, wave: Wave) -> Osc {
    Osc { amp: amp, t_div: t_div, phase: phase, off: off, wave: wave }
}

fn wave_osc(amp: i64, t_div: i64, phase: i64, off: i64, wave: Wave) -> (o: Osc)
    ensures
        o == wave_osc_spec(amp, t_div, phase, off, wave),
{
    Osc { amp: amp, t_div: t_div, phase: phase, off: off, wave: wave }
}

/// The built-in trajectory set for a `w` by `h` canvas: arcs towards the top,
/// bottom, left and right edges, and one circling pair.
pub open spec fn standard_curves_spec(w: usize, h: usize) -> Seq<CurveGen> {
    let wh = (w / 2) as i64;
    let hh = (h / 2) as i64;
    seq![
        CurveGen {
            mid: (
                wave_osc_spec(wh, 5, 0, wh, Wave::Sine),
                const_osc_spec((h / 4) as i64),
            ),
            end: (wave_osc_spec(wh, 10, 3000, wh, Wave::Sine), const_osc_spec(0)),
        },
        CurveGen {
            mid: (
                wave_osc_spec(wh, 6, 0, wh, Wave::Sine),
                const_osc_spec(((3 * (h as int)) / 4) as i64),
            ),
            end: (
                wave_osc_spec(wh, 12, -1000i64, wh, Wave::Sine),
                const_osc_spec(h as i64),
            ),
        },
        CurveGen {
            mid: (
                const_osc_spec((w / 4) as i64),
                wave_osc_spec(hh, 16, 0, hh, Wave::Cosine),
            ),
            end: (const_osc_spec(0), wave_osc_spec(hh, 8, -2000i64, hh, Wave::Cosine)),
        },
        CurveGen {
            mid: (
                const_osc_spec(((3 * (w as int)) / 4) as i64),
                wave_osc_spec(hh, 5, 4000, hh, Wave::Cosine),
            ),
            end: (
                const_osc_spec(w as i64),
                wave_osc_spec(hh, 10, 0, hh, Wave::Cosine),
            ),
        },
        CurveGen {
            mid: (
                wave_osc_spec((w / 4) as i64, 5, 4000, wh, Wave::Cosine),
                wave_osc_spec((h / 4) as i64, 5, 4000, hh, Wave::Sine),
            ),
            end: (
                wave_osc_spec(wh, 10, 0, wh, Wave::Cosine),
                wave_osc_spec(hh, 10, 0, hh, Wave::Sine),
            ),
        },
    ]
}

/// Build the built-in trajectory set for a `w` by `h` canvas.
pub fn standard_curves(w: usize, h: usize) -> (r: Vec<CurveGen>)
    requires
        1 <= w <= 4096,
        1 <= h <= 4096,
    ensures
        r@ == standard_curves_spec(w, h),
        r@.len() == 5,
        forall|i: int| 0 <= i < r@.len() ==> curve_gen_wf(#[trigger] r@[i]),
{
    let wh: i64 = (w / 2) as i64;
    let hh: i64 = (h / 2) as i64;
    let mut r: Vec<CurveGen> = Vec::new();
    r.push(
        CurveGen {
            mid: (wave_osc(wh, 5, 0, wh, Wave::Sine), const_osc((h / 4) as i64)),
            end: (wave_osc(wh, 10, 3000, wh, Wave::Sine), const_osc(0)),
        },
    );
    r.push(
        CurveGen {
            mid: (wave_osc(wh, 6, 0, wh, Wave::Sine), const_osc(((3 * h) / 4) as i64)),
            end: (wave_osc(wh, 12, -1000, wh, Wave::Sine), const_osc(h as i64)),
        },
    );
    r.push(
        CurveGen {
            mid: (const_osc((w / 4) as i64), wave_osc(hh, 16, 0, hh, Wave::Cosine)),
            end: (const_osc(0), wave_osc(hh, 8, -2000, hh, Wave::Cosine)),
        },
    );
    r.push(
        CurveGen {
            mid: (const_osc(((3 * w) / 4) as i64), wave_osc(hh, 5, 4000, hh, Wave::Cosine)),
            end: (const_osc(w as i64), wave_osc(hh, 10, 0, hh, Wave::Cosine)),
        },
    );
    r.push(
        CurveGen {
            mid: (
                wave_osc((w / 4) as i64, 5, 4000, wh, Wave::Cosine),
                wave_osc((h / 4) as i64, 5, 4000, hh, Wave::Sine),
            ),
            end: (
                wave_osc(wh, 10, 0, wh, Wave::Cosine),
                wave_osc(hh, 10, 0, hh, Wave::Sine),
            ),
        },
    );
    assert(r@ =~= standard_curves_spec(w, h));
    r
}

} // verus!
