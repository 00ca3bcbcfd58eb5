use kessler::blend::max_merge_at;
use kessler::blend::put_at;
use kessler::blend::sat_add_at;
use kessler::curves::standard_curves;
use kessler::fixed::clamp_i64;
use kessler::fixed::cos_fp;
use kessler::fixed::div_fl;
use kessler::fixed::isqrt;
use kessler::fixed::sin_fp;
use kessler::render::bezier_point;
use kessler::render::faded_channel;
use kessler::scene::Flake;
use kessler::scene::Scene;

#[test]
fn bezier_starts_at_beg() {
    let p = bezier_point((3, 4), (100, 200), (7, 8), 0);
    assert_eq!(p, (3, 4));
}

#[test]
fn bezier_ends_at_end() {
    let p = bezier_point((3, 4), (100, 200), (7, 8), 10_000);
    assert_eq!(p, (7, 8));
}

#[test]
fn bezier_midpoint_exact() {
    // at half the span both weights are one quarter:
    // 0 + (2500 * (0 - 0) + 2500 * (100 - 0)) / 10000 with weights 5000^2
    let p = bezier_point((0, 0), (0, 0), (100, 200), 5_000);
    assert_eq!(p, (25, 50));
}

#[test]
fn fade_scales_contributions() {
    assert_eq!(faded_channel(200, 0), 200);
    assert_eq!(faded_channel(200, 5_000), 100);
    assert_eq!(faded_channel(200, 10_000), 0);
    assert_eq!(faded_channel(200, 12_000), 0);
    assert_eq!(faded_channel(255, 9_999), 0);
}

#[test]
fn saturating_accumulate_caps_at_255() {
    let mut buf = vec![250u8, 0u8];
    sat_add_at(&mut buf, 0, 10);
    assert_eq!(buf[0], 255);
    sat_add_at(&mut buf, 0, 200);
    assert_eq!(buf[0], 255);
    sat_add_at(&mut buf, 1, 0);
    assert_eq!(buf[1], 0);
}

#[test]
fn max_merge_keeps_brightest() {
    let mut buf = vec![100u8];
    max_merge_at(&mut buf, 0, 50);
    assert_eq!(buf[0], 100);
    max_merge_at(&mut buf, 0, 150);
    assert_eq!(buf[0], 150);
}

#[test]
fn overwrite_sets_unconditionally() {
    let mut buf = vec![100u8];
    put_at(&mut buf, 0, 3);
    assert_eq!(buf[0], 3);
}

#[test]
fn single_particle_draws_faded_square() {
    let s = Scene {
        width: 8,
        height: 8,
        floor: 0,
        cap: 10,
        lifetime_ms: 11_000,
        curves: standard_curves(8, 8),
        flakes: vec![Flake {
            color: (10, 20, 30, 40),
            beg: (4, 4),
            mid: (4, 4),
            end: (4, 4),
            start: 0,
        }],
        root: (4, 4),
        now: 0,
    };
    let mut buf = vec![0u8; 4 * 8 * 8];
    s.render(&mut buf, 8, 8).unwrap();
    // the square covers pixels [2, 6) x [2, 6); age 0 means no fade
    for j in 0..8usize {
        for i in 0..8usize {
            let base = 4 * (j * 8 + i);
            if (2..6).contains(&i) && (2..6).contains(&j) {
                assert_eq!(buf[base], 10);
                assert_eq!(buf[base + 1], 20 / 4);
                assert_eq!(buf[base + 2], 30 / 2);
                assert_eq!(buf[base + 3], 40);
            } else {
                assert_eq!(&buf[base..base + 4], &[0, 0, 0, 0]);
            }
        }
    }
}

#[test]
fn overlapping_particles_accumulate_with_saturation() {
    let flake = Flake {
        color: (200, 0, 0, 200),
        beg: (4, 4),
        mid: (4, 4),
        end: (4, 4),
        start: 0,
    };
    let s = Scene {
        width: 8,
        height: 8,
        floor: 0,
        cap: 10,
        lifetime_ms: 11_000,
        curves: standard_curves(8, 8),
        flakes: vec![flake, flake],
        root: (4, 4),
        now: 0,
    };
    let mut buf = vec![0u8; 4 * 8 * 8];
    s.render(&mut buf, 8, 8).unwrap();
    let base = 4 * (4 * 8 + 4);
    assert_eq!(buf[base], 255);  // 200 + 200 saturates
    assert_eq!(buf[base + 3], 255);
}

#[test]
fn trig_exact_values() {
    assert_eq!(sin_fp(0), 0);
    assert_eq!(sin_fp(1571), 1024);
    assert_eq!(cos_fp(0), 1024);
    assert_eq!(sin_fp(4713), -1024);
    assert!(sin_fp(700) > 0);
    // negative angles reduce by the Euclidean remainder of a full turn
    assert_eq!(sin_fp(-700), sin_fp(5584));
}

#[test]
fn isqrt_exact_values() {
    assert_eq!(isqrt(0), 0);
    assert_eq!(isqrt(24), 4);
    assert_eq!(isqrt(25), 5);
    assert_eq!(isqrt(u64::MAX), 0xFFFF_FFFF);
}

#[test]
fn floor_division_rounds_down() {
    assert_eq!(div_fl(7, 2), 3);
    assert_eq!(div_fl(-7, 2), -4);
    assert_eq!(div_fl(-8, 2), -4);
    assert_eq!(div_fl(0, 5), 0);
}

#[test]
fn clamp_bounds() {
    assert_eq!(clamp_i64(-3, 0, 10), 0);
    assert_eq!(clamp_i64(12, 0, 10), 10);
    assert_eq!(clamp_i64(4, 0, 10), 4);
}

#[test]
fn faded_particle_draws_at_half_brightness() {
    let s = Scene {
        width: 8,
        height: 8,
        floor: 0,
        cap: 10,
        lifetime_ms: 11_000,
        curves: standard_curves(8, 8),
        flakes: vec![Flake {
            color: (200, 0, 0, 200),
            beg: (4, 4),
            mid: (4, 4),
            end: (4, 4),
            start: 0,
        }],
        root: (4, 4),
        now: 5_000,
    };
    let mut buf = vec![0u8; 4 * 8 * 8];
    s.render(&mut buf, 8, 8).unwrap();
    let base = 4 * (4 * 8 + 4);
    assert_eq!(buf[base], 100);
    assert_eq!(buf[base + 1], 0);
    assert_eq!(buf[base + 2], 0);
    assert_eq!(buf[base + 3], 100);
}

#[test]
fn standard_curve_exact_values() {
    let curves = standard_curves(800, 600);
    assert_eq!(curves.len(), 5);
    // the arc towards the top edge, at time zero
    let top = curves[0].eval(0);
    assert_eq!(top.mid, (400, 150));
    assert_eq!(top.end, (457, 0));
    // the circling pair, at time zero
    let circ = curves[4].eval(0);
    assert_eq!(circ.mid, (269, 186));
    assert_eq!(circ.end, (800, 300));
}
