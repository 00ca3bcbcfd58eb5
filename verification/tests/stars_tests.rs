use kessler::noise::Field;
use kessler::noise::Glow;
use kessler::noise::HashNoise;
use kessler::noise::draw_glow;
use kessler::noise::glow_pixel;
use kessler::stars::Star;
use kessler::stars::draw_star;
use kessler::stars::draw_stars;
use kessler::stars::star_pixel;

#[test]
fn star_brightness_exact_values() {
    let s = Star { pos: (8, 8), radius: 4 };
    // at the star's own pixel the divisor is one and the glow saturates
    assert_eq!(star_pixel(&s, 0, 8, 8), 255);
    // two pixels to the right: (1024 + offset) / 5
    assert_eq!(star_pixel(&s, 0, 10, 8), 209);
    // far corner of the box
    assert_eq!(star_pixel(&s, 0, 14, 14), 14);
}

#[test]
fn star_draw_covers_clamped_box_only() {
    let s = Star { pos: (8, 8), radius: 1 };
    let mut buf = vec![0u8; 4 * 16 * 16];
    draw_star(&mut buf, &s, 0, 16, 16);
    // the box is four radius parameters around the star: [4, 12) x [4, 12)
    let base_out = 4 * (0 * 16 + 0);
    assert_eq!(&buf[base_out..base_out + 4], &[0, 0, 0, 0]);
    let base_in = 4 * (8 * 16 + 8);
    assert_eq!(buf[base_in], 255);
}

#[test]
fn max_merge_never_darkens() {
    let s = Star { pos: (8, 8), radius: 4 };
    let mut buf = vec![200u8; 4 * 16 * 16];
    draw_star(&mut buf, &s, 123, 16, 16);
    assert!(buf.iter().all(|&b| b >= 200));
}

#[test]
fn star_list_draws_in_order() {
    let stars = vec![
        Star { pos: (4, 4), radius: 2 },
        Star { pos: (12, 12), radius: 2 },
    ];
    let mut buf = vec![0u8; 4 * 16 * 16];
    draw_stars(&mut buf, &stars, 0, 16, 16);
    assert_eq!(buf[4 * (4 * 16 + 4)], 255);
    assert_eq!(buf[4 * (12 * 16 + 12)], 255);
}

#[test]
fn noise_is_bounded_and_deterministic() {
    let f = HashNoise { seed: 7 };
    for (x, y, z) in [(0i64, 0i64, 0i64), (5, -3, 11), (1000, 2000, 3000)] {
        let v = f.at(x, y, z);
        assert!((-1024..=1024).contains(&v));
        assert_eq!(v, f.at(x, y, z));
    }
    // different seeds give a different field somewhere
    let g = HashNoise { seed: 8 };
    assert!((0..64).any(|i| f.at(i, 0, 0) != g.at(i, 0, 0)));
}

#[test]
fn glow_pixel_deterministic() {
    let f = HashNoise { seed: 1 };
    let g = Glow { center: (32, 32), radius: 16, size: 32 };
    let a = glow_pixel(&f, &g, 500, 64, 30, 30);
    let b = glow_pixel(&f, &g, 500, 64, 30, 30);
    assert_eq!(a, b);
}

#[test]
fn glow_draw_touches_region_only_and_never_darkens() {
    let f = HashNoise { seed: 1 };
    let g = Glow { center: (32, 32), radius: 16, size: 16 };
    let mut buf = vec![10u8; 4 * 64 * 64];
    draw_glow(&mut buf, &f, &g, 500, 64, 64);
    assert!(buf.iter().all(|&b| b >= 10));
    // a pixel outside the square region stays untouched
    let base = 4 * (2 * 64 + 2);
    assert_eq!(&buf[base..base + 4], &[10, 10, 10, 10]);
}

#[test]
fn glow_draw_is_idempotent() {
    let f = HashNoise { seed: 9 };
    let g = Glow { center: (20, 20), radius: 8, size: 12 };
    let mut once = vec![0u8; 4 * 40 * 40];
    draw_glow(&mut once, &f, &g, 777, 40, 40);
    let mut twice = once.clone();
    draw_glow(&mut twice, &f, &g, 777, 40, 40);
    assert_eq!(once, twice);
}
