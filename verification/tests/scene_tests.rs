use kessler::curves::standard_curves;
use kessler::scene::Config;
use kessler::scene::Error;
use kessler::scene::Scene;
use rand::SeedableRng;

fn rng(seed: u64) -> rand::rngs::StdRng {
    rand::rngs::StdRng::seed_from_u64(seed)
}

fn config(width: usize, height: usize, floor: usize, cap: usize) -> Config {
    Config {
        width,
        height,
        floor,
        cap,
        lifetime_ms: 11_000,
        curves: standard_curves(width, height),
    }
}

#[test]
fn anchor_exact_at_zero() {
    let mut s = Scene::new(config(800, 600, 50, 200_000)).unwrap();
    let mut r = rng(1);
    s.advance(0, &mut r);
    assert_eq!(s.root, (500, 300));
}

#[test]
fn anchor_exact_later() {
    let mut s = Scene::new(config(800, 600, 50, 200_000)).unwrap();
    let mut r = rng(1);
    s.advance(1234, &mut r);
    assert_eq!(s.root, (496, 282));
}

#[test]
fn anchor_deterministic_across_rngs() {
    let mut s1 = Scene::new(config(640, 480, 50, 200_000)).unwrap();
    let mut s2 = Scene::new(config(640, 480, 50, 200_000)).unwrap();
    let mut r1 = rng(7);
    let mut r2 = rng(99);
    for t in [0u64, 500, 1000, 7321, 50_000] {
        s1.advance(t, &mut r1);
        s2.advance(t, &mut r2);
        assert_eq!(s1.root, s2.root);
    }
}

#[test]
fn population_fills_to_floor_then_grows_to_cap() {
    let mut s = Scene::new(config(100, 100, 10, 15)).unwrap();
    let mut r = rng(3);
    s.advance(0, &mut r);
    assert_eq!(s.flakes.len(), 10);
    s.advance(1, &mut r);
    assert_eq!(s.flakes.len(), 15);
    s.advance(2, &mut r);
    assert_eq!(s.flakes.len(), 15);
}

#[test]
fn population_never_exceeds_cap() {
    let mut s = Scene::new(config(100, 100, 10, 15)).unwrap();
    let mut r = rng(4);
    for t in 0..200u64 {
        s.advance(t * 40, &mut r);
        assert!(s.flakes.len() <= 15);
    }
}

#[test]
fn particles_survive_until_lifetime() {
    let mut s = Scene::new(config(100, 100, 5, 100)).unwrap();
    let mut r = rng(5);
    s.advance(0, &mut r);
    assert_eq!(s.flakes.len(), 5);
    s.advance(5000, &mut r);
    assert_eq!(s.flakes.len(), 10);
    for i in 0..5 {
        assert_eq!(s.flakes[i].start, 0);
    }
    for i in 5..10 {
        assert_eq!(s.flakes[i].start, 5000);
    }
    // at 11 s the first batch's lifetime has elapsed; the second survives
    s.advance(11_000, &mut r);
    assert_eq!(s.flakes.len(), 10);
    for i in 0..5 {
        assert_eq!(s.flakes[i].start, 5000);
    }
}

#[test]
fn spawned_particles_start_near_anchor() {
    let mut s = Scene::new(config(300, 200, 40, 200)).unwrap();
    let mut r = rng(6);
    s.advance(2500, &mut r);
    for f in s.flakes.iter() {
        assert!((f.beg.0 - s.root.0).abs() <= 5);
        assert!((f.beg.1 - s.root.1).abs() <= 5);
    }
}

#[test]
fn config_error_bad_dimensions() {
    let r = Scene::new(config(0, 100, 10, 20));
    assert_eq!(r.err().unwrap(), Error::BadDimensions);
    let r = Scene::new(config(100, 70_000, 10, 20));
    assert_eq!(r.err().unwrap(), Error::BadDimensions);
}

#[test]
fn config_error_bad_population() {
    let r = Scene::new(config(100, 100, 30, 20));
    assert_eq!(r.err().unwrap(), Error::BadPopulation);
}

#[test]
fn config_error_bad_lifetime() {
    let mut c = config(100, 100, 10, 20);
    c.lifetime_ms = 0;
    assert_eq!(Scene::new(c).err().unwrap(), Error::BadLifetime);
}

#[test]
fn config_error_bad_curves() {
    let mut c = config(100, 100, 10, 20);
    c.curves = Vec::new();
    assert_eq!(Scene::new(c).err().unwrap(), Error::BadCurves);
}

#[test]
fn render_rejects_bad_buffer() {
    let s = Scene::new(config(4, 3, 1, 10)).unwrap();
    let mut buf = vec![7u8; 10];
    let r = s.render(&mut buf, 4, 3);
    assert_eq!(r.err().unwrap(), Error::BadBufferSize);
    assert_eq!(buf, vec![7u8; 10]);
    let mut buf2 = vec![7u8; 4 * 4 * 3];
    let r2 = s.render(&mut buf2, 5, 3);
    assert_eq!(r2.err().unwrap(), Error::BadBufferSize);
}

#[test]
fn render_empty_scene_is_black() {
    let s = Scene::new(config(4, 3, 1, 10)).unwrap();
    let mut buf = vec![9u8; 4 * 4 * 3];
    let r = s.render(&mut buf, 4, 3);
    assert!(r.is_ok());
    assert!(buf.iter().all(|&b| b == 0));
}

#[test]
fn frames_identical_for_identical_seed_and_times() {
    let times = [0u64, 40, 80, 120, 5000, 9000];
    let mut frames1: Vec<Vec<u8>> = Vec::new();
    let mut frames2: Vec<Vec<u8>> = Vec::new();
    for frames in [&mut frames1, &mut frames2] {
        let mut s = Scene::new(config(32, 24, 20, 100)).unwrap();
        let mut r = rng(42);
        for &t in times.iter() {
            s.advance(t, &mut r);
            let mut buf = vec![0u8; 4 * 32 * 24];
            s.render(&mut buf, 32, 24).unwrap();
            frames.push(buf);
        }
    }
    assert_eq!(frames1, frames2);
}
