use meshwave::Point;
use meshwave::config::{Config, NOISE_UNIT};
use meshwave::field::Field;
use noise::{NoiseFn, SuperSimplex};

fn standard() -> Config {
    // noise scale 300 px, change speed 0.1, noise range 100 px.
    Config::standard()
}

/// One noise sample as the fixed-point value the library takes, clamped to
/// `[-NOISE_UNIT, NOISE_UNIT]`.
fn sample_micro(noise: &SuperSimplex, input: &meshwave::warp::NoiseInput) -> i64 {
    let v = noise.get([
        input.x as f64 / 1e6,
        input.y as f64 / 1e6,
        input.t as f64 / 1e6,
    ]);
    let scaled = (v * NOISE_UNIT as f64).round() as i64;
    scaled.clamp(-NOISE_UNIT, NOISE_UNIT)
}

#[test]
fn zero_time_samples_one_noise_point() {
    // At t = 0 both axes read the noise field at the same point, so with any
    // deterministic noise function the two displacements are equal.
    let cfg = standard();
    let p = Point::new(12_345, -6_789);
    let (a, b) = cfg.warp_inputs(p, 0);
    assert_eq!(a.t, 0);
    assert_eq!(a, b);

    let noise = SuperSimplex::new(7);
    let s = sample_micro(&noise, &a);
    let q = cfg.displace(p, s, s);
    assert_eq!(q.x - p.x, q.y - p.y);
}

#[test]
fn moving_clock_separates_the_axes() {
    // With change speed 0.1 per time unit, one time unit (1000 thousandths)
    // puts the two evaluations 0.1 noise units apart in opposite directions.
    let cfg = standard();
    let (a, b) = cfg.warp_inputs(Point::new(5_000, 5_000), 1_000);
    assert_eq!(a.t, 100_000);
    assert_eq!(b.t, -100_000);
    assert_eq!(a.x, b.x);
    assert_eq!(a.y, b.y);
    assert_ne!(a, b);
}

#[test]
fn noise_coordinates_are_scaled_positions() {
    // 300 px into a 300 px noise scale is exactly one noise unit.
    let cfg = standard();
    let (a, _) = cfg.warp_inputs(Point::new(300_000, -150_000), 0);
    assert_eq!(a.x, 1_000_000);
    assert_eq!(a.y, -500_000);
}

#[test]
fn displacement_is_exact_fixed_point_scaling() {
    let cfg = standard();
    let p = Point::new(0, 0);
    // A full-range sample moves a mark by exactly the noise range.
    let q = cfg.displace(p, NOISE_UNIT, -NOISE_UNIT);
    assert_eq!(q.x, 100_000);
    assert_eq!(q.y, -100_000);
    // Half and quarter samples scale linearly; tiny samples truncate to zero.
    let q = cfg.displace(p, 500_000, -250_000);
    assert_eq!(q.x, 50_000);
    assert_eq!(q.y, -25_000);
    let q = cfg.displace(p, 9, -9);
    assert_eq!(q.x, 0);
    assert_eq!(q.y, 0);
}

#[test]
fn displacement_never_exceeds_noise_range() {
    let cfg = standard();
    let noise = SuperSimplex::new(1234);
    let mut t = 0i64;
    while t <= 5_000 {
        let mut x = -100_000i64;
        while x <= 200_000 {
            let p = Point::new(x, x / 2);
            let (ax, ay) = cfg.warp_inputs(p, t);
            let sx = sample_micro(&noise, &ax);
            let sy = sample_micro(&noise, &ay);
            let q = cfg.displace(p, sx, sy);
            assert!((q.x - p.x).abs() <= cfg.noise_range);
            assert!((q.y - p.y).abs() <= cfg.noise_range);
            x += 17_000;
        }
        t += 1_000;
    }
}

#[test]
fn warp_frame_displaces_pointwise() {
    let cfg = standard();
    let noise = SuperSimplex::new(99);
    let field = Field::new(cfg, 100_000, 100_000);
    let cells = field.sample_marks(5);
    assert!(!cells.is_empty());

    let mut samples = Vec::new();
    for c in &cells {
        let (ax, ay) = cfg.warp_inputs(*c, 2_500);
        samples.push((sample_micro(&noise, &ax), sample_micro(&noise, &ay)));
    }
    let out = cfg.warp_frame(&cells, &samples);
    assert_eq!(out.len(), cells.len());
    for n in 0..out.len() {
        let q = cfg.displace(cells[n], samples[n].0, samples[n].1);
        assert_eq!(out[n], q);
        // Edge continuity: every painted mark stays within one noise range
        // of the sampled band, itself one margin past the surface.
        assert!(out[n].x >= -2 * cfg.noise_range);
        assert!(out[n].x < 100_000 + 2 * cfg.noise_range);
    }
}
