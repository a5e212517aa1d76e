use meshwave::Point;
use meshwave::config::Config;
use meshwave::entropy::fresh_rng;
use meshwave::field::Field;
use meshwave::stream::DrawStream;

fn reactive_config() -> Config {
    // 0.1 samples per pixel, noise scale 300 px, noise range 100 px,
    // change speed 0.1, radius divisor 2.5, 1 px marks, falloff on.
    Config::new(100, 300_000, 100_000, 100, 2500, 1000, true, 800)
}

fn uniform_config(prob: i64) -> Config {
    Config::new(100, 300_000, 100_000, 100, 2500, 1000, false, prob)
}

#[test]
fn same_seed_same_frame() {
    let field = Field::new(reactive_config(), 100_000, 100_000);
    let a = field.sample_marks(42);
    let b = field.sample_marks(42);
    assert_eq!(a, b);
}

#[test]
fn same_seed_same_frame_after_rebuild() {
    let f1 = Field::new(reactive_config(), 80_000, 60_000);
    let f2 = Field::new(reactive_config(), 80_000, 60_000);
    assert_eq!(f1.sample_marks(7), f2.sample_marks(7));
}

#[test]
fn example_scenario_weights() {
    // A 100 x 100 px surface with the anchor at its center: the falloff
    // radius is 100 / 2.5 = 40 px.
    let cfg = reactive_config();
    let field = Field::new(cfg, 100_000, 100_000);
    assert_eq!(field.anchor_x, 50_000);
    assert_eq!(field.anchor_y, 50_000);
    assert_eq!(cfg.radius(100_000, 100_000), 40_000);

    // At the anchor the probability is exactly one.
    let (num, den) = field.inclusion_weights(50_000, 50_000);
    assert_eq!(num, den);

    // At distance 80 px, twice the radius, it is exactly 1/17.
    let (num, den) = field.inclusion_weights(130_000, 50_000);
    assert_eq!(den, 17 * num);
}

#[test]
fn weights_fall_with_distance() {
    let field = Field::new(reactive_config(), 100_000, 100_000);
    let (num_near, den_near) = field.inclusion_weights(60_000, 50_000);
    let (num_far, den_far) = field.inclusion_weights(70_000, 50_000);
    assert_eq!(num_near, num_far);
    assert!(den_near < den_far);
}

#[test]
fn anchor_cell_always_included_seeded() {
    let field = Field::new(reactive_config(), 100_000, 100_000);
    // The anchor (50, 50) px lies on the grid: -100 + 15 * 10 px.
    let anchor = Point::new(50_000, 50_000);
    for seed in 0..20u64 {
        let marks = field.sample_marks(seed);
        assert!(marks.contains(&anchor));
    }
}

#[test]
fn anchor_cell_always_included_random() {
    let field = Field::new(reactive_config(), 100_000, 100_000);
    let anchor = Point::new(50_000, 50_000);
    let mut rng = fresh_rng();
    for _ in 0..20 {
        let marks = field.sample_marks_random(&mut rng);
        assert!(marks.contains(&anchor));
    }
}

#[test]
fn degenerate_surface_yields_no_marks() {
    let flat = Field::new(reactive_config(), 0, 0);
    assert!(flat.sample_marks(3).is_empty());
    let line = Field::new(reactive_config(), 0, 100_000);
    assert!(line.sample_marks(3).is_empty());
    let mut rng = fresh_rng();
    assert!(flat.sample_marks_random(&mut rng).is_empty());
}

#[test]
fn certain_uniform_keeps_every_candidate() {
    // 100 x 100 px surface, 100 px margin, 10 px step: 30 x 30 candidates.
    let field = Field::new(uniform_config(1000), 100_000, 100_000);
    let marks = field.sample_marks(9);
    assert_eq!(marks.len(), 900);
    assert_eq!(marks[0], Point::new(-100_000, -100_000));
    assert_eq!(marks[899], Point::new(190_000, 190_000));
}

#[test]
fn impossible_uniform_keeps_none() {
    let field = Field::new(uniform_config(0), 100_000, 100_000);
    assert!(field.sample_marks(9).is_empty());
}

#[test]
fn grid_covers_one_margin_of_overscan() {
    // A 2 x 2 px surface with a 1 px margin sampled every pixel: the
    // candidates run from -1 px up to, and excluding, 3 px on each axis.
    let cfg = Config::new(1000, 300_000, 1_000, 100, 2500, 1000, false, 1000);
    let field = Field::new(cfg, 2_000, 2_000);
    let marks = field.sample_marks(1);
    let mut expected = Vec::new();
    for x in 0..4i64 {
        for y in 0..4i64 {
            expected.push(Point::new(-1_000 + x * 1_000, -1_000 + y * 1_000));
        }
    }
    assert_eq!(marks, expected);
}

#[test]
fn draw_stream_is_reproducible_and_bounded() {
    let mut a = DrawStream::seeded(99);
    let mut b = DrawStream::seeded(99);
    for bound in [1u128, 2, 1000, u64::MAX as u128 + 17] {
        let da = a.draw_below(bound);
        let db = b.draw_below(bound);
        assert_eq!(da, db);
        assert!(da < bound);
    }
    let mut c = DrawStream::seeded(0);
    assert!(c.draw_below(1000) < 1000);
}

#[test]
fn default_config_matches_standard() {
    assert_eq!(Config::default(), Config::standard());
}

#[test]
fn pointer_notification_moves_anchor() {
    let mut field = Field::new(reactive_config(), 100_000, 100_000);
    field.set_anchor(10_000, 20_000);
    assert_eq!(field.anchor_x, 10_000);
    assert_eq!(field.anchor_y, 20_000);
    field.set_size(50_000, 40_000);
    assert_eq!(field.width, 50_000);
    assert_eq!(field.height, 40_000);
    assert_eq!(field.anchor_x, 10_000);
}
