use vstd::prelude::*;
use crate::COORD_MAX;

verus! {

/// Scale of a noise sample: a sample of the coherent-noise field is handed to
/// the warp as an integer in `[-NOISE_UNIT, NOISE_UNIT]`, standing for the
/// real interval `[-1, 1]`.
pub const NOISE_UNIT: i64 = 1_000_000;

/// The tunable parameters of the texture, all in fixed-point integers.
///
/// Lengths are in milli-pixels (`crate::SUBPIXEL` units per pixel); ratios
/// are in thousandths, so `2500` stands for `2.5`.
#[derive(Clone, Copy, PartialEq, Eq, Structural, Debug)]
pub struct Config {
    /// Samples per thousand pixels along each axis: `100` places one
    /// candidate mark every ten pixels.
    pub resolution: i64,
    /// Spatial scale of the noise domain, in milli-pixels; larger values give
    /// a smoother, slower-varying warp.
    pub noise_scale: i64,
    /// Peak displacement of the warp, in milli-pixels. Doubles as the
    /// overscan margin of the sample grid, so that marks drifting in from
    /// outside the surface never pop at an edge.
    pub noise_range: i64,
    /// Animation rate: how many millionths of a noise-domain unit the time
    /// coordinate advances per thousandth of a time unit.
    pub change_speed: i64,
    /// Divisor of the falloff radius, in thousandths: the radius of the soft
    /// spotlight is the larger surface dimension divided by this.
    pub radius_divisor: i64,
    /// Side length of a painted mark, in milli-pixels.
    pub mark_size: i64,
    /// When true, the inclusion probability of a candidate falls off with its
    /// distance from the anchor; when false it is the constant
    /// `uniform_prob`.
    pub use_falloff: bool,
    /// Inclusion probability of the uniform variant, in thousandths.
    pub uniform_prob: i64,
}

impl Config {
    /// The parameter ranges under which every operation of the library is
    /// free of overflow.
    pub open spec fn wf(self) -> bool {
        &&& 1 <= self.resolution <= 1_000_000
        &&& 1 <= self.noise_scale <= COORD_MAX
        &&& 0 <= self.noise_range <= COORD_MAX
        &&& 0 <= self.change_speed <= 1_000_000
        &&& 1000 <= self.radius_divisor <= 1_000_000
        &&& 1 <= self.mark_size <= 1_000_000
        &&& 0 <= self.uniform_prob <= 1000
    }

    /// Distance between two adjacent candidate marks, in milli-pixels.
    pub open spec fn spec_step(self) -> int {
        1_000_000int / (self.resolution as int)
    }

    /// Overscan margin of the sample grid, in milli-pixels: exactly the
    /// displacement amplitude, so every mark that can drift onto the surface
    /// is sampled.
    pub open spec fn spec_margin(self) -> int {
        self.noise_range as int
    }

    /// Falloff radius for a surface of the given dimensions: the larger
    /// dimension divided by `radius_divisor`, and never below one
    /// milli-pixel.
    pub open spec fn spec_radius(self, width: int, height: int) -> int {
        let longer = if width >= height { width } else { height };
        let r = longer * 1000 / (self.radius_divisor as int);
        if r < 1 { 1 } else { r }
    }

    /// Builds a configuration; the arguments are the tunables in the order of
    /// the fields.
    pub fn new(
        resolution: i64,
        noise_scale: i64,
        noise_range: i64,
        change_speed: i64,
        radius_divisor: i64,
        mark_size: i64,
        use_falloff: bool,
        uniform_prob: i64,
    ) -> (c: Config)
        requires
            1 <= resolution <= 1_000_000,
            1 <= noise_scale <= COORD_MAX,
            0 <= noise_range <= COORD_MAX,
            0 <= change_speed <= 1_000_000,
            1000 <= radius_divisor <= 1_000_000,
            1 <= mark_size <= 1_000_000,
            0 <= uniform_prob <= 1000,
        ensures
            c.wf(),
            c.resolution == resolution,
            c.noise_scale == noise_scale,
            c.noise_range == noise_range,
            c.change_speed == change_speed,
            c.radius_divisor == radius_divisor,
            c.mark_size == mark_size,
            c.use_falloff == use_falloff,
            c.uniform_prob == uniform_prob,
    {
        Config {
            resolution,
            noise_scale,
            noise_range,
            change_speed,
            radius_divisor,
            mark_size,
            use_falloff,
            uniform_prob,
        }
    }

    /// The stock settings: a candidate every ten pixels, a 100-pixel warp,
    /// and the soft spotlight around the pointer.
    pub fn standard() -> (c: Config)
        ensures
            c.wf(),
            c.use_falloff,
    {
        Config {
            resolution: 100,
            noise_scale: 300_000,
            noise_range: 100_000,
            change_speed: 100,
            radius_divisor: 2500,
            mark_size: 1000,
            use_falloff: true,
            uniform_prob: 800,
        }
    }

    /// Distance between adjacent candidate marks, in milli-pixels.
    pub fn step(&self) -> (s: i64)
        requires
            self.wf(),
        ensures
            s == self.spec_step(),
            1 <= s <= 1_000_000,
    {
        proof {
            let b = self.resolution as int;
            assert(1_000_000int / b >= 1) by (nonlinear_arith)
                requires 1 <= b <= 1_000_000;
            assert(1_000_000int / b <= 1_000_000) by (nonlinear_arith)
                requires 1 <= b;
        }
        (1_000_000u64 / (self.resolution as u64)) as i64
    }

    /// Falloff radius for a surface of the given dimensions, in milli-pixels.
    pub fn radius(&self, width: i64, height: i64) -> (r: i64)
        requires
            self.wf(),
            0 <= width <= COORD_MAX,
            0 <= height <= COORD_MAX,
        ensures
            r == self.spec_radius(width as int, height as int),
            1 <= r <= COORD_MAX,
    {
        let longer = if width >= height { width } else { height };
        proof {
            let l = longer as int;
            let d = self.radius_divisor as int;
            assert(l * 1000 / d <= l) by (nonlinear_arith)
                requires l >= 0, d >= 1000;
            assert(l * 1000 / d >= 0) by (nonlinear_arith)
                requires l >= 0, d >= 1000;
        }
        let r = ((longer as u64 * 1000) / (self.radius_divisor as u64)) as i64;
        if r < 1 { 1 } else { r }
    }
}

impl Default for Config {
    /// Same settings as `standard`.
    fn default() -> (c: Config)
        ensures
            c.wf(),
            c.use_falloff,
    {
        Config::standard()
    }
}

} // verus!
