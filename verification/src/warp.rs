use vstd::prelude::*;
use crate::{Point, COORD_MAX};
use crate::config::{Config, NOISE_UNIT};

verus! {

/// A point of the noise domain, in millionths of a noise unit: where one
/// displacement component of one mark is sampled.
#[derive(Clone, Copy, PartialEq, Eq, Structural, Debug)]
pub struct NoiseInput {
    pub x: i64,
    pub y: i64,
    pub t: i64,
}

/// `v * m / d` rounded towards zero, all factors nonnegative except `v`.
pub open spec fn spec_muldiv_trunc(v: int, m: int, d: int) -> int {
    if v >= 0 { (v * m) / d } else { -(((-v) * m) / d) }
}

/// `v * m / d` rounded towards zero.
pub fn muldiv_trunc(v: i64, m: i64, d: i64) -> (r: i64)
    requires
        -4 * COORD_MAX <= v <= 4 * COORD_MAX,
        0 <= m <= 1_000_000_000,
        1 <= d,
    ensures
        r == spec_muldiv_trunc(v as int, m as int, d as int),
{
    proof {
        let a = (if v >= 0 { v as int } else { -v as int }) * (m as int);
        assert(0 <= a / (d as int) <= a) by (nonlinear_arith)
            requires a >= 0, d >= 1;
        assert(a <= 4 * COORD_MAX * 1_000_000_000) by (nonlinear_arith)
            requires
                0 <= (if v >= 0 { v as int } else { -v as int }) <= 4 * COORD_MAX,
                0 <= m <= 1_000_000_000,
                a == (if v >= 0 { v as int } else { -v as int }) * (m as int);
    }
    if v >= 0 {
        (((v as u64) * (m as u64)) / (d as u64)) as i64
    } else {
        -(((((-v) as u64) * (m as u64)) / (d as u64)) as i64)
    }
}

/// Truncated scaling never exceeds `m` in magnitude while `v` stays within
/// `d`: the whole-units part of a proper fraction of `m` is at most `m`.
pub proof fn lemma_muldiv_bounded(v: int, m: int, d: int)
    requires
        -d <= v <= d,
        0 <= m,
        1 <= d,
    ensures
        -m <= spec_muldiv_trunc(v, m, d) <= m,
{
    let a = if v >= 0 { v } else { -v };
    assert((a * m) / d <= m) by (nonlinear_arith)
        requires 0 <= a <= d, 0 <= m, 1 <= d;
    assert((a * m) / d >= 0) by (nonlinear_arith)
        requires 0 <= a, 0 <= m, 1 <= d;
}

impl Config {
    /// Noise-domain x coordinate of a mark at `x`, in millionths.
    pub open spec fn spec_noise_coord(self, x: int) -> int {
        spec_muldiv_trunc(x, 1_000_000, self.noise_scale as int)
    }

    /// Noise-domain time offset for animation time `t` (in thousandths of a
    /// time unit), in millionths.
    pub open spec fn spec_time_offset(self, t: int) -> int {
        t * (self.change_speed as int)
    }

    /// Displacement, in milli-pixels, that a noise sample `s` in
    /// `[-NOISE_UNIT, NOISE_UNIT]` produces.
    pub open spec fn spec_displacement(self, s: int) -> int {
        spec_muldiv_trunc(s, self.noise_range as int, NOISE_UNIT as int)
    }

    /// Where the warped position of `p` is sampled from the noise field at
    /// time `t`: the horizontal component at the scaled coordinates with the
    /// time offset, the vertical one at the same coordinates with the offset
    /// negated, so the two drifts stay decorrelated.
    pub fn warp_inputs(&self, p: Point, t: i64) -> (pair: (NoiseInput, NoiseInput))
        requires
            self.wf(),
            -4 * COORD_MAX <= p.x <= 4 * COORD_MAX,
            -4 * COORD_MAX <= p.y <= 4 * COORD_MAX,
            -1_000_000_000 <= t <= 1_000_000_000,
        ensures
            pair.0.x == self.spec_noise_coord(p.x as int),
            pair.0.y == self.spec_noise_coord(p.y as int),
            pair.0.t == self.spec_time_offset(t as int),
            pair.1.x == pair.0.x,
            pair.1.y == pair.0.y,
            pair.1.t == -pair.0.t,
    {
        let nx = muldiv_trunc(p.x, 1_000_000, self.noise_scale);
        let ny = muldiv_trunc(p.y, 1_000_000, self.noise_scale);
        proof {
            let prod = (t as int) * (self.change_speed as int);
            assert(-1_000_000_000_000_000 <= prod <= 1_000_000_000_000_000) by (nonlinear_arith)
                requires
                    -1_000_000_000 <= t <= 1_000_000_000,
                    0 <= self.change_speed <= 1_000_000,
                    prod == (t as int) * (self.change_speed as int);
        }
        let s = t * self.change_speed;
        (
            NoiseInput { x: nx, y: ny, t: s },
            NoiseInput { x: nx, y: ny, t: -s },
        )
    }

    /// Displaces `p` by the two noise samples `sx` and `sy`, each a
    /// fixed-point value in `[-NOISE_UNIT, NOISE_UNIT]`. Neither coordinate
    /// moves by more than `noise_range` milli-pixels.
    pub fn displace(&self, p: Point, sx: i64, sy: i64) -> (q: Point)
        requires
            self.wf(),
            -4 * COORD_MAX <= p.x <= 4 * COORD_MAX,
            -4 * COORD_MAX <= p.y <= 4 * COORD_MAX,
            -NOISE_UNIT <= sx <= NOISE_UNIT,
            -NOISE_UNIT <= sy <= NOISE_UNIT,
        ensures
            q.x == p.x + self.spec_displacement(sx as int),
            q.y == p.y + self.spec_displacement(sy as int),
            -self.noise_range <= q.x - p.x <= self.noise_range,
            -self.noise_range <= q.y - p.y <= self.noise_range,
    {
        proof {
            lemma_muldiv_bounded(sx as int, self.noise_range as int, NOISE_UNIT as int);
            lemma_muldiv_bounded(sy as int, self.noise_range as int, NOISE_UNIT as int);
        }
        let dx = muldiv_trunc(sx, self.noise_range, NOISE_UNIT);
        let dy = muldiv_trunc(sy, self.noise_range, NOISE_UNIT);
        Point { x: p.x + dx, y: p.y + dy }
    }

    /// The warped position of `cells[n]` under the sample pair `samples[n]`,
    /// for the whole frame at once.
    pub fn warp_frame(&self, cells: &Vec<Point>, samples: &Vec<(i64, i64)>) -> (out: Vec<Point>)
        requires
            self.wf(),
            cells@.len() == samples@.len(),
            forall|n: int| 0 <= n < cells@.len() ==> (
                -4 * COORD_MAX <= #[trigger] cells@[n].x <= 4 * COORD_MAX
                && -4 * COORD_MAX <= cells@[n].y <= 4 * COORD_MAX
            ),
            forall|n: int| 0 <= n < samples@.len() ==> (
                -NOISE_UNIT <= #[trigger] samples@[n].0 <= NOISE_UNIT
                && -NOISE_UNIT <= samples@[n].1 <= NOISE_UNIT
            ),
        ensures
            out@.len() == cells@.len(),
            forall|n: int| 0 <= n < cells@.len() ==> (
                #[trigger] out@[n].x == cells@[n].x + self.spec_displacement(samples@[n].0 as int)
                && out@[n].y == cells@[n].y + self.spec_displacement(samples@[n].1 as int)
            ),
    {
        let mut out: Vec<Point> = Vec::new();
        let mut n: usize = 0;
        while n < cells.len()
            invariant
                self.wf(),
                cells@.len() == samples@.len(),
                forall|k: int| 0 <= k < cells@.len() ==> (
                    -4 * COORD_MAX <= #[trigger] cells@[k].x <= 4 * COORD_MAX
                    && -4 * COORD_MAX <= cells@[k].y <= 4 * COORD_MAX
                ),
                forall|k: int| 0 <= k < samples@.len() ==> (
                    -NOISE_UNIT <= #[trigger] samples@[k].0 <= NOISE_UNIT
                    && -NOISE_UNIT <= samples@[k].1 <= NOISE_UNIT
                ),
                n <= cells@.len(),
                out@.len() == n,
                forall|k: int| 0 <= k < n ==> (
                    #[trigger] out@[k].x == cells@[k].x + self.spec_displacement(samples@[k].0 as int)
                    && out@[k].y == cells@[k].y + self.spec_displacement(samples@[k].1 as int)
                ),
            decreases cells@.len() - n,
        {
            let p = cells[n];
            let (sx, sy) = samples[n];
            let q = self.displace(p, sx, sy);
            out.push(q);
            n += 1;
        }
        out
    }
}

/// The two noise evaluations of one mark are distinct points of the noise
/// domain whenever the time offset is nonzero: sharing their spatial
/// coordinates, they differ exactly in the sign of their time coordinate, so
/// the horizontal and vertical drifts come from independent evaluations.
pub proof fn lemma_axes_decorrelated(a: NoiseInput, b: NoiseInput)
    requires
        b.x == a.x,
        b.y == a.y,
        b.t == -a.t,
        a.t != 0,
    ensures
        a != b,
{
}

/// Edge continuity: a mark seen on the surface can only have been displaced
/// from inside the sampled band. With the overscan margin equal to the
/// displacement amplitude, any on-surface position reached by a bounded
/// displacement has its undisplaced source within one margin of the surface
/// on every side — exactly the band whose candidates the grid enumerates
/// (`grid::lemma_band_is_covered`), so no mark near an edge is missing from
/// the sample and no seam shows at the boundary.
pub proof fn lemma_edge_continuity(
    cfg: Config,
    w: int,
    h: int,
    qx: int,
    qy: int,
    dx: int,
    dy: int,
)
    requires
        cfg.wf(),
        0 <= qx <= w,
        0 <= qy <= h,
        -cfg.noise_range <= dx <= cfg.noise_range,
        -cfg.noise_range <= dy <= cfg.noise_range,
    ensures
        -cfg.spec_margin() <= qx - dx <= w + cfg.spec_margin(),
        -cfg.spec_margin() <= qy - dy <= h + cfg.spec_margin(),
{
}

/// At time offset zero the two noise evaluations of a mark coincide, so a
/// deterministic noise field must hand back the same sample for both axes.
pub proof fn lemma_zero_time_inputs_coincide(a: NoiseInput, b: NoiseInput)
    requires
        b.x == a.x,
        b.y == a.y,
        b.t == -a.t,
        a.t == 0,
    ensures
        a == b,
{
}

} // verus!
