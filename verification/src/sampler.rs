use vstd::prelude::*;
use vstd::arithmetic::div_mod::lemma_fundamental_div_mod_converse;
use crate::{Point, COORD_MAX};
use crate::entropy::draw_uniform;
use crate::field::Field;
use crate::grid::{axis_count, cell_coord, cell_count, lemma_cells_lie_in_band};
use crate::stream::{DrawStream, init_state, lemma_state_compose, spec_draw, state_after};

verus! {

broadcast use vstd::seq_lib::lemma_seq_contains_after_push;

impl Field {
    /// Number of candidate columns of the current frame.
    pub open spec fn spec_cols(self) -> int {
        axis_count(self.width as int, self.config.spec_margin(), self.config.spec_step())
    }

    /// Number of candidate rows of the current frame.
    pub open spec fn spec_rows(self) -> int {
        axis_count(self.height as int, self.config.spec_margin(), self.config.spec_step())
    }

    /// Total number of candidates of the current frame.
    pub open spec fn spec_cell_total(self) -> int {
        self.spec_cols() * self.spec_rows()
    }

    /// Horizontal position of the candidate with linear index `k`; the grid
    /// is walked column by column, the vertical index innermost.
    pub open spec fn cell_x(self, k: int) -> int {
        cell_coord(self.config.spec_margin(), self.config.spec_step(), k / self.spec_rows())
    }

    /// Vertical position of the candidate with linear index `k`.
    pub open spec fn cell_y(self, k: int) -> int {
        cell_coord(self.config.spec_margin(), self.config.spec_step(), k % self.spec_rows())
    }

    /// The undisplaced mark of candidate `k`.
    pub open spec fn cell_point(self, k: int) -> Point {
        Point { x: self.cell_x(k) as i64, y: self.cell_y(k) as i64 }
    }

    /// Squared distance from `(x, y)` to the anchor, in milli-pixels squared.
    pub open spec fn dist_sq(self, x: int, y: int) -> int {
        (x - self.anchor_x) * (x - self.anchor_x) + (y - self.anchor_y) * (y - self.anchor_y)
    }

    /// Numerator of the inclusion probability of every candidate: the fourth
    /// power of the falloff radius.
    pub open spec fn falloff_num(self) -> int {
        let r = self.config.spec_radius(self.width as int, self.height as int);
        (r * r) * (r * r)
    }

    /// Denominator of the inclusion probability of the candidate at
    /// `(x, y)`: distance to the fourth power plus radius to the fourth, so
    /// the probability is `1 / ((dist / radius)^4 + 1)` written as the exact
    /// rational `radius^4 / (dist^4 + radius^4)`.
    pub open spec fn falloff_den(self, x: int, y: int) -> int {
        self.dist_sq(x, y) * self.dist_sq(x, y) + self.falloff_num()
    }

    /// Whether a draw from register state `s` keeps the candidate at
    /// `(x, y)`: a uniform draw below the denominator lands under the
    /// numerator, an exact Bernoulli test of the falloff probability. The
    /// uniform variant tests a constant probability in thousandths instead.
    pub open spec fn candidate_passes(self, s: u64, x: int, y: int) -> bool {
        if self.config.use_falloff {
            (spec_draw(s, self.falloff_den(x, y) as u128) as int) < self.falloff_num()
        } else {
            (spec_draw(s, 1000) as int) < self.config.uniform_prob
        }
    }

    /// Register state from which candidate `k` draws: two steps per
    /// candidate, in grid order.
    pub open spec fn cell_state(self, seed: u64, k: int) -> u64 {
        state_after(init_state(seed), (2 * k) as nat)
    }

    /// Whether candidate `k` of the frame seeded with `seed` is included.
    pub open spec fn cell_included(self, seed: u64, k: int) -> bool {
        self.candidate_passes(self.cell_state(seed, k), self.cell_x(k), self.cell_y(k))
    }

    /// The included marks among the first `k` candidates, in grid order.
    pub open spec fn frame_prefix(self, seed: u64, k: int) -> Seq<Point>
        decreases k,
    {
        if k <= 0 {
            Seq::empty()
        } else if self.cell_included(seed, k - 1) {
            self.frame_prefix(seed, k - 1).push(self.cell_point(k - 1))
        } else {
            self.frame_prefix(seed, k - 1)
        }
    }

    /// The marks of one whole frame. A degenerate surface yields the
    /// defined-empty frame, so the driver can keep animating through
    /// transient zero-size states.
    pub open spec fn spec_frame(self, seed: u64) -> Seq<Point> {
        if self.width <= 0 || self.height <= 0 {
            Seq::empty()
        } else {
            self.frame_prefix(seed, self.spec_cell_total())
        }
    }

    /// The two weights of the Bernoulli test at `(x, y)`: the inclusion
    /// probability is exactly `w.0 / w.1`.
    pub fn inclusion_weights(&self, x: i64, y: i64) -> (w: (u128, u128))
        requires
            self.wf(),
            -2 * COORD_MAX <= x <= 2 * COORD_MAX,
            -2 * COORD_MAX <= y <= 2 * COORD_MAX,
        ensures
            w.0 == self.falloff_num(),
            w.1 == self.falloff_den(x as int, y as int),
            1 <= w.0 <= w.1,
    {
        let r = self.config.radius(self.width, self.height);
        proof {
            assert(1 <= (r as int) * (r as int) <= 250_000_000_000_000_000) by (nonlinear_arith)
                requires 1 <= r <= 500_000_000;
        }
        let r2: u64 = (r as u64) * (r as u64);
        proof {
            assert(
                1 <= (r2 as int) * (r2 as int)
                    <= 62_500_000_000_000_000_000_000_000_000_000_000
            ) by (nonlinear_arith)
                requires 1 <= r2 <= 250_000_000_000_000_000;
        }
        let num: u128 = (r2 as u128) * (r2 as u128);
        let dx = x - self.anchor_x;
        let dy = y - self.anchor_y;
        proof {
            assert(0 <= (dx as int) * (dx as int) <= 2_250_000_000_000_000_000)
                by (nonlinear_arith)
                requires -1_500_000_000 <= dx <= 1_500_000_000;
            assert(0 <= (dy as int) * (dy as int) <= 2_250_000_000_000_000_000)
                by (nonlinear_arith)
                requires -1_500_000_000 <= dy <= 1_500_000_000;
        }
        let d2: i64 = dx * dx + dy * dy;
        proof {
            assert(
                0 <= (d2 as int) * (d2 as int)
                    <= 20_250_000_000_000_000_000_000_000_000_000_000_000
            ) by (nonlinear_arith)
                requires 0 <= d2 <= 4_500_000_000_000_000_000;
        }
        let d4: u128 = (d2 as u128) * (d2 as u128);
        (num, d4 + num)
    }

    /// Performs the Bernoulli test of the candidate at `(x, y)`, consuming
    /// one draw of the stream.
    pub fn include_candidate(&self, src: &mut DrawStream, x: i64, y: i64) -> (ok: bool)
        requires
            self.wf(),
            -2 * COORD_MAX <= x <= 2 * COORD_MAX,
            -2 * COORD_MAX <= y <= 2 * COORD_MAX,
        ensures
            final(src).state == state_after(old(src).state, 2),
            ok == self.candidate_passes(old(src).state, x as int, y as int),
    {
        if self.config.use_falloff {
            let (num, den) = self.inclusion_weights(x, y);
            let d = src.draw_below(den);
            d < num
        } else {
            let d = src.draw_below(1000);
            d < (self.config.uniform_prob as u128)
        }
    }

    /// Samples one frame: walks every candidate of the overscanned grid in
    /// order and keeps those whose Bernoulli test passes, drawing from a
    /// stream seeded with `seed`. The result is exactly `spec_frame`, a pure
    /// function of the field and the seed.
    pub fn sample_marks(&self, seed: u64) -> (marks: Vec<Point>)
        requires
            self.wf(),
        ensures
            marks@ == self.spec_frame(seed),
    {
        let mut out: Vec<Point> = Vec::new();
        if self.width == 0 || self.height == 0 {
            return out;
        }
        let step = self.config.step();
        let margin = self.config.noise_range;
        let cols = cell_count(self.width, margin, step);
        let rows = cell_count(self.height, margin, step);
        proof {
            let span_r = self.height + 2 * margin + step - 1;
            assert(span_r / (step as int) >= 1) by (nonlinear_arith)
                requires 1 <= step, span_r >= step;
        }
        let mut src = DrawStream::seeded(seed);
        let mut i: u64 = 0;
        while i < cols
            invariant
                self.wf(),
                self.width > 0,
                self.height > 0,
                step == self.config.spec_step(),
                1 <= step <= 1_000_000,
                margin == self.config.spec_margin(),
                cols == self.spec_cols(),
                rows == self.spec_rows(),
                1 <= rows,
                i <= cols,
                src.state == state_after(init_state(seed), (2 * (i * rows)) as nat),
                out@ == self.frame_prefix(seed, i as int * rows as int),
            decreases cols - i,
        {
            let mut j: u64 = 0;
            while j < rows
                invariant
                    self.wf(),
                    self.width > 0,
                    self.height > 0,
                    step == self.config.spec_step(),
                    1 <= step <= 1_000_000,
                    margin == self.config.spec_margin(),
                    cols == self.spec_cols(),
                    rows == self.spec_rows(),
                    1 <= rows,
                    i < cols,
                    j <= rows,
                    src.state == state_after(init_state(seed), (2 * (i * rows + j)) as nat),
                    out@ == self.frame_prefix(seed, i as int * rows as int + j as int),
                decreases rows - j,
            {
                let ghost k: int = i as int * rows as int + j as int;
                proof {
                    lemma_fundamental_div_mod_converse(k, rows as int, i as int, j as int);
                    lemma_cells_lie_in_band(
                        self.width as int, margin as int, step as int, i as int);
                    lemma_cells_lie_in_band(
                        self.height as int, margin as int, step as int, j as int);
                }
                let x = -margin + (i as i64) * step;
                let y = -margin + (j as i64) * step;
                let ok = self.include_candidate(&mut src, x, y);
                if ok {
                    out.push(Point { x, y });
                }
                proof {
                    lemma_state_compose(init_state(seed), (2 * k) as nat, 2);
                    assert(out@ == self.frame_prefix(seed, k + 1));
                }
                j = j + 1;
            }
            proof {
                assert((i as int + 1) * rows as int == i as int * rows as int + rows as int)
                    by (nonlinear_arith);
            }
            i = i + 1;
        }
        proof {
            assert(cols as int * rows as int == self.spec_cell_total());
        }
        out
    }

    /// Whether `p` is the undisplaced mark of some candidate of the current
    /// frame.
    pub open spec fn is_candidate(self, p: Point) -> bool {
        exists|k: int| 0 <= k < self.spec_cell_total() && p == #[trigger] self.cell_point(k)
    }

    /// Whether candidate `k` passes its Bernoulli test whatever the draw: a
    /// candidate at the anchor under the falloff, or any candidate when the
    /// uniform probability is certain.
    pub open spec fn must_include(self, k: int) -> bool {
        if self.config.use_falloff {
            self.dist_sq(self.cell_x(k), self.cell_y(k)) == 0
        } else {
            self.config.uniform_prob == 1000
        }
    }

    /// The Bernoulli test of one candidate, drawn from the system's
    /// generator: nothing is promised of the outcome except that a test
    /// that cannot fail passes.
    fn include_candidate_random(&self, rng: &mut rand::rngs::ThreadRng, x: i64, y: i64)
        -> (ok: bool)
        requires
            self.wf(),
            -2 * COORD_MAX <= x <= 2 * COORD_MAX,
            -2 * COORD_MAX <= y <= 2 * COORD_MAX,
        ensures
            self.config.use_falloff && self.dist_sq(x as int, y as int) == 0 ==> ok,
            !self.config.use_falloff && self.config.uniform_prob == 1000 ==> ok,
    {
        if self.config.use_falloff {
            let (num, den) = self.inclusion_weights(x, y);
            let d = draw_uniform(rng, den);
            d < num
        } else {
            let d = draw_uniform(rng, 1000);
            d < (self.config.uniform_prob as u128)
        }
    }

    /// Samples one frame from the system's generator, for production use
    /// where no reproducibility is wanted. Every mark is the undisplaced
    /// position of some candidate of the grid, and every candidate whose
    /// test cannot fail — the cell at the anchor under the falloff, or
    /// every cell when the uniform probability is certain — is present.
    pub fn sample_marks_random(&self, rng: &mut rand::rngs::ThreadRng) -> (marks: Vec<Point>)
        requires
            self.wf(),
        ensures
            forall|n: int| 0 <= n < marks@.len() ==> self.is_candidate(#[trigger] marks@[n]),
            self.width > 0 && self.height > 0 ==> forall|k: int|
                0 <= k < self.spec_cell_total() && #[trigger] self.must_include(k)
                    ==> marks@.contains(self.cell_point(k)),
    {
        let mut out: Vec<Point> = Vec::new();
        if self.width == 0 || self.height == 0 {
            return out;
        }
        let step = self.config.step();
        let margin = self.config.noise_range;
        let cols = cell_count(self.width, margin, step);
        let rows = cell_count(self.height, margin, step);
        proof {
            let span_r = self.height + 2 * margin + step - 1;
            assert(span_r / (step as int) >= 1) by (nonlinear_arith)
                requires 1 <= step, span_r >= step;
        }
        let mut i: u64 = 0;
        while i < cols
            invariant
                self.wf(),
                self.width > 0,
                self.height > 0,
                step == self.config.spec_step(),
                1 <= step <= 1_000_000,
                margin == self.config.spec_margin(),
                cols == self.spec_cols(),
                rows == self.spec_rows(),
                1 <= rows,
                i <= cols,
                forall|n: int| 0 <= n < out@.len() ==> self.is_candidate(#[trigger] out@[n]),
                forall|k: int| 0 <= k < i as int * rows as int && #[trigger] self.must_include(k)
                    ==> out@.contains(self.cell_point(k)),
            decreases cols - i,
        {
            let mut j: u64 = 0;
            while j < rows
                invariant
                    self.wf(),
                    self.width > 0,
                    self.height > 0,
                    step == self.config.spec_step(),
                    1 <= step <= 1_000_000,
                    margin == self.config.spec_margin(),
                    cols == self.spec_cols(),
                    rows == self.spec_rows(),
                    1 <= rows,
                    i < cols,
                    j <= rows,
                    forall|n: int| 0 <= n < out@.len() ==> self.is_candidate(#[trigger] out@[n]),
                    forall|k: int|
                        0 <= k < i as int * rows as int + j as int
                            && #[trigger] self.must_include(k)
                            ==> out@.contains(self.cell_point(k)),
                decreases rows - j,
            {
                let ghost k: int = i as int * rows as int + j as int;
                proof {
                    lemma_fundamental_div_mod_converse(k, rows as int, i as int, j as int);
                    lemma_cells_lie_in_band(
                        self.width as int, margin as int, step as int, i as int);
                    lemma_cells_lie_in_band(
                        self.height as int, margin as int, step as int, j as int);
                    assert((i as int) * (rows as int) + (j as int) < (cols as int) * (rows as int))
                        by (nonlinear_arith)
                        requires 0 <= i < cols, 0 <= j < rows;
                }
                let x = -margin + (i as i64) * step;
                let y = -margin + (j as i64) * step;
                let ok = self.include_candidate_random(rng, x, y);
                if ok {
                    out.push(Point { x, y });
                    proof {
                        assert(self.cell_point(k).x == x && self.cell_point(k).y == y);
                        assert(self.is_candidate(self.cell_point(k)));
                    }
                }
                j = j + 1;
            }
            proof {
                assert((i as int + 1) * rows as int == i as int * rows as int + rows as int)
                    by (nonlinear_arith);
            }
            i = i + 1;
        }
        out
    }
}

/// Determinism of the sampler: with the surface, the anchor, the tunables
/// and the seed all fixed, two frames are the same sequence of marks.
pub proof fn lemma_frame_deterministic(f: Field, seed: u64, m1: Seq<Point>, m2: Seq<Point>)
    requires
        m1 == f.spec_frame(seed),
        m2 == f.spec_frame(seed),
    ensures
        m1 == m2,
{
}

/// At the anchor the inclusion probability is exactly one: numerator and
/// denominator of the Bernoulli weight coincide, so every draw passes.
pub proof fn lemma_falloff_certain_at_anchor(f: Field, x: int, y: int)
    requires
        f.wf(),
        f.dist_sq(x, y) == 0,
    ensures
        f.falloff_den(x, y) == f.falloff_num(),
{
}

/// The inclusion probability never exceeds one: the denominator dominates
/// the numerator everywhere.
pub proof fn lemma_falloff_at_most_one(f: Field, x: int, y: int)
    requires
        f.wf(),
    ensures
        f.falloff_num() <= f.falloff_den(x, y),
        1 <= f.falloff_num(),
{
    let d2 = f.dist_sq(x, y);
    assert(d2 >= 0) by (nonlinear_arith)
        requires
            d2 == (x - f.anchor_x) * (x - f.anchor_x) + (y - f.anchor_y) * (y - f.anchor_y);
    assert(d2 * d2 >= 0) by (nonlinear_arith)
        requires d2 >= 0;
    let r = f.config.spec_radius(f.width as int, f.height as int);
    assert((r * r) * (r * r) >= 1) by (nonlinear_arith)
        requires r >= 1;
}

/// Strict monotonicity of the falloff: of two candidates, the one farther
/// from the anchor has the strictly smaller inclusion probability. With the
/// shared numerator `n` and denominators `da < db`, the probabilities
/// `n / da > n / db` compare as the cross products `n * db > n * da`.
pub proof fn lemma_falloff_strictly_decreasing(f: Field, xa: int, ya: int, xb: int, yb: int)
    requires
        f.wf(),
        f.dist_sq(xa, ya) < f.dist_sq(xb, yb),
    ensures
        f.falloff_den(xa, ya) < f.falloff_den(xb, yb),
        f.falloff_num() * f.falloff_den(xa, ya) < f.falloff_num() * f.falloff_den(xb, yb),
{
    let da = f.dist_sq(xa, ya);
    let db = f.dist_sq(xb, yb);
    assert(da >= 0) by (nonlinear_arith)
        requires
            da == (xa - f.anchor_x) * (xa - f.anchor_x) + (ya - f.anchor_y) * (ya - f.anchor_y);
    assert(da * da < db * db) by (nonlinear_arith)
        requires 0 <= da < db;
    lemma_falloff_at_most_one(f, xa, ya);
    assert(
        f.falloff_num() * f.falloff_den(xa, ya) < f.falloff_num() * f.falloff_den(xb, yb)
    ) by (nonlinear_arith)
        requires
            1 <= f.falloff_num(),
            f.falloff_den(xa, ya) < f.falloff_den(xb, yb);
}

/// An included candidate stands in every prefix that reaches past it.
proof fn lemma_included_in_prefix(f: Field, seed: u64, k: int, n: int)
    requires
        0 <= k < n,
        f.cell_included(seed, k),
    ensures
        f.frame_prefix(seed, n).contains(f.cell_point(k)),
    decreases n,
{
    if k == n - 1 {
        assert(f.frame_prefix(seed, n) == f.frame_prefix(seed, n - 1).push(f.cell_point(n - 1)));
    } else {
        lemma_included_in_prefix(f, seed, k, n - 1);
    }
}

/// A candidate whose Bernoulli test cannot fail — the cell at the anchor
/// under the falloff, or any cell when the uniform probability is certain —
/// appears in the frame of every seed: the soft spotlight is never empty at
/// its center.
pub proof fn lemma_certain_candidate_in_frame(f: Field, seed: u64, k: int)
    requires
        f.wf(),
        f.width > 0,
        f.height > 0,
        0 <= k < f.spec_cell_total(),
        f.must_include(k),
    ensures
        f.spec_frame(seed).contains(f.cell_point(k)),
{
    let x = f.cell_x(k);
    let y = f.cell_y(k);
    let s = f.cell_state(seed, k);
    if f.config.use_falloff {
        lemma_falloff_at_most_one(f, x, y);
        let den = f.falloff_den(x, y);
        assert(f.dist_sq(x, y) * f.dist_sq(x, y) == 0) by (nonlinear_arith)
            requires f.dist_sq(x, y) == 0;
        assert(den == f.falloff_num());
        assert(0 <= den <= 62_500_000_000_000_000_000_000_000_000_000_000) by {
            let longer = if f.width >= f.height { f.width as int } else { f.height as int };
            assert(0 <= longer * 1000 / (f.config.radius_divisor as int) <= longer)
                by (nonlinear_arith)
                requires longer >= 0, f.config.radius_divisor >= 1000;
            let r = f.config.spec_radius(f.width as int, f.height as int);
            assert(1 <= (r * r) * (r * r) <= 62_500_000_000_000_000_000_000_000_000_000_000)
                by (nonlinear_arith)
                requires 1 <= r <= 500_000_000;
        }
        vstd::arithmetic::div_mod::lemma_mod_pos_bound(
            crate::stream::wide_output(s) as int, den);
        assert((spec_draw(s, den as u128) as int) < f.falloff_num());
    } else {
        vstd::arithmetic::div_mod::lemma_mod_pos_bound(
            crate::stream::wide_output(s) as int, 1000);
        assert((spec_draw(s, 1000) as int) < 1000);
    }
    assert(f.cell_included(seed, k));
    lemma_included_in_prefix(f, seed, k, f.spec_cell_total());
}

/// The falloff vanishes with distance: once the fourth power of the distance
/// reaches `k` times the fourth power of the radius, the inclusion
/// probability is at most `1 / (k + 1)`.
pub proof fn lemma_falloff_vanishes(f: Field, x: int, y: int, k: int)
    requires
        f.wf(),
        0 <= k,
        f.dist_sq(x, y) * f.dist_sq(x, y) >= k * f.falloff_num(),
    ensures
        f.falloff_den(x, y) >= (k + 1) * f.falloff_num(),
{
    assert((k + 1) * f.falloff_num() == k * f.falloff_num() + f.falloff_num())
        by (nonlinear_arith);
}

} // verus!
