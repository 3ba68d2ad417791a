//! Facts about the generated pattern as a whole.
use vstd::prelude::*;
use crate::footprint::footprint_text;
use crate::geometry::{Geometry, Shape};
use crate::halftone::{
    boundary_lines, dot_at, lemma_window_sum_bound, on_lattice, dot_radius_spec, dots_before, grid_x, grid_y, halftone_spec, keeps_dot,
    lattice_radius, max_dot_radius, num_cols, num_rows, intensity_radius, row_sum,
    suppressed, valid_density, window_bounds, window_max_score, window_score, window_start,
    window_sum, HalftoneParameters, SAMPLE_MAX,
};
use crate::isqrt::{floor_sqrt, lemma_floor_sqrt_monotone, lemma_floor_sqrt_square};
use crate::raster::GrayView;

verus! {

/// The same parameters with the given `invert` setting.
pub open spec fn with_invert(p: HalftoneParameters, invert: bool) -> HalftoneParameters {
    HalftoneParameters {
        dot_spacing: p.dot_spacing,
        dot_min_diam: p.dot_min_diam,
        dot_max_diam: p.dot_max_diam,
        output_width: p.output_width,
        output_height: p.output_height,
        invert,
    }
}

/// The sampling window of a lattice point lies inside the raster, and its
/// sum is between zero and the largest possible sum.
proof fn lemma_window_in_range(img: GrayView, p: HalftoneParameters, px_per_mm: int, x: int, y: int)
    requires
        img.wf(),
        p.valid(),
        valid_density(px_per_mm),
        x >= max_dot_radius(p),
        y >= max_dot_radius(p),
    ensures
        ({
            let (x0, x1, y0, y1) = window_bounds(img, p, px_per_mm, x, y);
            0 <= x0 <= x1 <= img.width && 0 <= y0 <= y1 <= img.height
        }),
        0 <= window_score(img, p, px_per_mm, x, y) <= window_max_score(img, p, px_per_mm, x, y),
{
    assert(window_start(p, px_per_mm, x) >= 0 && window_start(p, px_per_mm, y) >= 0) by (nonlinear_arith)
        requires
            x - max_dot_radius(p) >= 0,
            y - max_dot_radius(p) >= 0,
            px_per_mm >= 1,
            window_start(p, px_per_mm, x) == (x - max_dot_radius(p)) * px_per_mm / 1000,
            window_start(p, px_per_mm, y) == (y - max_dot_radius(p)) * px_per_mm / 1000,
    ;
    let (x0, x1, y0, y1) = window_bounds(img, p, px_per_mm, x, y);
    lemma_window_sum_bound(img, y0, y1, x0, x1);
}

/// A dot sized from a score between zero and the largest score is never
/// larger than the largest dot.
pub proof fn lemma_radius_at_most_max(score: int, max_score: int, max_radius: int)
    requires
        0 <= score <= max_score,
        0 <= max_radius,
    ensures
        0 <= intensity_radius(score, max_score, max_radius) <= max_radius,
{
    if max_score > 0 {
        let q = (score * max_radius * max_radius) / max_score;
        assert(0 <= q <= max_radius * max_radius) by (nonlinear_arith)
            requires
                q == (score * max_radius * max_radius) / max_score,
                0 <= score <= max_score,
                max_score > 0,
        ;
        lemma_floor_sqrt_monotone(q as nat, (max_radius * max_radius) as nat);
        lemma_floor_sqrt_square(max_radius as nat);
    }
}

/// No dot at a lattice position is larger than the largest dot.
pub proof fn lemma_lattice_radius_bound(img: GrayView, p: HalftoneParameters, px_per_mm: int, row: int, col: int)
    requires
        img.wf(),
        p.valid(),
        valid_density(px_per_mm),
        0 <= row,
        0 <= col,
    ensures
        0 <= lattice_radius(img, p, px_per_mm, row, col) <= max_dot_radius(p),
{
    let (x, y) = (grid_x(p, col), grid_y(p, row));
    assert(x >= max_dot_radius(p)) by (nonlinear_arith)
        requires
            x == (col * p.dot_spacing + p.dot_max_diam as int) / 2,
            col >= 0,
            p.dot_spacing >= 0,
            max_dot_radius(p) == p.dot_max_diam as int / 2,
    ;
    crate::isqrt::lemma_floor_sqrt_bounds((3 * row * row * p.dot_spacing * p.dot_spacing) as nat);
    assert(y >= max_dot_radius(p));
    lemma_window_in_range(img, p, px_per_mm, x, y);
    let score = window_score(img, p, px_per_mm, x, y);
    let max_score = window_max_score(img, p, px_per_mm, x, y);
    let sized = if p.invert {
        max_score - score
    } else {
        score
    };
    lemma_radius_at_most_max(sized, max_score, max_dot_radius(p));
}

/// When the smallest allowed diameter exceeds twice the largest dot radius,
/// no dot is ever drawn: the pattern is the outline alone, whatever the
/// raster holds.
pub proof fn lemma_min_diameter_above_max(img: GrayView, p: HalftoneParameters, px_per_mm: int)
    requires
        img.wf(),
        p.valid(),
        valid_density(px_per_mm),
        p.dot_min_diam > 2 * max_dot_radius(p),
    ensures
        halftone_spec(img, p, px_per_mm) == boundary_lines(p),
        halftone_spec(img, p, px_per_mm).len() == 4,
{
    if num_cols(p) == 0 {
        assert(num_rows(p) * num_cols(p) == 0);
    }
    lemma_no_dots(img, p, px_per_mm, num_rows(p) * num_cols(p));
    assert(halftone_spec(img, p, px_per_mm) =~= boundary_lines(p));
}

proof fn lemma_no_dots(img: GrayView, p: HalftoneParameters, px_per_mm: int, k: int)
    requires
        img.wf(),
        p.valid(),
        valid_density(px_per_mm),
        p.dot_min_diam > 2 * max_dot_radius(p),
        k <= 0 || num_cols(p) > 0,
    ensures
        dots_before(img, p, px_per_mm, k) == Seq::<crate::geometry::Shape>::empty(),
    decreases k,
{
    if k > 0 {
        lemma_no_dots(img, p, px_per_mm, k - 1);
        let cols = num_cols(p);
        if cols > 0 {
            let row = (k - 1) / cols;
            let col = (k - 1) % cols;
            assert(row >= 0 && col >= 0) by (nonlinear_arith)
                requires
                    k - 1 >= 0,
                    cols > 0,
                    row == (k - 1) / cols,
                    col == (k - 1) % cols,
            ;
            lemma_lattice_radius_bound(img, p, px_per_mm, row, col);
            assert(!keeps_dot(img, p, px_per_mm, row, col));
        }
    }
}

/// Inverting swaps the intensity for its complement: at any lattice point the
/// inverted dot is sized from the largest score minus the plain score, and
/// the plain dot from the largest score minus the inverted one.
pub proof fn lemma_invert_symmetry(img: GrayView, p: HalftoneParameters, px_per_mm: int, x: int, y: int)
    ensures
        ({
            let plain = with_invert(p, false);
            let inverted = with_invert(p, true);
            let max_score = window_max_score(img, p, px_per_mm, x, y);
            let plain_score = window_score(img, plain, px_per_mm, x, y);
            let inverted_score = max_score - window_score(img, inverted, px_per_mm, x, y);
            &&& dot_radius_spec(img, inverted, px_per_mm, x, y) == intensity_radius(
                max_score - plain_score,
                max_score,
                max_dot_radius(p),
            )
            &&& dot_radius_spec(img, plain, px_per_mm, x, y) == intensity_radius(
                max_score - inverted_score,
                max_score,
                max_dot_radius(p),
            )
        }),
{
}

/// The pattern, and so the footprint text, is a function of the raster's
/// size and samples and of the parameters: equal inputs give equal text.
pub proof fn lemma_deterministic(
    a: GrayView,
    b: GrayView,
    p: HalftoneParameters,
    q: HalftoneParameters,
    px_per_mm: int,
)
    requires
        a.width == b.width,
        a.height == b.height,
        a.pixels == b.pixels,
        p == q,
    ensures
        footprint_text(halftone_spec(a, p, px_per_mm)) == footprint_text(
            halftone_spec(b, q, px_per_mm),
        ),
{
    assert(a == b);
}

/// Every sample of the raster is `v`.
pub open spec fn uniform(img: GrayView, v: int) -> bool {
    forall|i: int| 0 <= i < img.pixels.len() ==> img.pixels[i] == v
}

proof fn lemma_row_sum_uniform(img: GrayView, v: int, y: int, x0: int, x1: int)
    requires
        img.wf(),
        uniform(img, v),
        0 <= y < img.height,
        0 <= x0 <= x1 <= img.width,
    ensures
        row_sum(img, y, x0, x1) == v * (x1 - x0),
    decreases x1 - x0,
{
    if x1 > x0 {
        lemma_row_sum_uniform(img, v, y, x0, x1 - 1);
        assert(0 <= y * img.width + (x1 - 1) < img.width * img.height) by (nonlinear_arith)
            requires
                0 <= y < img.height,
                0 <= x1 - 1 < img.width,
        ;
        assert(v * (x1 - 1 - x0) + v == v * (x1 - x0)) by (nonlinear_arith);
    } else {
        assert(v * (x1 - x0) == 0) by (nonlinear_arith)
            requires
                x1 == x0,
        ;
    }
}

proof fn lemma_window_sum_uniform(img: GrayView, v: int, y0: int, y1: int, x0: int, x1: int)
    requires
        img.wf(),
        uniform(img, v),
        0 <= y0 <= y1 <= img.height,
        0 <= x0 <= x1 <= img.width,
    ensures
        window_sum(img, y0, y1, x0, x1) == v * ((y1 - y0) * (x1 - x0)),
    decreases y1 - y0,
{
    if y1 > y0 {
        lemma_window_sum_uniform(img, v, y0, y1 - 1, x0, x1);
        lemma_row_sum_uniform(img, v, y1 - 1, x0, x1);
        assert(v * ((y1 - 1 - y0) * (x1 - x0)) + v * (x1 - x0) == v * ((y1 - y0) * (x1 - x0)))
            by (nonlinear_arith);
    } else {
        assert(v * ((y1 - y0) * (x1 - x0)) == 0) by (nonlinear_arith)
            requires
                y1 == y0,
        ;
    }
}

proof fn lemma_div_common_factor(a: int, b: int, n: int)
    requires
        a >= 0,
        b > 0,
        n > 0,
    ensures
        (a * n) / (b * n) == a / b,
{
    let q = a / b;
    let r = a % b;
    vstd::arithmetic::div_mod::lemma_fundamental_div_mod(a, b);
    assert(a * n == q * (b * n) + r * n && 0 <= r * n < b * n) by (nonlinear_arith)
        requires
            a == b * q + r,
            0 <= r < b,
            n > 0,
    ;
    vstd::arithmetic::div_mod::lemma_fundamental_div_mod_converse(a * n, b * n, q, r * n);
}

/// On a raster whose samples all equal `v`, every dot that is drawn has the
/// radius of intensity `v / 255` (its complement when inverting):
/// `sqrt(intensity * max_dot_radius^2)`, rounded down.
pub proof fn lemma_uniform_intensity(img: GrayView, p: HalftoneParameters, px_per_mm: int, v: int, row: int, col: int)
    requires
        img.wf(),
        p.valid(),
        valid_density(px_per_mm),
        0 <= v <= SAMPLE_MAX,
        uniform(img, v),
        0 <= row,
        0 <= col,
        keeps_dot(img, p, px_per_mm, row, col),
    ensures
        ({
            let intensity = if p.invert {
                SAMPLE_MAX - v
            } else {
                v
            };
            let r = max_dot_radius(p);
            lattice_radius(img, p, px_per_mm, row, col) == floor_sqrt(
                ((intensity * r * r) / (SAMPLE_MAX as int)) as nat,
            )
        }),
{
    let (x, y) = (grid_x(p, col), grid_y(p, row));
    lemma_lattice_radius_bound(img, p, px_per_mm, row, col);
    assert(x >= max_dot_radius(p)) by (nonlinear_arith)
        requires
            x == (col * p.dot_spacing + p.dot_max_diam as int) / 2,
            col >= 0,
            p.dot_spacing >= 0,
            max_dot_radius(p) == p.dot_max_diam as int / 2,
    ;
    crate::isqrt::lemma_floor_sqrt_bounds((3 * row * row * p.dot_spacing * p.dot_spacing) as nat);
    lemma_window_in_range(img, p, px_per_mm, x, y);
    let (x0, x1, y0, y1) = window_bounds(img, p, px_per_mm, x, y);
    let n = (y1 - y0) * (x1 - x0);
    lemma_window_sum_uniform(img, v, y0, y1, x0, x1);
    let intensity = if p.invert {
        SAMPLE_MAX - v
    } else {
        v
    };
    let r = max_dot_radius(p);
    let max_score = window_max_score(img, p, px_per_mm, x, y);
    assert(n >= 0) by (nonlinear_arith)
        requires
            y1 >= y0,
            x1 >= x0,
            n == (y1 - y0) * (x1 - x0),
    ;
    if n == 0 {
        assert(max_score == 0);
        assert(suppressed(p, lattice_radius(img, p, px_per_mm, row, col)));
    } else {
        let sized = if p.invert {
            max_score - window_score(img, p, px_per_mm, x, y)
        } else {
            window_score(img, p, px_per_mm, x, y)
        };
        assert(SAMPLE_MAX * n - v * n == (SAMPLE_MAX - v) * n) by (nonlinear_arith);
        assert(sized == intensity * n);
        assert(sized * r * r == (intensity * r * r) * n) by (nonlinear_arith)
            requires
                sized == intensity * n,
        ;
        assert(max_score == SAMPLE_MAX * n);
        assert(intensity * r * r >= 0) by (nonlinear_arith)
            requires
                intensity >= 0,
        ;
        lemma_div_common_factor(intensity * r * r, SAMPLE_MAX as int, n);
    }
}

/// Number of line segments in a shape sequence.
pub open spec fn count_lines(shapes: Seq<Shape>) -> nat
    decreases shapes.len(),
{
    if shapes.len() == 0 {
        0
    } else {
        count_lines(shapes.drop_last()) + if shapes.last().geom is Line {
            1nat
        } else {
            0nat
        }
    }
}

/// Number of circles in a shape sequence.
pub open spec fn count_circles(shapes: Seq<Shape>) -> nat
    decreases shapes.len(),
{
    if shapes.len() == 0 {
        0
    } else {
        count_circles(shapes.drop_last()) + if shapes.last().geom is Circle {
            1nat
        } else {
            0nat
        }
    }
}

/// Number of lattice positions among the first `k` of a grid `cols` wide,
/// taken row by row.
pub open spec fn lattice_count(k: int, cols: int) -> int
    decreases k,
{
    if k <= 0 {
        0
    } else {
        lattice_count(k - 1, cols) + if on_lattice((k - 1) / cols, (k - 1) % cols) {
            1int
        } else {
            0int
        }
    }
}

proof fn lemma_counts_concat(a: Seq<Shape>, b: Seq<Shape>)
    ensures
        count_lines(a + b) == count_lines(a) + count_lines(b),
        count_circles(a + b) == count_circles(a) + count_circles(b),
    decreases b.len(),
{
    if b.len() > 0 {
        lemma_counts_concat(a, b.drop_last());
        assert((a + b).drop_last() =~= a + b.drop_last());
        assert((a + b).last() == b.last());
    } else {
        assert(a + b =~= a);
    }
}

proof fn lemma_dots_counts(img: GrayView, p: HalftoneParameters, px_per_mm: int, k: int)
    requires
        k <= 0 || num_cols(p) > 0,
    ensures
        count_lines(dots_before(img, p, px_per_mm, k)) == 0,
        count_circles(dots_before(img, p, px_per_mm, k)) <= lattice_count(k, num_cols(p)),
    decreases k,
{
    if k > 0 {
        lemma_dots_counts(img, p, px_per_mm, k - 1);
        let prev = dots_before(img, p, px_per_mm, k - 1);
        let cols = num_cols(p);
        let row = (k - 1) / cols;
        let col = (k - 1) % cols;
        if keeps_dot(img, p, px_per_mm, row, col) {
            let d = crate::halftone::dot_at(img, p, px_per_mm, row, col);
            assert(prev.push(d).drop_last() =~= prev);
        }
    }
}

proof fn lemma_row_lattice_count(r: int, c: int, cols: int)
    requires
        0 <= r,
        0 <= c <= cols,
    ensures
        lattice_count(r * cols + c, cols) == lattice_count(r * cols, cols) + if r % 2 == 0 {
            (c + 1) / 2
        } else {
            c / 2
        },
    decreases c,
{
    if c > 0 {
        lemma_row_lattice_count(r, c - 1, cols);
        assert(r * cols + (c - 1) >= 0) by (nonlinear_arith)
            requires
                r >= 0,
                cols >= 0,
                c >= 1,
        ;
        crate::halftone::lemma_position_index(r, c - 1, cols);
    }
}

proof fn lemma_grid_lattice_count(r: int, cols: int)
    requires
        0 <= r,
        0 <= cols,
    ensures
        lattice_count(r * cols, cols) == (r * cols + 1) / 2,
    decreases r,
{
    if r > 0 {
        lemma_grid_lattice_count(r - 1, cols);
        lemma_row_lattice_count(r - 1, cols, cols);
        assert((r - 1) * cols + cols == r * cols) by (nonlinear_arith);
        let m = (r - 1) * cols;
        assert((r - 1) % 2 == 0 ==> m % 2 == 0) by (nonlinear_arith)
            requires
                m == (r - 1) * cols,
                r >= 1,
        {
            if (r - 1) % 2 == 0 {
                assert(m == 2 * (((r - 1) / 2) * cols));
            }
        };
        assert((r - 1) % 2 == 1 ==> m % 2 == cols % 2) by (nonlinear_arith)
            requires
                m == (r - 1) * cols,
                r >= 1,
        {
            if (r - 1) % 2 == 1 {
                assert(m == 2 * (((r - 1) / 2) * cols) + cols);
            }
        };
    } else {
        assert(r * cols == 0) by (nonlinear_arith)
            requires
                r == 0,
        ;
    }
}

/// The pattern holds exactly four line segments, the outline, and at most
/// half the lattice's grid positions (rounded up) in circles.
pub proof fn lemma_shape_counts(img: GrayView, p: HalftoneParameters, px_per_mm: int)
    requires
        img.wf(),
        p.valid(),
        valid_density(px_per_mm),
    ensures
        count_lines(halftone_spec(img, p, px_per_mm)) == 4,
        count_circles(halftone_spec(img, p, px_per_mm)) <= (num_rows(p) * num_cols(p) + 1) / 2,
{
    let k = num_rows(p) * num_cols(p);
    if num_cols(p) == 0 {
        assert(k == 0);
    }
    assert(num_rows(p) >= 0);
    lemma_dots_counts(img, p, px_per_mm, k);
    lemma_grid_lattice_count(num_rows(p), num_cols(p));
    lemma_counts_concat(boundary_lines(p), dots_before(img, p, px_per_mm, k));
    let b = boundary_lines(p);
    assert(b.drop_last().drop_last().drop_last().drop_last() =~= Seq::<Shape>::empty());
    assert(count_lines(b) == 4) by {
        reveal_with_fuel(count_lines, 5);
    }
    assert(count_circles(b) == 0) by {
        reveal_with_fuel(count_circles, 5);
    }
}

/// Every dot that is drawn is a visible solid disc: its stroke is positive
/// and exactly as wide as its centre line's diameter, so the end point
/// written for it lies half the stroke width from its centre.
pub proof fn lemma_dots_are_solid_discs(img: GrayView, p: HalftoneParameters, px_per_mm: int, row: int, col: int)
    requires
        img.wf(),
        p.valid(),
        valid_density(px_per_mm),
        0 <= row,
        0 <= col,
        keeps_dot(img, p, px_per_mm, row, col),
    ensures
        dot_at(img, p, px_per_mm, row, col).thickness > 0,
        dot_at(img, p, px_per_mm, row, col).geom matches Geometry::Circle { diameter, .. }
            && diameter == dot_at(img, p, px_per_mm, row, col).thickness,
{
    lemma_lattice_radius_bound(img, p, px_per_mm, row, col);
}

} // verus!
