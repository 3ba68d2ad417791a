//! The halftone generator: lattice planning, dot sizing and the assembly of
//! the shape sequence.
use vstd::prelude::*;
use crate::geometry::{filled_circle_spec, line_spec, Layer, Shape, XYCoord};
use crate::isqrt::{floor_sqrt, isqrt, lemma_floor_sqrt_bounds, lemma_floor_sqrt_monotone, lemma_floor_sqrt_square};
use crate::lemmas::{count_circles, count_lines, lemma_min_diameter_above_max, lemma_shape_counts};
use crate::raster::{is_gray_of_resampled, luma_samples, resample_gray, GrayImage, GrayView, SourceImage};

verus! {

/// Largest accepted length: 100 m, in micrometres.
pub const MAX_LENGTH: u64 = 100_000_000;

/// Largest accepted sampling density, in pixels per millimetre.
pub const MAX_PX_PER_MM: u64 = 1000;

/// Sampling density used when none is chosen.
pub const DEFAULT_PX_PER_MM: u64 = 5;

/// Stroke width of the outline drawn on the fabrication layer.
pub const OUTLINE_WIDTH: i64 = 150;

/// Largest sample value of a pixel.
pub const SAMPLE_MAX: u128 = 255;

/// The characteristics of the pattern to make; lengths in micrometres.
#[derive(Copy, Clone, Debug, PartialEq, Eq, Structural)]
pub struct HalftoneParameters {
    pub dot_spacing: u64,
    pub dot_min_diam: u64,
    pub dot_max_diam: u64,
    pub output_width: u64,
    pub output_height: u64,
    pub invert: bool,
}

impl HalftoneParameters {
    /// Positive spacing and output size; every length within `MAX_LENGTH`.
    pub open spec fn valid(&self) -> bool {
        &&& 0 < self.dot_spacing <= MAX_LENGTH
        &&& self.dot_min_diam <= MAX_LENGTH
        &&& self.dot_max_diam <= MAX_LENGTH
        &&& 0 < self.output_width <= MAX_LENGTH
        &&& 0 < self.output_height <= MAX_LENGTH
    }
}

pub open spec fn valid_density(px_per_mm: int) -> bool {
    1 <= px_per_mm <= MAX_PX_PER_MM
}

/// Radius of the largest dot.
pub open spec fn max_dot_radius(p: HalftoneParameters) -> int {
    p.dot_max_diam as int / 2
}

/// Number of lattice columns: how many half spacings fit into the width left
/// once a largest dot is set aside.
pub open spec fn num_cols(p: HalftoneParameters) -> int {
    let w = p.output_width as int - p.dot_max_diam as int;
    if w > 0 {
        (2 * w) / (p.dot_spacing as int)
    } else {
        0
    }
}

/// Number of lattice rows: how many row pitches (spacing times sin 60 degrees,
/// that is `spacing * sqrt(3) / 2`) fit into the height left once a largest
/// dot is set aside.
pub open spec fn num_rows(p: HalftoneParameters) -> int {
    let h = p.output_height as int - p.dot_max_diam as int;
    if h > 0 {
        let s = p.dot_spacing as int;
        floor_sqrt(((4 * h * h) / (3 * s * s)) as nat) as int
    } else {
        0
    }
}

/// Distance of `rows` row pitches, rounded down.
pub open spec fn rows_extent(p: HalftoneParameters, rows: int) -> int {
    let s = p.dot_spacing as int;
    floor_sqrt((3 * rows * rows * s * s) as nat) as int
}

/// Position of a lattice column, rounded down.
pub open spec fn grid_x(p: HalftoneParameters, col: int) -> int {
    (col * p.dot_spacing + p.dot_max_diam as int) / 2
}

/// Position of a lattice row, rounded down.
pub open spec fn grid_y(p: HalftoneParameters, row: int) -> int {
    (rows_extent(p, row) + p.dot_max_diam as int) / 2
}

/// Centre of the lattice, used to move the pattern onto the origin.
pub open spec fn center_x(p: HalftoneParameters) -> int {
    (num_cols(p) * p.dot_spacing + 2 * p.dot_max_diam as int) / 4
}

pub open spec fn center_y(p: HalftoneParameters) -> int {
    (rows_extent(p, num_rows(p)) + 2 * p.dot_max_diam as int) / 4
}

/// The diagonal lattice keeps the positions whose row and column have equal parity.
pub open spec fn on_lattice(row: int, col: int) -> bool {
    row % 2 == col % 2
}

proof fn lemma_num_rows_bound(p: HalftoneParameters)
    requires
        p.valid(),
    ensures
        0 <= num_rows(p) < 0x8000_0000,
{
    if p.output_height > p.dot_max_diam {
        let h = p.output_height as int - p.dot_max_diam as int;
        let s = p.dot_spacing as int;
        let n = (4 * h * h) / (3 * s * s);
        assert(0 <= 4 * h * h <= 4 * MAX_LENGTH * MAX_LENGTH) by (nonlinear_arith)
            requires
                0 < h <= MAX_LENGTH,
        ;
        assert(3 * s * s >= 1) by (nonlinear_arith)
            requires
                s >= 1,
        ;
        assert(n <= 4 * h * h) by (nonlinear_arith)
            requires
                n == (4 * h * h) / (3 * s * s),
                3 * s * s >= 1,
                4 * h * h >= 0,
        ;
        let r = floor_sqrt(n as nat);
        lemma_floor_sqrt_bounds(n as nat);
        assert(r < 0x8000_0000) by (nonlinear_arith)
            requires
                r * r <= n,
                n <= 4 * MAX_LENGTH * MAX_LENGTH,
        ;
    }
}

/// The lattice's column and row counts.
pub fn lattice_size(p: &HalftoneParameters) -> (r: (u64, u64))
    requires
        p.valid(),
    ensures
        r.0 == num_cols(*p),
        r.1 == num_rows(*p),
        r.1 < 0x8000_0000,
{
    proof {
        lemma_num_rows_bound(*p);
    }
    let cols: u64 = if p.output_width > p.dot_max_diam {
        (2 * (p.output_width - p.dot_max_diam)) / p.dot_spacing
    } else {
        0
    };
    let rows: u64 = if p.output_height > p.dot_max_diam {
        let h: u128 = (p.output_height - p.dot_max_diam) as u128;
        let s: u128 = p.dot_spacing as u128;
        assert(4 * h * h <= 4 * MAX_LENGTH * MAX_LENGTH) by (nonlinear_arith)
            requires
                h <= MAX_LENGTH,
        ;
        assert(3 * s * s <= 3 * MAX_LENGTH * MAX_LENGTH && 3 * s * s >= 3) by (nonlinear_arith)
            requires
                1 <= s <= MAX_LENGTH,
        ;
        let q: u128 = (4 * h * h) / (3 * s * s);
        assert(q <= 4 * h * h) by (nonlinear_arith)
            requires
                q == (4 * h * h) / (3 * s * s),
                3 * s * s >= 1,
        ;
        isqrt(q)
    } else {
        0
    };
    (cols, rows)
}

/// Distance of `rows` row pitches, rounded down.
fn row_extent(p: &HalftoneParameters, rows: u64) -> (r: u64)
    requires
        p.valid(),
        rows < 0x8000_0000,
    ensures
        r == rows_extent(*p, rows as int),
        r < 0x4000_0000_0000_0000,
{
    let s: u128 = p.dot_spacing as u128;
    let k: u128 = rows as u128;
    assert(k * s < 0x8000_0000 * 0x1000_0000) by (nonlinear_arith)
        requires
            k < 0x8000_0000,
            s <= MAX_LENGTH,
    ;
    let ks: u128 = k * s;
    assert(3 * ks * ks < 0x8000_0000 * 0x8000_0000 * 0x8000_0000 * 0x8000_0000) by (nonlinear_arith)
        requires
            ks < 0x8000_0000 * 0x1000_0000,
    ;
    let n: u128 = 3 * ks * ks;
    assert(n == 3 * k * k * s * s) by (nonlinear_arith)
        requires
            n == 3 * ks * ks,
            ks == k * s,
    ;
    let r = isqrt(n);
    proof {
        lemma_floor_sqrt_bounds(n as nat);
        assert(r < 0x4000_0000_0000_0000) by (nonlinear_arith)
            requires
                r * r <= n,
                n < 0x8000_0000 * 0x8000_0000 * 0x8000_0000 * 0x8000_0000,
        ;
    }
    r
}

/// The point of the lattice at `row`, `col`, before centring.
pub fn grid_coord(p: &HalftoneParameters, row: u64, col: u64) -> (r: XYCoord)
    requires
        p.valid(),
        row < num_rows(*p),
        col < num_cols(*p),
    ensures
        r.x == grid_x(*p, col as int),
        r.y == grid_y(*p, row as int),
        max_dot_radius(*p) <= r.x < 0x4000_0000_0000_0000,
        max_dot_radius(*p) <= r.y < 0x4000_0000_0000_0000,
{
    proof {
        lemma_num_rows_bound(*p);
        let w = p.output_width as int - p.dot_max_diam as int;
        assert(col * p.dot_spacing <= 2 * w) by (nonlinear_arith)
            requires
                col < (2 * w) / (p.dot_spacing as int),
                p.dot_spacing > 0,
                w > 0,
        ;
    }
    let x: u64 = (col * p.dot_spacing + p.dot_max_diam) / 2;
    let e = row_extent(p, row);
    let y: u64 = (e + p.dot_max_diam) / 2;
    XYCoord { x: x as i64, y: y as i64 }
}

/// The centre of the lattice.
pub fn lattice_center(p: &HalftoneParameters) -> (r: XYCoord)
    requires
        p.valid(),
    ensures
        r.x == center_x(*p),
        r.y == center_y(*p),
        0 <= r.x < 0x4000_0000_0000_0000,
        0 <= r.y < 0x4000_0000_0000_0000,
{
    let (cols, rows) = lattice_size(p);
    proof {
        if p.output_width > p.dot_max_diam {
            let w = p.output_width as int - p.dot_max_diam as int;
            assert(cols * p.dot_spacing <= 2 * w) by (nonlinear_arith)
                requires
                    cols == (2 * w) / (p.dot_spacing as int),
                    p.dot_spacing > 0,
                    w > 0,
            ;
        }
    }
    let x: u64 = (cols * p.dot_spacing + 2 * p.dot_max_diam) / 4;
    let e = row_extent(p, rows);
    let y: u64 = (e + 2 * p.dot_max_diam) / 4;
    XYCoord { x: x as i64, y: y as i64 }
}

/// First pixel of the sampling window around a lattice coordinate:
/// `(coord - max_dot_radius) * px_per_mm`, in pixels, rounded down.
pub open spec fn window_start(p: HalftoneParameters, px_per_mm: int, coord: int) -> int {
    (coord - max_dot_radius(p)) * px_per_mm / 1000
}

/// Side of the square sampling window: the largest dot's diameter in pixels,
/// rounded up.
pub open spec fn window_side(p: HalftoneParameters, px_per_mm: int) -> int {
    (p.dot_max_diam * px_per_mm + 999) / 1000
}

/// `v`, capped at `bound`.
pub open spec fn clip(v: int, bound: int) -> int {
    if v < bound {
        v
    } else {
        bound
    }
}

/// Sum of row `y` of the raster over the columns `x0 .. x1`.
pub open spec fn row_sum(img: GrayView, y: int, x0: int, x1: int) -> int
    decreases x1 - x0,
{
    if x1 <= x0 {
        0
    } else {
        row_sum(img, y, x0, x1 - 1) + img.sample(x1 - 1, y)
    }
}

/// Sum of the raster over the rows `y0 .. y1` and the columns `x0 .. x1`.
pub open spec fn window_sum(img: GrayView, y0: int, y1: int, x0: int, x1: int) -> int
    decreases y1 - y0,
{
    if y1 <= y0 {
        0
    } else {
        window_sum(img, y0, y1 - 1, x0, x1) + row_sum(img, y1 - 1, x0, x1)
    }
}

/// The sampling window around `(x, y)`, cut to the raster's bounds:
/// `(x0, x1, y0, y1)`, half-open. Pixels outside the raster are not sampled.
pub open spec fn window_bounds(img: GrayView, p: HalftoneParameters, px_per_mm: int, x: int, y: int) -> (int, int, int, int) {
    let side = window_side(p, px_per_mm);
    let left = window_start(p, px_per_mm, x);
    let top = window_start(p, px_per_mm, y);
    (
        clip(left, img.width),
        clip(left + side, img.width),
        clip(top, img.height),
        clip(top + side, img.height),
    )
}

/// Sum of the samples in the window around `(x, y)`.
pub open spec fn window_score(img: GrayView, p: HalftoneParameters, px_per_mm: int, x: int, y: int) -> int {
    let (x0, x1, y0, y1) = window_bounds(img, p, px_per_mm, x, y);
    window_sum(img, y0, y1, x0, x1)
}

/// Largest possible sum over the window around `(x, y)`: `SAMPLE_MAX` per pixel.
pub open spec fn window_max_score(img: GrayView, p: HalftoneParameters, px_per_mm: int, x: int, y: int) -> int {
    let (x0, x1, y0, y1) = window_bounds(img, p, px_per_mm, x, y);
    SAMPLE_MAX * ((y1 - y0) * (x1 - x0))
}

/// Radius whose disc area is the fraction `score / max_score` of the area of
/// a disc of radius `max_radius`: `sqrt(score / max_score * max_radius^2)`,
/// rounded down; zero where nothing was sampled.
pub open spec fn intensity_radius(score: int, max_score: int, max_radius: int) -> int {
    if max_score <= 0 {
        0
    } else {
        floor_sqrt(((score * max_radius * max_radius) / max_score) as nat) as int
    }
}

/// The intensity score that sizes the dot: the sampled sum, or its
/// complement to the largest sum when the pattern is inverted.
pub open spec fn sized_score(p: HalftoneParameters, score: int, max_score: int) -> int {
    if p.invert {
        max_score - score
    } else {
        score
    }
}

/// Radius of the dot at the lattice coordinate `(x, y)`.
pub open spec fn dot_radius_spec(img: GrayView, p: HalftoneParameters, px_per_mm: int, x: int, y: int) -> int {
    let score = window_score(img, p, px_per_mm, x, y);
    let max_score = window_max_score(img, p, px_per_mm, x, y);
    intensity_radius(sized_score(p, score, max_score), max_score, max_dot_radius(p))
}

/// A dot is left out when it has no area or is smaller than the smallest
/// diameter allowed.
pub open spec fn suppressed(p: HalftoneParameters, radius: int) -> bool {
    radius <= 0 || 2 * radius < p.dot_min_diam
}

proof fn lemma_row_sum_bound(img: GrayView, y: int, x0: int, x1: int)
    requires
        img.wf(),
        0 <= y < img.height,
        0 <= x0 <= x1 <= img.width,
    ensures
        0 <= row_sum(img, y, x0, x1) <= SAMPLE_MAX * (x1 - x0),
    decreases x1 - x0,
{
    if x1 > x0 {
        lemma_row_sum_bound(img, y, x0, x1 - 1);
    }
}

pub(crate) proof fn lemma_window_sum_bound(img: GrayView, y0: int, y1: int, x0: int, x1: int)
    requires
        img.wf(),
        0 <= y0 <= y1 <= img.height,
        0 <= x0 <= x1 <= img.width,
    ensures
        0 <= window_sum(img, y0, y1, x0, x1) <= SAMPLE_MAX * ((y1 - y0) * (x1 - x0)),
    decreases y1 - y0,
{
    if y1 > y0 {
        lemma_window_sum_bound(img, y0, y1 - 1, x0, x1);
        lemma_row_sum_bound(img, y1 - 1, x0, x1);
        assert(SAMPLE_MAX * ((y1 - 1 - y0) * (x1 - x0)) + SAMPLE_MAX * (x1 - x0)
            == SAMPLE_MAX * ((y1 - y0) * (x1 - x0))) by (nonlinear_arith);
    }
}

/// Sum of the raster over the rows `y0 .. y1` and the columns `x0 .. x1`.
fn sum_window(img: &GrayImage, y0: u32, y1: u32, x0: u32, x1: u32) -> (r: u128)
    requires
        img.wf(),
        y0 <= y1 <= img.height,
        x0 <= x1 <= img.width,
    ensures
        r == window_sum(img@, y0 as int, y1 as int, x0 as int, x1 as int),
{
    let len: usize = img.pixels.len();
    let mut total: u128 = 0;
    let mut y: u32 = y0;
    while y < y1
        invariant
            img.wf(),
            len == img.pixels@.len(),
            y0 <= y <= y1 <= img.height,
            x0 <= x1 <= img.width,
            total == window_sum(img@, y0 as int, y as int, x0 as int, x1 as int),
        decreases y1 - y,
    {
        let mut row: u128 = 0;
        let mut x: u32 = x0;
        while x < x1
            invariant
                img.wf(),
                len == img.pixels@.len(),
                y0 <= y < y1 <= img.height,
                x0 <= x <= x1 <= img.width,
                row == row_sum(img@, y as int, x0 as int, x as int),
            decreases x1 - x,
        {
            proof {
                lemma_row_sum_bound(img@, y as int, x0 as int, x as int);
                assert((y as int) * (img.width as int) + (x as int) < (img.width as int) * (img.height as int))
                    by (nonlinear_arith)
                    requires
                        y < img.height,
                        x < img.width,
                ;
                assert(len == (img.width as int) * (img.height as int));
                assert(SAMPLE_MAX * (x - x0) <= SAMPLE_MAX * 0x1_0000_0000) by (nonlinear_arith)
                    requires
                        x - x0 <= 0x1_0000_0000,
                ;
            }
            let i: usize = (y as usize) * (img.width as usize) + (x as usize);
            row = row + img.pixels[i] as u128;
            x = x + 1;
        }
        proof {
            lemma_window_sum_bound(img@, y0 as int, y as int, x0 as int, x1 as int);
            lemma_row_sum_bound(img@, y as int, x0 as int, x1 as int);
            assert(SAMPLE_MAX * ((y - y0) * (x1 - x0)) <= SAMPLE_MAX * (0x1_0000_0000 * 0x1_0000_0000))
                by (nonlinear_arith)
                requires
                    y - y0 <= 0x1_0000_0000,
                    x1 - x0 <= 0x1_0000_0000,
                    x1 >= x0,
                    y >= y0,
            ;
        }
        total = total + row;
        y = y + 1;
    }
    total
}

/// Radius of a dot whose area is the fraction `score / max_score` of the
/// largest dot's area.
pub fn radius_from_intensity(score: u128, max_score: u128, max_radius: u64) -> (r: u64)
    requires
        score <= max_score,
        max_score <= SAMPLE_MAX * 0x1_0000_0000 * 0x1_0000_0000,
        max_radius <= MAX_LENGTH,
    ensures
        r == intensity_radius(score as int, max_score as int, max_radius as int),
        r <= max_radius,
{
    if max_score == 0 {
        return 0;
    }
    assert((max_radius as int) * (max_radius as int) <= MAX_LENGTH * MAX_LENGTH) by (nonlinear_arith)
        requires
            max_radius <= MAX_LENGTH,
    ;
    let rr: u128 = (max_radius as u128) * (max_radius as u128);
    assert((score as int) * (rr as int) <= 0x1_0000_0000_0000_0000_0000_0000_0000_0000 - 1) by (nonlinear_arith)
        requires
            score <= SAMPLE_MAX * 0x1_0000_0000 * 0x1_0000_0000,
            rr <= MAX_LENGTH * MAX_LENGTH,
    ;
    assert((score as int) * (rr as int) == (score as int) * (max_radius as int) * (max_radius as int))
        by (nonlinear_arith)
        requires
            rr == max_radius * max_radius,
    ;
    let q: u128 = (score * rr) / max_score;
    assert(q <= rr) by (nonlinear_arith)
        requires
            q == (score as int * rr as int) / (max_score as int),
            score <= max_score,
            max_score > 0,
    ;
    let r = isqrt(q);
    proof {
        lemma_floor_sqrt_monotone(q as nat, rr as nat);
        lemma_floor_sqrt_square(max_radius as nat);
    }
    r
}

/// Radius of the dot at the lattice coordinate `coord`.
pub fn dot_radius(img: &GrayImage, p: &HalftoneParameters, px_per_mm: u64, coord: XYCoord) -> (r: u64)
    requires
        img.wf(),
        p.valid(),
        valid_density(px_per_mm as int),
        max_dot_radius(*p) <= coord.x < 0x4000_0000_0000_0000,
        max_dot_radius(*p) <= coord.y < 0x4000_0000_0000_0000,
    ensures
        r == dot_radius_spec(img@, *p, px_per_mm as int, coord.x as int, coord.y as int),
        r <= max_dot_radius(*p),
{
    let radius: u64 = p.dot_max_diam / 2;
    let ppm: u128 = px_per_mm as u128;
    assert((p.dot_max_diam as int) * (ppm as int) <= MAX_LENGTH * MAX_PX_PER_MM) by (nonlinear_arith)
        requires
            p.dot_max_diam <= MAX_LENGTH,
            ppm <= MAX_PX_PER_MM,
    ;
    assert(((coord.x - radius) as int) * (ppm as int) <= 0x4000_0000_0000_0000 * MAX_PX_PER_MM
        && ((coord.y - radius) as int) * (ppm as int) <= 0x4000_0000_0000_0000 * MAX_PX_PER_MM)
        by (nonlinear_arith)
        requires
            0 <= coord.x - radius < 0x4000_0000_0000_0000,
            0 <= coord.y - radius < 0x4000_0000_0000_0000,
            ppm <= MAX_PX_PER_MM,
    ;
    let side: u128 = (p.dot_max_diam as u128 * ppm + 999) / 1000;
    let left: u128 = ((coord.x as u64 - radius) as u128 * ppm) / 1000;
    let top: u128 = ((coord.y as u64 - radius) as u128 * ppm) / 1000;
    let w: u128 = img.width as u128;
    let h: u128 = img.height as u128;
    let x0: u32 = if left < w { left as u32 } else { img.width };
    let x1: u32 = if left + side < w { (left + side) as u32 } else { img.width };
    let y0: u32 = if top < h { top as u32 } else { img.height };
    let y1: u32 = if top + side < h { (top + side) as u32 } else { img.height };
    let score: u128 = sum_window(img, y0, y1, x0, x1);
    let dy: u128 = (y1 - y0) as u128;
    let dx: u128 = (x1 - x0) as u128;
    assert(dy * dx <= 0x1_0000_0000 * 0x1_0000_0000) by (nonlinear_arith)
        requires
            dy <= 0x1_0000_0000,
            dx <= 0x1_0000_0000,
    ;
    let max_score: u128 = SAMPLE_MAX * (dy * dx);
    proof {
        lemma_window_sum_bound(img@, y0 as int, y1 as int, x0 as int, x1 as int);
    }
    let sized: u128 = if p.invert { max_score - score } else { score };
    radius_from_intensity(sized, max_score, radius)
}

/// A point given by integer coordinates.
pub open spec fn xy(x: int, y: int) -> XYCoord {
    XYCoord { x: x as i64, y: y as i64 }
}

/// The outline drawn on the fabrication layer: a rectangle centred on the
/// origin whose half sides are the lattice centre's coordinates, given as its
/// top, bottom, right and left edges.
pub open spec fn boundary_lines(p: HalftoneParameters) -> Seq<Shape> {
    let hw = center_x(p);
    let hh = center_y(p);
    let fab = Layer::FrontFabrication;
    let w = OUTLINE_WIDTH as int;
    seq![
        line_spec(xy(-hw, hh), xy(hw, hh), w, fab),
        line_spec(xy(-hw, -hh), xy(hw, -hh), w, fab),
        line_spec(xy(hw, -hh), xy(hw, hh), w, fab),
        line_spec(xy(-hw, -hh), xy(-hw, hh), w, fab),
    ]
}

/// Radius of the dot at lattice row `row`, column `col`.
pub open spec fn lattice_radius(img: GrayView, p: HalftoneParameters, px_per_mm: int, row: int, col: int) -> int {
    dot_radius_spec(img, p, px_per_mm, grid_x(p, col), grid_y(p, row))
}

/// Whether a dot is drawn at lattice row `row`, column `col`.
pub open spec fn keeps_dot(img: GrayView, p: HalftoneParameters, px_per_mm: int, row: int, col: int) -> bool {
    on_lattice(row, col) && !suppressed(p, lattice_radius(img, p, px_per_mm, row, col))
}

/// The dot drawn at lattice row `row`, column `col`, moved so that the
/// lattice centre falls on the origin.
pub open spec fn dot_at(img: GrayView, p: HalftoneParameters, px_per_mm: int, row: int, col: int) -> Shape {
    filled_circle_spec(
        xy(grid_x(p, col) - center_x(p), grid_y(p, row) - center_y(p)),
        lattice_radius(img, p, px_per_mm, row, col),
        Layer::FrontSilkscreen,
    )
}

/// The dots of the first `k` lattice positions, taken row by row.
pub open spec fn dots_before(img: GrayView, p: HalftoneParameters, px_per_mm: int, k: int) -> Seq<Shape>
    decreases k,
{
    if k <= 0 {
        Seq::empty()
    } else {
        let prev = dots_before(img, p, px_per_mm, k - 1);
        let row = (k - 1) / num_cols(p);
        let col = (k - 1) % num_cols(p);
        if keeps_dot(img, p, px_per_mm, row, col) {
            prev.push(dot_at(img, p, px_per_mm, row, col))
        } else {
            prev
        }
    }
}

/// The whole pattern: the outline, then the kept dots in row-major order.
pub open spec fn halftone_spec(img: GrayView, p: HalftoneParameters, px_per_mm: int) -> Seq<Shape> {
    boundary_lines(p) + dots_before(img, p, px_per_mm, num_rows(p) * num_cols(p))
}

pub(crate) proof fn lemma_position_index(row: int, col: int, cols: int)
    requires
        0 <= row,
        0 <= col < cols,
    ensures
        (row * cols + col) / cols == row,
        (row * cols + col) % cols == col,
{
    vstd::arithmetic::div_mod::lemma_fundamental_div_mod_converse(row * cols + col, cols, row, col);
}

/// The halftone pattern of a grayscale raster: the outline on the fabrication
/// layer, then one filled disc on the silkscreen for each kept lattice
/// position, row by row.
pub fn halftone_shapes(img: &GrayImage, p: &HalftoneParameters, px_per_mm: u64) -> (r: Vec<Shape>)
    requires
        img.wf(),
        p.valid(),
        valid_density(px_per_mm as int),
    ensures
        r@ == halftone_spec(img@, *p, px_per_mm as int),
{
    let (cols, rows) = lattice_size(p);
    let center = lattice_center(p);
    let hw = center.x;
    let hh = center.y;
    let mut shapes: Vec<Shape> = Vec::new();
    shapes.push(Shape::line(XYCoord { x: -hw, y: hh }, XYCoord { x: hw, y: hh }, OUTLINE_WIDTH, Layer::FrontFabrication));
    shapes.push(Shape::line(XYCoord { x: -hw, y: -hh }, XYCoord { x: hw, y: -hh }, OUTLINE_WIDTH, Layer::FrontFabrication));
    shapes.push(Shape::line(XYCoord { x: hw, y: -hh }, XYCoord { x: hw, y: hh }, OUTLINE_WIDTH, Layer::FrontFabrication));
    shapes.push(Shape::line(XYCoord { x: -hw, y: -hh }, XYCoord { x: -hw, y: hh }, OUTLINE_WIDTH, Layer::FrontFabrication));
    let ghost px = px_per_mm as int;
    assert(shapes@ =~= boundary_lines(*p) + dots_before(img@, *p, px, 0));
    let mut row: u64 = 0;
    while row < rows
        invariant
            img.wf(),
            p.valid(),
            valid_density(px),
            px == px_per_mm,
            cols == num_cols(*p),
            rows == num_rows(*p),
            rows < 0x8000_0000,
            center.x == center_x(*p),
            center.y == center_y(*p),
            0 <= center.x < 0x4000_0000_0000_0000,
            0 <= center.y < 0x4000_0000_0000_0000,
            row <= rows,
            shapes@ == boundary_lines(*p) + dots_before(img@, *p, px, row * cols),
        decreases rows - row,
    {
        let mut col: u64 = 0;
        while col < cols
            invariant
                img.wf(),
                p.valid(),
                valid_density(px),
                px == px_per_mm,
                cols == num_cols(*p),
                rows == num_rows(*p),
                center.x == center_x(*p),
                center.y == center_y(*p),
                0 <= center.x < 0x4000_0000_0000_0000,
                0 <= center.y < 0x4000_0000_0000_0000,
                row < rows,
                col <= cols,
                shapes@ == boundary_lines(*p) + dots_before(img@, *p, px, row * cols + col),
            decreases cols - col,
        {
            let ghost k = row * cols + col;
            proof {
                lemma_position_index(row as int, col as int, cols as int);
            }
            assert(dots_before(img@, *p, px, k + 1) == {
                let prev = dots_before(img@, *p, px, k);
                if keeps_dot(img@, *p, px, row as int, col as int) {
                    prev.push(dot_at(img@, *p, px, row as int, col as int))
                } else {
                    prev
                }
            });
            if row % 2 == col % 2 {
                let coord = grid_coord(p, row, col);
                let radius = dot_radius(img, p, px_per_mm, coord);
                if radius > 0 && 2 * radius >= p.dot_min_diam {
                    let shape = Shape::filled_circle(coord.sub(center), radius as i64, Layer::FrontSilkscreen);
                    shapes.push(shape);
                    assert(shapes@ =~= boundary_lines(*p) + dots_before(img@, *p, px, k + 1));
                }
            }
            col = col + 1;
        }
        assert(row * cols + cols == (row + 1) * cols) by (nonlinear_arith);
        row = row + 1;
    }
    shapes
}

/// Pixels of the working raster across `length` micrometres: the length at
/// `px_per_mm`, rounded up.
pub open spec fn raster_extent(length: int, px_per_mm: int) -> int {
    (length * px_per_mm + 999) / 1000
}

/// The working raster fits in memory: the resampling buffers take 16 bytes
/// per pixel.
pub open spec fn raster_fits(src: &SourceImage, p: HalftoneParameters, px_per_mm: int) -> bool {
    let w = raster_extent(p.output_width as int, px_per_mm);
    let h = raster_extent(p.output_height as int, px_per_mm);
    &&& 16 * (src.width as int) * h <= isize::MAX
    &&& 16 * w * h <= isize::MAX
}

/// Whether the working raster for `src` fits in memory.
pub fn raster_fits_in_memory(src: &SourceImage, p: &HalftoneParameters, px_per_mm: u64) -> (r: bool)
    requires
        p.valid(),
        valid_density(px_per_mm as int),
    ensures
        r == raster_fits(src, *p, px_per_mm as int),
{
    assert((p.output_width as int) * (px_per_mm as int) <= MAX_LENGTH * MAX_PX_PER_MM
        && (p.output_height as int) * (px_per_mm as int) <= MAX_LENGTH * MAX_PX_PER_MM)
        by (nonlinear_arith)
        requires
            p.output_width <= MAX_LENGTH,
            p.output_height <= MAX_LENGTH,
            px_per_mm <= MAX_PX_PER_MM,
    ;
    let w: u128 = (p.output_width as u128 * px_per_mm as u128 + 999) / 1000;
    let h: u128 = (p.output_height as u128 * px_per_mm as u128 + 999) / 1000;
    assert(16 * (src.width as int) * h <= 16 * 0x1_0000_0000 * MAX_LENGTH && 16 * w * h <= 16 * MAX_LENGTH * MAX_LENGTH)
        by (nonlinear_arith)
        requires
            w <= MAX_LENGTH,
            h <= MAX_LENGTH,
            src.width < 0x1_0000_0000,
    ;
    let limit: u128 = isize::MAX as u128;
    16 * (src.width as u128) * h <= limit && 16 * w * h <= limit
}

/// The halftone pattern of a colour image: the image is resampled to the
/// output size at `px_per_mm` and turned to grayscale, and the pattern of that
/// raster is made. The result is the pattern of a grayscale raster of that
/// size; which samples the resampling gives is not stated.
pub fn make_halftone(src: &SourceImage, p: &HalftoneParameters, px_per_mm: u64) -> (r: Vec<Shape>)
    requires
        src.wf(),
        p.valid(),
        valid_density(px_per_mm as int),
        raster_fits(src, *p, px_per_mm as int),
    ensures
        exists|g: GrayView|
            {
                &&& is_gray_of_resampled(
                    g,
                    raster_extent(p.output_width as int, px_per_mm as int) as u32,
                    raster_extent(p.output_height as int, px_per_mm as int) as u32,
                )
                &&& r@ == #[trigger] halftone_spec(g, *p, px_per_mm as int)
            },
        raster_extent(p.output_width as int, px_per_mm as int) == src.width
            && raster_extent(p.output_height as int, px_per_mm as int) == src.height
            ==> r@ == halftone_spec(
            GrayView {
                width: src.width as int,
                height: src.height as int,
                pixels: luma_samples(src.rgba@, (src.width as int) * (src.height as int)),
            },
            *p,
            px_per_mm as int,
        ),
        r@.len() >= 4,
        r@.subrange(0, 4) == boundary_lines(*p),
        count_lines(r@) == 4,
        count_circles(r@) <= (num_rows(*p) * num_cols(*p) + 1) / 2,
        p.dot_min_diam > 2 * max_dot_radius(*p) ==> r@ == boundary_lines(*p),
{
    assert((p.output_width as int) * (px_per_mm as int) <= MAX_LENGTH * MAX_PX_PER_MM
        && (p.output_height as int) * (px_per_mm as int) <= MAX_LENGTH * MAX_PX_PER_MM)
        by (nonlinear_arith)
        requires
            p.output_width <= MAX_LENGTH,
            p.output_height <= MAX_LENGTH,
            px_per_mm <= MAX_PX_PER_MM,
    ;
    assert((p.output_width as int) * (px_per_mm as int) >= 1 && (p.output_height as int) * (px_per_mm as int) >= 1)
        by (nonlinear_arith)
        requires
            p.output_width >= 1,
            p.output_height >= 1,
            px_per_mm >= 1,
    ;
    let w: u32 = ((p.output_width * px_per_mm + 999) / 1000) as u32;
    let h: u32 = ((p.output_height * px_per_mm + 999) / 1000) as u32;
    let gray = resample_gray(src, w, h);
    let r = halftone_shapes(&gray, p, px_per_mm);
    assert(r@ == halftone_spec(gray@, *p, px_per_mm as int));
    proof {
        lemma_shape_counts(gray@, *p, px_per_mm as int);
        if p.dot_min_diam > 2 * max_dot_radius(*p) {
            lemma_min_diameter_above_max(gray@, *p, px_per_mm as int);
        }
        assert(r@.subrange(0, 4) =~= boundary_lines(*p));
    }
    r
}

} // verus!
