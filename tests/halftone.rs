use halftone::config::{resolve_output_size, ConfigError};
use halftone::footprint::footprint_string;
use halftone::geometry::{Geometry, Layer, Shape, XYCoord};
use halftone::halftone::{
    dot_radius, grid_coord, halftone_shapes, lattice_center, lattice_size, make_halftone,
    radius_from_intensity, raster_fits_in_memory, HalftoneParameters, DEFAULT_PX_PER_MM,
};
use halftone::isqrt::isqrt;
use halftone::raster::{resample_gray, GrayImage, SourceImage};

fn params(invert: bool) -> HalftoneParameters {
    HalftoneParameters {
        dot_spacing: 1100,
        dot_min_diam: 150,
        dot_max_diam: 1200,
        output_width: 10_000,
        output_height: 10_000,
        invert,
    }
}

fn uniform_gray(width: u32, height: u32, v: u8) -> GrayImage {
    GrayImage { width, height, pixels: vec![v; (width * height) as usize] }
}

fn uniform_rgba(width: u32, height: u32, rgba: [u8; 4]) -> SourceImage {
    let mut data = Vec::new();
    for _ in 0..(width * height) {
        data.extend_from_slice(&rgba);
    }
    SourceImage { width, height, rgba: data }
}

fn circles(shapes: &[Shape]) -> Vec<(XYCoord, i64, i64)> {
    shapes
        .iter()
        .filter_map(|s| match s.geom {
            Geometry::Circle { center, diameter } => Some((center, diameter, s.thickness)),
            Geometry::Line { .. } => None,
        })
        .collect()
}

fn assert_outline(shapes: &[Shape], hw: i64, hh: i64) {
    let expected = [
        ((-hw, hh), (hw, hh)),
        ((-hw, -hh), (hw, -hh)),
        ((hw, -hh), (hw, hh)),
        ((-hw, -hh), (-hw, hh)),
    ];
    for (i, (a, b)) in expected.iter().enumerate() {
        let s = &shapes[i];
        assert_eq!(s.layer, Layer::FrontFabrication);
        assert_eq!(s.thickness, 150);
        assert_eq!(
            s.geom,
            Geometry::Line { ends: [XYCoord { x: a.0, y: a.1 }, XYCoord { x: b.0, y: b.1 }] }
        );
    }
}

#[test]
fn square_roots() {
    assert_eq!(isqrt(0), 0);
    assert_eq!(isqrt(1), 1);
    assert_eq!(isqrt(15), 3);
    assert_eq!(isqrt(16), 4);
    assert_eq!(isqrt(360_000), 600);
    assert_eq!(isqrt(90_352), 300);
    assert_eq!(isqrt((1u128 << 124) - 1), (1u64 << 62) - 1);
}

#[test]
fn lattice_of_ten_millimetre_square() {
    let p = params(false);
    assert_eq!(lattice_size(&p), (16, 9));
    assert_eq!(lattice_center(&p), XYCoord { x: 5000, y: 4886 });
    assert_eq!(grid_coord(&p, 0, 0), XYCoord { x: 600, y: 600 });
    assert_eq!(grid_coord(&p, 1, 1), XYCoord { x: 1150, y: 1552 });
    assert_eq!(grid_coord(&p, 8, 15), XYCoord { x: 8850, y: 8221 });
}

#[test]
fn lattice_empty_when_no_room() {
    let mut p = params(false);
    p.output_width = 1200;
    p.output_height = 900;
    assert_eq!(lattice_size(&p), (0, 0));
    let shapes = halftone_shapes(&uniform_gray(6, 5, 255), &p, DEFAULT_PX_PER_MM);
    assert_eq!(shapes.len(), 4);
    assert_outline(&shapes, 600, 600);
}

#[test]
fn intensity_radius_values() {
    assert_eq!(radius_from_intensity(255, 255, 600), 600);
    assert_eq!(radius_from_intensity(0, 255, 600), 0);
    assert_eq!(radius_from_intensity(64, 255, 600), 300);
    assert_eq!(radius_from_intensity(1, 4, 600), 300);
    assert_eq!(radius_from_intensity(0, 0, 600), 0);
}

#[test]
fn white_square_gives_full_dots() {
    let p = params(false);
    let img = uniform_gray(50, 50, 255);
    let shapes = halftone_shapes(&img, &p, DEFAULT_PX_PER_MM);
    assert_outline(&shapes, 5000, 4886);
    let dots = circles(&shapes);
    assert_eq!(shapes.len(), 4 + dots.len());
    assert_eq!(dots.len(), 72);
    for (_, diameter, thickness) in &dots {
        assert_eq!(*diameter, 600);
        assert_eq!(*thickness, 600);
    }
    assert_eq!(dots[0].0, XYCoord { x: -4400, y: -4286 });
    assert_eq!(dots[1].0, XYCoord { x: -3300, y: -4286 });
    assert_eq!(dots[8].0, XYCoord { x: -3850, y: -3334 });
}

#[test]
fn black_square_gives_outline_only() {
    let p = params(false);
    let shapes = halftone_shapes(&uniform_gray(50, 50, 0), &p, DEFAULT_PX_PER_MM);
    assert_eq!(shapes.len(), 4);
    assert_outline(&shapes, 5000, 4886);
    assert_eq!(dot_radius(&uniform_gray(50, 50, 0), &p, 5, XYCoord { x: 600, y: 600 }), 0);
}

#[test]
fn shape_counts_bounded_by_half_the_grid() {
    let p = params(false);
    let (cols, rows) = lattice_size(&p);
    for v in [0u8, 1, 64, 128, 200, 255] {
        let shapes = halftone_shapes(&uniform_gray(50, 50, v), &p, DEFAULT_PX_PER_MM);
        let lines = shapes.iter().filter(|s| matches!(s.geom, Geometry::Line { .. })).count();
        assert_eq!(lines, 4);
        assert!(circles(&shapes).len() as u64 <= (rows * cols + 1) / 2);
    }
}

#[test]
fn uniform_gray_radius() {
    let p = params(false);
    let shapes = halftone_shapes(&uniform_gray(50, 50, 64), &p, DEFAULT_PX_PER_MM);
    let dots = circles(&shapes);
    assert_eq!(dots.len(), 72);
    for (_, diameter, thickness) in &dots {
        assert_eq!(*diameter, 300);
        assert_eq!(*thickness, 300);
    }
}

#[test]
fn min_diameter_above_max_suppresses_all_dots() {
    let mut p = params(false);
    p.dot_min_diam = 1201;
    let shapes = halftone_shapes(&uniform_gray(50, 50, 255), &p, DEFAULT_PX_PER_MM);
    assert_eq!(shapes.len(), 4);
    assert_outline(&shapes, 5000, 4886);
}

#[test]
fn small_dots_are_suppressed() {
    let mut p = params(false);
    p.dot_min_diam = 700;
    // intensity 64/255 gives a radius of 300, a diameter of 600
    let shapes = halftone_shapes(&uniform_gray(50, 50, 64), &p, DEFAULT_PX_PER_MM);
    assert_eq!(shapes.len(), 4);
}

#[test]
fn invert_complements_intensity() {
    let img = uniform_gray(50, 50, 64);
    let at = XYCoord { x: 600, y: 600 };
    let plain = dot_radius(&img, &params(false), 5, at);
    let inverted = dot_radius(&img, &params(true), 5, at);
    assert_eq!(plain, radius_from_intensity(64 * 36, 255 * 36, 600));
    assert_eq!(inverted, radius_from_intensity((255 - 64) * 36, 255 * 36, 600));
    assert_eq!(inverted, 519);
    let white = halftone_shapes(&uniform_gray(50, 50, 255), &params(true), 5);
    assert_eq!(white.len(), 4);
    let black = halftone_shapes(&uniform_gray(50, 50, 0), &params(true), 5);
    assert_eq!(circles(&black).len(), 72);
}

#[test]
fn window_is_cut_at_raster_edges() {
    let p = params(false);
    // a raster too small for the lattice: dots beyond it sample nothing
    let img = uniform_gray(10, 10, 255);
    let shapes = halftone_shapes(&img, &p, DEFAULT_PX_PER_MM);
    let dots = circles(&shapes);
    assert!(!dots.is_empty());
    assert!(dots.len() < 72);
    assert_eq!(dot_radius(&img, &p, 5, XYCoord { x: 8850, y: 8221 }), 0);
    assert_eq!(dot_radius(&img, &p, 5, XYCoord { x: 600, y: 600 }), 600);
}

#[test]
fn half_lit_window() {
    let p = params(false);
    // left half white, right half black: a window straddling the edge
    let mut img = uniform_gray(12, 6, 0);
    for y in 0..6 {
        for x in 0..6 {
            img.pixels[y * 12 + x] = 255;
        }
    }
    // window at x = 1200 covers pixels 3 .. 9: three white, three black
    assert_eq!(dot_radius(&img, &p, 5, XYCoord { x: 1200, y: 600 }), 424);
}

#[test]
fn same_input_same_text() {
    let p = params(false);
    let mut img = uniform_gray(50, 50, 0);
    for (i, px) in img.pixels.iter_mut().enumerate() {
        *px = (i * 7 % 256) as u8;
    }
    let a = footprint_string(&halftone_shapes(&img, &p, DEFAULT_PX_PER_MM));
    let b = footprint_string(&halftone_shapes(&img, &p, DEFAULT_PX_PER_MM));
    assert_eq!(a, b);
    assert!(a.starts_with("(module test (layer F.Cu) (tedit 5BDB7444)\n (fp_line (start -5.000 4.886)"));
}

#[test]
fn grayscale_uses_luma_weights() {
    let red = uniform_rgba(1, 1, [255, 0, 0, 255]);
    assert_eq!(resample_gray(&red, 1, 1).pixels, vec![54]);
    let mixed = uniform_rgba(2, 1, [10, 200, 30, 0]);
    assert_eq!(resample_gray(&mixed, 2, 1).pixels, vec![147, 147]);
}

#[test]
fn resampling_changes_size() {
    let white = uniform_rgba(4, 2, [255, 255, 255, 255]);
    let g = resample_gray(&white, 8, 3);
    assert_eq!((g.width, g.height), (8, 3));
    assert_eq!(g.pixels.len(), 24);
}

#[test]
fn make_halftone_of_white_and_black_images() {
    let p = params(false);
    let white = make_halftone(&uniform_rgba(20, 20, [255, 255, 255, 255]), &p, DEFAULT_PX_PER_MM);
    assert_outline(&white, 5000, 4886);
    assert!(circles(&white).len() <= 72);
    assert!(circles(&white).len() >= 60);
    let black = make_halftone(&uniform_rgba(20, 20, [0, 0, 0, 255]), &p, DEFAULT_PX_PER_MM);
    assert_eq!(black.len(), 4);
}

#[test]
fn make_halftone_at_raster_size_uses_source_luma() {
    let p = params(false);
    // 10 mm at 5 px/mm is 50 px: no resampling, grey 64 everywhere
    let src = uniform_rgba(50, 50, [64, 64, 64, 255]);
    let shapes = make_halftone(&src, &p, DEFAULT_PX_PER_MM);
    assert_eq!(shapes, halftone_shapes(&uniform_gray(50, 50, 64), &p, DEFAULT_PX_PER_MM));
    assert_eq!(circles(&shapes).len(), 72);
}

#[test]
fn memory_fit_check() {
    let p = params(false);
    assert!(raster_fits_in_memory(&uniform_rgba(20, 20, [0, 0, 0, 0]), &p, DEFAULT_PX_PER_MM));
    let mut big = p;
    big.output_width = 100_000_000;
    big.output_height = 100_000_000;
    let src = SourceImage { width: u32::MAX, height: 1, rgba: Vec::new() };
    assert_eq!(
        raster_fits_in_memory(&src, &big, 1000),
        16 * (u32::MAX as u128) * 100_000_000 <= isize::MAX as u128
    );
    assert!(raster_fits_in_memory(&uniform_rgba(1, 1, [0, 0, 0, 0]), &big, 1));
}

#[test]
fn width_only_derives_height() {
    assert_eq!(resolve_output_size(10_000, 0, 200, 100), Ok((10_000, 5_000)));
    let mut p = params(false);
    p.output_height = 5_000;
    assert_eq!(lattice_size(&p), (16, 3));
}

#[test]
fn height_only_derives_width() {
    assert_eq!(resolve_output_size(0, 5_000, 200, 100), Ok((10_000, 5_000)));
    assert_eq!(resolve_output_size(3_000, 4_000, 200, 100), Ok((3_000, 4_000)));
}

#[test]
fn output_size_errors() {
    assert_eq!(resolve_output_size(10_000, 0, 0, 100), Err(ConfigError::EmptyImage));
    assert_eq!(resolve_output_size(-1, 10_000, 10, 10), Err(ConfigError::NegativeDimension));
    assert_eq!(resolve_output_size(0, 0, 10, 10), Err(ConfigError::MissingDimension));
    assert_eq!(resolve_output_size(1, 0, 100, 1), Err(ConfigError::UnusableDimension));
    assert_eq!(
        resolve_output_size(100_000_001, 1, 1, 1),
        Err(ConfigError::UnusableDimension)
    );
}

#[test]
fn black_square_footprint_text() {
    let shapes = halftone_shapes(&uniform_gray(50, 50, 0), &params(false), DEFAULT_PX_PER_MM);
    let text = footprint_string(&shapes);
    let lines: Vec<&str> = text.lines().collect();
    assert_eq!(lines.len(), 6);
    assert_eq!(lines[0], "(module test (layer F.Cu) (tedit 5BDB7444)");
    for line in &lines[1..5] {
        assert!(line.starts_with(" (fp_line "));
        assert!(line.ends_with("(layer F.Fab) (width 0.150))"));
    }
    assert_eq!(lines[5], ")");
    assert!(!text.contains("fp_circle"));
    assert_eq!(lines[1], " (fp_line (start -5.000 4.886) (end 5.000 4.886) (layer F.Fab) (width 0.150))");
}
