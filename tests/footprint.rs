use halftone::footprint::{footprint_string, push_half_um, push_mm};
use halftone::geometry::{Geometry, Layer, Shape, XYCoord};

#[test]
fn layer_tags() {
    assert_eq!(Layer::FrontSilkscreen.to_string(), "F.SilkS");
    assert_eq!(Layer::FrontCopper.to_string(), "F.Cu");
    assert_eq!(Layer::FrontFabrication.to_string(), "F.Fab");
}

#[test]
fn coordinate_arithmetic() {
    let a = XYCoord { x: 600, y: -250 };
    let b = XYCoord { x: 5000, y: 4886 };
    assert_eq!(a.add(b), XYCoord { x: 5600, y: 4636 });
    assert_eq!(a.sub(b), XYCoord { x: -4400, y: -5136 });
}

#[test]
fn filled_circle_centre_line_is_half_the_stroke() {
    let c = XYCoord { x: 1, y: 2 };
    let s = Shape::filled_circle(c, 600, Layer::FrontSilkscreen);
    assert_eq!(s.geom, Geometry::Circle { center: c, diameter: 600 });
    assert_eq!(s.thickness, 600);
    assert_eq!(s.layer, Layer::FrontSilkscreen);
    let odd = Shape::filled_circle(c, 601, Layer::FrontSilkscreen);
    assert_eq!(odd.geom, Geometry::Circle { center: c, diameter: 601 });
    assert_eq!(odd.thickness, 601);
    let tiny = Shape::filled_circle(c, 1, Layer::FrontSilkscreen);
    assert_eq!(tiny.geom, Geometry::Circle { center: c, diameter: 1 });
    assert_eq!(tiny.thickness, 1);
}

#[test]
fn half_micrometre_text() {
    let cases: [(i128, &str); 6] = [
        (0, "0.000"),
        (1, "0.0005"),
        (-1, "-0.0005"),
        (1200, "0.600"),
        (-8199, "-4.0995"),
        (3, "0.0015"),
    ];
    for (v, text) in cases {
        let mut s = String::new();
        push_half_um(&mut s, v);
        assert_eq!(s, text);
    }
}

#[test]
fn odd_radius_circle_record() {
    let s = Shape::filled_circle(XYCoord { x: 0, y: 0 }, 1, Layer::FrontSilkscreen);
    let mut out = String::new();
    s.write(&mut out);
    assert_eq!(
        out,
        " (fp_circle (center 0.000 0.000) (end 0.0005 0.000) (layer F.SilkS) (width 0.001))\n"
    );
    let s = Shape::filled_circle(XYCoord { x: -4400, y: 7 }, 601, Layer::FrontSilkscreen);
    let mut out = String::new();
    s.write(&mut out);
    assert_eq!(
        out,
        " (fp_circle (center -4.400 0.007) (end -4.0995 0.007) (layer F.SilkS) (width 0.601))\n"
    );
}

#[test]
fn line_keeps_its_ends() {
    let a = XYCoord { x: -5000, y: 4886 };
    let b = XYCoord { x: 5000, y: 4886 };
    let s = Shape::line(a, b, 150, Layer::FrontFabrication);
    assert_eq!(s.geom, Geometry::Line { ends: [a, b] });
    assert_eq!(s.thickness, 150);
    assert_eq!(s.layer, Layer::FrontFabrication);
}

#[test]
fn millimetre_text() {
    let cases: [(i128, &str); 7] = [
        (0, "0.000"),
        (5, "0.005"),
        (600, "0.600"),
        (-1234, "-1.234"),
        (1_100_000, "1100.000"),
        (-7, "-0.007"),
        (i64::MIN as i128, "-9223372036854775.808"),
    ];
    for (v, text) in cases {
        let mut s = String::new();
        push_mm(&mut s, v);
        assert_eq!(s, text);
    }
}

#[test]
fn circle_record() {
    let s = Shape::filled_circle(XYCoord { x: -4400, y: -4286 }, 600, Layer::FrontSilkscreen);
    let mut out = String::from("x");
    s.write(&mut out);
    assert_eq!(
        out,
        "x (fp_circle (center -4.400 -4.286) (end -4.100 -4.286) (layer F.SilkS) (width 0.600))\n"
    );
}

#[test]
fn line_record() {
    let s = Shape::line(
        XYCoord { x: -5000, y: 4886 },
        XYCoord { x: 5000, y: 4886 },
        150,
        Layer::FrontFabrication,
    );
    let mut out = String::new();
    s.write(&mut out);
    assert_eq!(
        out,
        " (fp_line (start -5.000 4.886) (end 5.000 4.886) (layer F.Fab) (width 0.150))\n"
    );
}

#[test]
fn empty_footprint() {
    assert_eq!(
        footprint_string(&Vec::new()),
        "(module test (layer F.Cu) (tedit 5BDB7444)\n)\n"
    );
}

#[test]
fn footprint_keeps_shape_order() {
    let shapes = vec![
        Shape::line(XYCoord { x: 0, y: 0 }, XYCoord { x: 1000, y: 0 }, 150, Layer::FrontCopper),
        Shape::filled_circle(XYCoord { x: 0, y: 0 }, 200, Layer::FrontSilkscreen),
    ];
    let mut out = String::new();
    halftone::footprint::write(&shapes, &mut out);
    assert_eq!(
        out,
        "(module test (layer F.Cu) (tedit 5BDB7444)\n \
(fp_line (start 0.000 0.000) (end 1.000 0.000) (layer F.Cu) (width 0.150))\n \
(fp_circle (center 0.000 0.000) (end 0.100 0.000) (layer F.SilkS) (width 0.200))\n)\n"
    );
}
