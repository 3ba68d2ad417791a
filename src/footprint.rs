//! Footprint text: shapes rendered as `fp_circle` and `fp_line` records
//! inside a module header, lengths in millimetres with three decimals (four
//! where a circle's end point falls on a half micrometre).
use vstd::prelude::*;
use crate::geometry::{layer_tag, Geometry, Shape};

verus! {

/// The character of a decimal digit.
pub open spec fn digit_char(d: int) -> char {
    (48 + d) as char
}

/// Decimal digits of `n`, most significant first, without leading zeros.
pub open spec fn nat_digits(n: nat) -> Seq<char>
    decreases n,
{
    if n < 10 {
        seq![digit_char(n as int)]
    } else {
        nat_digits(n / 10).push(digit_char((n % 10) as int))
    }
}

/// A length of `v` micrometres written in millimetres with three decimals,
/// as in `-0.600`.
#[verifier::opaque]
pub open spec fn mm_text(v: int) -> Seq<char> {
    let a: nat = if v < 0 {
        (-v) as nat
    } else {
        v as nat
    };
    let sign = if v < 0 {
        "-"@
    } else {
        Seq::empty()
    };
    sign + nat_digits(a / 1000) + "."@ + seq![
        digit_char(((a / 100) % 10) as int),
        digit_char(((a / 10) % 10) as int),
        digit_char((a % 10) as int),
    ]
}

/// A length of `v` half micrometres written in millimetres: three decimals,
/// and a fourth, `5`, when it is an odd number of half micrometres, as in
/// `-0.0005`.
#[verifier::opaque]
pub open spec fn half_um_text(v: int) -> Seq<char> {
    let a: nat = if v < 0 {
        (-v) as nat
    } else {
        v as nat
    };
    let sign = if v < 0 {
        "-"@
    } else {
        Seq::empty()
    };
    let um = a / 2;
    let half = if a % 2 == 1 {
        "5"@
    } else {
        Seq::empty()
    };
    sign + nat_digits(um / 1000) + "."@ + seq![
        digit_char(((um / 100) % 10) as int),
        digit_char(((um / 10) % 10) as int),
        digit_char((um % 10) as int),
    ] + half
}

/// The opening of a record: the primitive and its points. A circle's end
/// point lies on its centre line, straight to the right of the centre by half
/// the centre-line diameter, exactly.
pub open spec fn geometry_text(g: Geometry) -> Seq<char> {
    match g {
        Geometry::Circle { center, diameter } => " (fp_circle (center "@ + mm_text(center.x as int)
            + " "@ + mm_text(center.y as int) + ") (end "@ + half_um_text(2 * center.x + diameter) + " "@
            + mm_text(center.y as int) + ")"@,
        Geometry::Line { ends } => " (fp_line (start "@ + mm_text(ends[0].x as int) + " "@
            + mm_text(ends[0].y as int) + ") (end "@ + mm_text(ends[1].x as int) + " "@ + mm_text(
            ends[1].y as int,
        ) + ")"@,
    }
}

/// The record of one shape, on a line of its own.
pub open spec fn shape_text(s: Shape) -> Seq<char> {
    geometry_text(s.geom) + " (layer "@ + layer_tag(s.layer) + ")"@ + " (width "@ + mm_text(
        s.thickness as int,
    ) + "))\n"@
}

/// The records of a sequence of shapes, in order.
pub open spec fn shapes_text(shapes: Seq<Shape>) -> Seq<char>
    decreases shapes.len(),
{
    if shapes.len() == 0 {
        Seq::empty()
    } else {
        shapes_text(shapes.drop_last()) + shape_text(shapes.last())
    }
}

/// A whole footprint: the module header, the records, the closing line.
pub open spec fn footprint_text(shapes: Seq<Shape>) -> Seq<char> {
    "(module test (layer F.Cu) (tedit 5BDB7444)\n"@ + shapes_text(shapes) + ")\n"@
}

fn digit_str(d: u128) -> (r: &'static str)
    requires
        d < 10,
    ensures
        r@ == seq![digit_char(d as int)],
{
    proof {
        reveal_strlit("0");
        reveal_strlit("1");
        reveal_strlit("2");
        reveal_strlit("3");
        reveal_strlit("4");
        reveal_strlit("5");
        reveal_strlit("6");
        reveal_strlit("7");
        reveal_strlit("8");
        reveal_strlit("9");
    }
    let r = if d == 0 {
        "0"
    } else if d == 1 {
        "1"
    } else if d == 2 {
        "2"
    } else if d == 3 {
        "3"
    } else if d == 4 {
        "4"
    } else if d == 5 {
        "5"
    } else if d == 6 {
        "6"
    } else if d == 7 {
        "7"
    } else if d == 8 {
        "8"
    } else {
        "9"
    };
    assert(r@ =~= seq![digit_char(d as int)]);
    r
}

fn push_digits(out: &mut String, n: u128)
    ensures
        final(out)@ == old(out)@ + nat_digits(n as nat),
    decreases n,
{
    if n >= 10 {
        push_digits(out, n / 10);
    }
    out.append(digit_str(n % 10));
    assert(final(out)@ =~= old(out)@ + nat_digits(n as nat));
}

/// Appends a length of `v` micrometres, in millimetres with three decimals.
pub fn push_mm(out: &mut String, v: i128)
    ensures
        final(out)@ == old(out)@ + mm_text(v as int),
{
    let a: u128 = if v < 0 {
        (-(v + 1)) as u128 + 1
    } else {
        v as u128
    };
    if v < 0 {
        out.append("-");
    }
    push_digits(out, a / 1000);
    out.append(".");
    out.append(digit_str((a / 100) % 10));
    out.append(digit_str((a / 10) % 10));
    out.append(digit_str(a % 10));
    proof {
        reveal(mm_text);
    }
    assert(final(out)@ =~= old(out)@ + mm_text(v as int));
}

/// Appends a length of `v` half micrometres, in millimetres: three decimals,
/// and a fourth when `v` is odd.
pub fn push_half_um(out: &mut String, v: i128)
    requires
        v > i128::MIN,
    ensures
        final(out)@ == old(out)@ + half_um_text(v as int),
{
    let a: u128 = if v < 0 {
        (-v) as u128
    } else {
        v as u128
    };
    let um: u128 = a / 2;
    if v < 0 {
        out.append("-");
    }
    push_digits(out, um / 1000);
    out.append(".");
    out.append(digit_str((um / 100) % 10));
    out.append(digit_str((um / 10) % 10));
    out.append(digit_str(um % 10));
    if a % 2 == 1 {
        out.append("5");
    }
    proof {
        reveal(half_um_text);
    }
    assert(final(out)@ =~= old(out)@ + half_um_text(v as int));
}

fn write_geometry(g: &Geometry, out: &mut String)
    ensures
        final(out)@ == old(out)@ + geometry_text(*g),
{
    let ghost start = out@;
    match *g {
        Geometry::Circle { center, diameter } => {
            out.append(" (fp_circle (center ");
            push_mm(out, center.x as i128);
            out.append(" ");
            push_mm(out, center.y as i128);
            out.append(") (end ");
            push_half_um(out, 2 * (center.x as i128) + diameter as i128);
            out.append(" ");
            push_mm(out, center.y as i128);
            out.append(")");
        },
        Geometry::Line { ends } => {
            out.append(" (fp_line (start ");
            push_mm(out, ends[0].x as i128);
            out.append(" ");
            push_mm(out, ends[0].y as i128);
            out.append(") (end ");
            push_mm(out, ends[1].x as i128);
            out.append(" ");
            push_mm(out, ends[1].y as i128);
            out.append(")");
        },
    }
    assert(out@ =~= start + geometry_text(*g));
}

impl Shape {
    /// Appends this shape's record.
    pub fn write(&self, out: &mut String)
        ensures
            final(out)@ == old(out)@ + shape_text(*self),
    {
        let ghost start = out@;
        write_geometry(&self.geom, out);
        out.append(" (layer ");
        out.append(self.layer.to_string());
        out.append(")");
        out.append(" (width ");
        push_mm(out, self.thickness as i128);
        out.append("))\n");
        assert(out@ =~= start + shape_text(*self));
    }
}

/// Appends a whole footprint holding `shapes`, in order.
pub fn write(shapes: &Vec<Shape>, out: &mut String)
    ensures
        final(out)@ == old(out)@ + footprint_text(shapes@),
{
    let ghost start = out@;
    out.append("(module test (layer F.Cu) (tedit 5BDB7444)\n");
    let mut i: usize = 0;
    while i < shapes.len()
        invariant
            i <= shapes@.len(),
            out@ == start + "(module test (layer F.Cu) (tedit 5BDB7444)\n"@ + shapes_text(shapes@.subrange(0, i as int)),
        decreases shapes@.len() - i,
    {
        shapes[i].write(out);
        assert(shapes@.subrange(0, i as int + 1).drop_last() =~= shapes@.subrange(0, i as int));
        i = i + 1;
    }
    assert(shapes@.subrange(0, i as int) =~= shapes@);
    out.append(")\n");
    assert(out@ =~= start + footprint_text(shapes@));
}

/// The footprint text of `shapes`.
pub fn footprint_string(shapes: &Vec<Shape>) -> (r: String)
    ensures
        r@ == footprint_text(shapes@),
{
    let mut out = String::new();
    write(shapes, &mut out);
    assert(out@ =~= footprint_text(shapes@));
    out
}

} // verus!
