//! The geometry model: coordinates, layers and shapes.
use vstd::prelude::*;

verus! {

/// A point in the plane, in micrometres.
#[derive(Copy, Clone, Debug, PartialEq, Eq, Structural)]
pub struct XYCoord {
    pub x: i64,
    pub y: i64,
}

impl XYCoord {
    /// Component-wise sum.
    pub fn add(self, rhs: XYCoord) -> (r: XYCoord)
        requires
            i64::MIN <= self.x + rhs.x <= i64::MAX,
            i64::MIN <= self.y + rhs.y <= i64::MAX,
        ensures
            r.x == self.x + rhs.x,
            r.y == self.y + rhs.y,
    {
        XYCoord { x: self.x + rhs.x, y: self.y + rhs.y }
    }

    /// Component-wise difference.
    pub fn sub(self, rhs: XYCoord) -> (r: XYCoord)
        requires
            i64::MIN <= self.x - rhs.x <= i64::MAX,
            i64::MIN <= self.y - rhs.y <= i64::MAX,
        ensures
            r.x == self.x - rhs.x,
            r.y == self.y - rhs.y,
    {
        XYCoord { x: self.x - rhs.x, y: self.y - rhs.y }
    }
}

/// The board layers a shape can be drawn on.
#[derive(Copy, Clone, Debug, PartialEq, Eq, Structural)]
pub enum Layer {
    FrontSilkscreen,
    FrontCopper,
    FrontFabrication,
}

/// The canonical tag of a layer in footprint text.
pub open spec fn layer_tag(l: Layer) -> Seq<char> {
    match l {
        Layer::FrontSilkscreen => "F.SilkS"@,
        Layer::FrontCopper => "F.Cu"@,
        Layer::FrontFabrication => "F.Fab"@,
    }
}

impl Layer {
    /// The layer's tag as it is written in footprint text.
    pub fn to_string(&self) -> (r: &'static str)
        ensures
            r@ == layer_tag(*self),
    {
        match self {
            Layer::FrontSilkscreen => "F.SilkS",
            Layer::FrontCopper => "F.Cu",
            Layer::FrontFabrication => "F.Fab",
        }
    }
}

/// What a shape draws: a circle given by the diameter of its centre line
/// (so that its centre-line radius, `diameter / 2`, is exact to the half
/// micrometre), or a line segment.
#[derive(Copy, Clone, Debug, PartialEq, Eq)]
pub enum Geometry {
    Circle { center: XYCoord, diameter: i64 },
    Line { ends: [XYCoord; 2] },
}

/// A geometry drawn on a layer with a stroke of the given width.
#[derive(Copy, Clone, Debug, PartialEq, Eq)]
pub struct Shape {
    pub layer: Layer,
    pub geom: Geometry,
    pub thickness: i64,
}

/// A solid disc of radius `radius`, drawn as a centre-line circle of half that
/// radius (a centre-line diameter of `radius`) whose stroke is `radius` wide,
/// so that the stroke covers the disc from its centre to its rim.
pub open spec fn filled_circle_spec(center: XYCoord, radius: int, layer: Layer) -> Shape {
    Shape {
        layer,
        geom: Geometry::Circle { center, diameter: radius as i64 },
        thickness: radius as i64,
    }
}

pub open spec fn line_spec(start: XYCoord, end: XYCoord, width: int, layer: Layer) -> Shape {
    Shape { layer, geom: Geometry::Line { ends: [start, end] }, thickness: width as i64 }
}

impl Shape {
    /// A filled disc of the given radius: its centre line has half that radius,
    /// exactly, and its stroke is as wide as the radius.
    pub fn filled_circle(center: XYCoord, radius: i64, layer: Layer) -> (r: Shape)
        requires
            radius >= 0,
        ensures
            r == filled_circle_spec(center, radius as int, layer),
            r.geom matches Geometry::Circle { diameter, .. } && diameter == r.thickness,
            radius > 0 ==> r.thickness > 0,
    {
        Shape { layer, geom: Geometry::Circle { center, diameter: radius }, thickness: radius }
    }

    /// A line segment from `start` to `end` with the given stroke width.
    pub fn line(start: XYCoord, end: XYCoord, width: i64, layer: Layer) -> (r: Shape)
        ensures
            r == line_spec(start, end, width as int, layer),
    {
        Shape { layer, geom: Geometry::Line { ends: [start, end] }, thickness: width }
    }
}

} // verus!
