//! Points, sizes and rectangles over exact bit patterns.
use crate::scalar::Scalar;
use vstd::prelude::*;

verus! {

/// A position in logical pixels.
#[derive(Clone, Copy, Debug, PartialEq, Eq, Structural)]
pub struct Point {
    /// Horizontal coordinate.
    pub x: Scalar,
    /// Vertical coordinate.
    pub y: Scalar,
}

/// An extent in logical pixels.
#[derive(Clone, Copy, Debug, PartialEq, Eq, Structural)]
pub struct Size {
    /// Horizontal extent.
    pub width: Scalar,
    /// Vertical extent.
    pub height: Scalar,
}

/// An origin and an extent.
#[derive(Clone, Copy, Debug, PartialEq, Eq, Structural)]
pub struct Bounds {
    /// The corner with the smallest coordinates.
    pub origin: Point,
    /// The extent from that corner.
    pub size: Size,
}

/// A rectangle given by two opposite corners.
#[derive(Clone, Copy, Debug, PartialEq, Eq, Structural)]
pub struct Rect {
    /// The corner with the smallest coordinates.
    pub min: Point,
    /// The corner with the largest coordinates.
    pub max: Point,
}

impl Point {
    /// The point with both coordinates zero.
    pub open spec fn origin_spec() -> Point {
        Point { x: Scalar { bits: 0 }, y: Scalar { bits: 0 } }
    }

    /// The point with both coordinates zero.
    pub fn origin() -> (r: Point)
        ensures
            r == Point::origin_spec(),
    {
        Point { x: Scalar::zero(), y: Scalar::zero() }
    }

    /// Whether both points denote the same position.
    pub open spec fn same_value_spec(self, other: Point) -> bool {
        self.x.same_value_spec(other.x) && self.y.same_value_spec(other.y)
    }

    /// Whether both points denote the same position.
    pub fn same_value(self, other: Point) -> (r: bool)
        ensures
            r == self.same_value_spec(other),
    {
        self.x.same_value(other.x) && self.y.same_value(other.y)
    }
}

impl Size {
    /// Whether both sizes denote the same extent.
    pub open spec fn same_value_spec(self, other: Size) -> bool {
        self.width.same_value_spec(other.width) && self.height.same_value_spec(other.height)
    }

    /// Whether both sizes denote the same extent.
    pub fn same_value(self, other: Size) -> (r: bool)
        ensures
            r == self.same_value_spec(other),
    {
        self.width.same_value(other.width) && self.height.same_value(other.height)
    }
}

impl Rect {
    /// The rectangle whose corners are both at the origin.
    pub open spec fn empty_spec() -> Rect {
        Rect { min: Point::origin_spec(), max: Point::origin_spec() }
    }

    /// The rectangle whose corners are both at the origin.
    pub fn empty() -> (r: Rect)
        ensures
            r == Rect::empty_spec(),
    {
        Rect { min: Point::origin(), max: Point::origin() }
    }

    /// Whether a point lies in the rectangle, its edges included.
    pub open spec fn contains_spec(self, point: Point) -> bool {
        &&& self.min.x.le_spec(point.x)
        &&& point.x.le_spec(self.max.x)
        &&& self.min.y.le_spec(point.y)
        &&& point.y.le_spec(self.max.y)
    }

    /// Whether a point lies in the rectangle, its edges included.
    pub fn contains(&self, point: Point) -> (r: bool)
        ensures
            r == self.contains_spec(point),
    {
        self.min.x.le(point.x) && point.x.le(self.max.x) && self.min.y.le(point.y)
            && point.y.le(self.max.y)
    }
}

/// Two points of a rectangle are no further apart than its edges: whatever lies
/// between them on an axis lies between the edges too.
pub proof fn law_rect_is_convex(rect: Rect, a: Point, b: Point, between: Point)
    requires
        rect.contains_spec(a),
        rect.contains_spec(b),
        a.x.le_spec(between.x),
        between.x.le_spec(b.x),
        a.y.le_spec(between.y),
        between.y.le_spec(b.y),
    ensures
        rect.contains_spec(between),
{
}

} // verus!
