//! The region that holds the particles.

use vstd::prelude::*;
use crate::drawable::{extent, whole_within, wide_pixel, Drawable, Shape};
use crate::point3::Point3;
use crate::scalar::{from_int, over, plus, quotient, sum, whole};

verus! {

/// An axis-aligned box, given by one corner and its extent along each axis.
#[derive(Debug, Clone, Copy, PartialEq, Eq, Structural)]
pub struct Rectangle {
    pub up_left_corner: Point3,
    pub height: i64,
    pub width: i64,
    pub depth: i64,
}

impl Rectangle {
    /// Whether `p` lies in the box; points on its faces do.
    pub open spec fn contains(self, p: Point3) -> bool {
        &&& self.up_left_corner.x <= p.x <= sum(self.up_left_corner.x, self.width)
        &&& self.up_left_corner.y <= p.y <= sum(self.up_left_corner.y, self.height)
        &&& self.up_left_corner.z <= p.z <= sum(self.up_left_corner.z, self.depth)
    }

    /// The point in the middle of the box.
    pub open spec fn midpoint(self) -> Point3 {
        Point3 {
            x: sum(self.up_left_corner.x, quotient(self.width, whole(2))),
            y: sum(self.up_left_corner.y, quotient(self.height, whole(2))),
            z: sum(self.up_left_corner.z, quotient(self.depth, whole(2))),
        }
    }

    /// The outline that shows the box.
    pub open spec fn frame(self) -> Shape {
        Shape::Frame {
            left: whole_within(self.up_left_corner.x, i32::MIN as int, i32::MAX as int) as i32,
            top: whole_within(self.up_left_corner.y, i32::MIN as int, i32::MAX as int) as i32,
            width: whole_within(self.width, 0, u32::MAX as int) as u32,
            height: whole_within(self.height, 0, u32::MAX as int) as u32,
        }
    }

    /// Whether `p` lies in the box, faces included.
    pub fn is_in_bound(&self, p: &Point3) -> (r: bool)
        ensures
            r == self.contains(*p),
    {
        p.x >= self.up_left_corner.x && p.y >= self.up_left_corner.y && p.z
            >= self.up_left_corner.z && p.x <= plus(self.up_left_corner.x, self.width) && p.y
            <= plus(self.up_left_corner.y, self.height) && p.z <= plus(
            self.up_left_corner.z,
            self.depth,
        )
    }

    /// The point in the middle of the box.
    pub fn center(&self) -> (r: Point3)
        ensures
            r == self.midpoint(),
    {
        Point3 {
            x: plus(self.up_left_corner.x, over(self.width, from_int(2))),
            y: plus(self.up_left_corner.y, over(self.height, from_int(2))),
            z: plus(self.up_left_corner.z, over(self.depth, from_int(2))),
        }
    }

    fn own_frame(&self) -> (shapes: Vec<Shape>)
        ensures
            shapes@ == seq![self.frame()],
    {
        let mut shapes: Vec<Shape> = Vec::new();
        shapes.push(
            Shape::Frame {
                left: wide_pixel(self.up_left_corner.x),
                top: wide_pixel(self.up_left_corner.y),
                width: extent(self.width),
                height: extent(self.height),
            },
        );
        shapes
    }
}

impl Default for Rectangle {
    fn default() -> (r: Rectangle)
        ensures
            r == (Rectangle { up_left_corner: Point3::origin(), height: 0, width: 0, depth: 0 }),
    {
        Rectangle { up_left_corner: Point3 { x: 0, y: 0, z: 0 }, height: 0, width: 0, depth: 0 }
    }
}

impl Drawable for Rectangle {
    open spec fn window_shapes(&self) -> Seq<Shape> {
        seq![self.frame()]
    }

    open spec fn surface_shapes(&self) -> Seq<Shape> {
        seq![self.frame()]
    }

    fn draw_window(&self) -> (shapes: Vec<Shape>) {
        self.own_frame()
    }

    fn draw_surface(&self) -> (shapes: Vec<Shape>) {
        self.own_frame()
    }
}

} // verus!
