//! What a simulation entity looks like, as plain shapes.
//!
//! The library decides which shapes stand for an entity; putting them on a
//! canvas is left to the caller.

use vstd::prelude::*;
use crate::scalar::whole_part;

verus! {

/// A colour with transparency.
#[derive(Debug, Clone, Copy, PartialEq, Eq, Structural)]
pub struct Color {
    pub red: u8,
    pub green: u8,
    pub blue: u8,
    pub alpha: u8,
}

/// A shape in whole screen coordinates.
#[derive(Debug, Clone, Copy, PartialEq, Eq, Structural)]
pub enum Shape {
    /// A filled circle around `(x, y)`.
    Disc { x: i16, y: i16, radius: i16, color: Color },
    /// The outline of the rectangle with corner `(left, top)`.
    Frame { left: i32, top: i32, width: u32, height: u32 },
}

/// An entity that can be shown, in a window or on an off-screen surface.
pub trait Drawable {
    /// The shapes shown in a window, bottom first.
    spec fn window_shapes(&self) -> Seq<Shape>;

    /// The shapes shown on a surface, bottom first.
    spec fn surface_shapes(&self) -> Seq<Shape>;

    fn draw_window(&self) -> (shapes: Vec<Shape>)
        ensures
            shapes@ == self.window_shapes(),
    ;

    fn draw_surface(&self) -> (shapes: Vec<Shape>)
        ensures
            shapes@ == self.surface_shapes(),
    ;
}

/// The whole part of `a`, limited to the range from `lo` to `hi`.
pub open spec fn whole_within(a: i64, lo: int, hi: int) -> int {
    let w = whole_part(a);
    if w < lo {
        lo
    } else if w > hi {
        hi
    } else {
        w
    }
}

/// The screen coordinate of the scalar `a`.
pub open spec fn pixel_of(a: i64) -> i16 {
    whole_within(a, i16::MIN as int, i16::MAX as int) as i16
}

/// The screen coordinate of the scalar `a`: its whole part, limited to `i16`.
pub fn pixel(a: i64) -> (r: i16)
    ensures
        r == pixel_of(a),
{
    let w: i64 = crate::scalar::to_int(a);
    if w < i16::MIN as i64 {
        i16::MIN
    } else if w > i16::MAX as i64 {
        i16::MAX
    } else {
        w as i16
    }
}

/// The whole part of `a`, limited to `i32`.
pub fn wide_pixel(a: i64) -> (r: i32)
    ensures
        r == whole_within(a, i32::MIN as int, i32::MAX as int),
{
    let w: i64 = crate::scalar::to_int(a);
    if w < i32::MIN as i64 {
        i32::MIN
    } else if w > i32::MAX as i64 {
        i32::MAX
    } else {
        w as i32
    }
}

/// The whole part of `a` as an extent: negative scalars give `0`, and the
/// result is limited to `u32`.
pub fn extent(a: i64) -> (r: u32)
    ensures
        r == whole_within(a, 0, u32::MAX as int),
{
    let w: i64 = crate::scalar::to_int(a);
    if w < 0 {
        0
    } else if w > u32::MAX as i64 {
        u32::MAX
    } else {
        w as u32
    }
}

} // verus!
