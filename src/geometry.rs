use vstd::prelude::*;

verus! {

/// A point in logical coordinates, relative to the global origin.
#[derive(Clone, Copy, Debug, PartialEq, Eq, Structural)]
pub struct Point {
    pub x: i32,
    pub y: i32,
}

/// A width and height in logical units.
#[derive(Clone, Copy, Debug, PartialEq, Eq, Structural)]
pub struct Size {
    pub w: i32,
    pub h: i32,
}

/// An axis-aligned rectangle: a location and a size.
#[derive(Clone, Copy, Debug, PartialEq, Eq, Structural)]
pub struct Rectangle {
    pub loc: Point,
    pub size: Size,
}

/// The value `v` saturated into the range of `i32`.
pub open spec fn sat_i32(v: int) -> int {
    if v < i32::MIN {
        i32::MIN as int
    } else if v > i32::MAX {
        i32::MAX as int
    } else {
        v
    }
}

/// Saturates a 64-bit value into the range of `i32`.
pub fn saturate_i32(v: i64) -> (r: i32)
    ensures
        r as int == sat_i32(v as int),
{
    if v < i32::MIN as i64 {
        i32::MIN
    } else if v > i32::MAX as i64 {
        i32::MAX
    } else {
        v as i32
    }
}

impl Point {
    pub fn new(x: i32, y: i32) -> (r: Point)
        ensures
            r.x == x,
            r.y == y,
    {
        Point { x, y }
    }
}

impl Size {
    pub fn new(w: i32, h: i32) -> (r: Size)
        ensures
            r.w == w,
            r.h == h,
    {
        Size { w, h }
    }
}

impl Rectangle {
    pub fn from_loc_and_size(loc: Point, size: Size) -> (r: Rectangle)
        ensures
            r.loc == loc,
            r.size == size,
    {
        Rectangle { loc, size }
    }

    /// Whether `p` lies inside the rectangle (left and top edges included,
    /// right and bottom edges excluded).
    pub open spec fn contains_spec(self, p: Point) -> bool {
        self.loc.x <= p.x && p.x < self.loc.x + self.size.w
            && self.loc.y <= p.y && p.y < self.loc.y + self.size.h
    }

    pub fn contains(&self, p: Point) -> (r: bool)
        ensures
            r == self.contains_spec(p),
    {
        let px = p.x as i64;
        let py = p.y as i64;
        let lx = self.loc.x as i64;
        let ly = self.loc.y as i64;
        lx <= px && px < lx + self.size.w as i64 && ly <= py && py < ly + self.size.h as i64
    }

    /// Whether the two rectangles share at least one point.
    pub open spec fn overlaps_spec(self, o: Rectangle) -> bool {
        self.loc.x < o.loc.x + o.size.w && o.loc.x < self.loc.x + self.size.w
            && self.loc.y < o.loc.y + o.size.h && o.loc.y < self.loc.y + self.size.h
    }

    pub fn overlaps(&self, o: &Rectangle) -> (r: bool)
        ensures
            r == self.overlaps_spec(*o),
    {
        let (ax, ay, aw, ah) = (self.loc.x as i64, self.loc.y as i64, self.size.w as i64, self.size.h as i64);
        let (bx, by, bw, bh) = (o.loc.x as i64, o.loc.y as i64, o.size.w as i64, o.size.h as i64);
        ax < bx + bw && bx < ax + aw && ay < by + bh && by < ay + ah
    }
}

} // verus!
