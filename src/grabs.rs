use vstd::prelude::*;
use crate::edges::ResizeEdge;
use crate::geometry::{Point, Size, Rectangle, sat_i32, saturate_i32};

verus! {

/// Where a grab began: the pointer location and the client that had
/// pointer focus at that moment, if any.
#[derive(Clone, Copy, Debug, PartialEq, Eq, Structural)]
pub struct GrabStartData {
    pub location: Point,
    pub focus_client: Option<u64>,
}

/// An interactive move: the window follows the pointer.
#[derive(Clone, Copy, Debug, PartialEq, Eq, Structural)]
pub struct MoveSurfaceGrab {
    pub start_data: GrabStartData,
    /// The surface of the moved window.
    pub window: u64,
    pub initial_window_location: Point,
}

/// An interactive resize: the dragged edges follow the pointer.
#[derive(Clone, Copy, Debug, PartialEq, Eq, Structural)]
pub struct ResizeSurfaceGrab {
    pub start_data: GrabStartData,
    /// The surface of the resized window.
    pub window: u64,
    pub edges: ResizeEdge,
    pub initial_rect: Rectangle,
    /// The size last asked of the window.
    pub last_window_size: Size,
}

/// The window location that a move grab gives for the pointer at
/// `current`: the initial location plus the pointer's travel since the
/// start, each axis saturated into `i32`.
pub open spec fn moved_location(initial: Point, start: Point, current: Point) -> Point {
    Point {
        x: sat_i32(initial.x + (current.x - start.x)) as i32,
        y: sat_i32(initial.y + (current.y - start.y)) as i32,
    }
}

/// One axis of a resize before clamping: unchanged when the axis is not
/// dragged; otherwise the initial length grown by the pointer's travel,
/// negated when the dragged edge is the near one (left or top).
pub open spec fn candidate_length(initial: i32, delta: int, active: bool, near: bool) -> int {
    if !active {
        initial as int
    } else if near {
        sat_i32(initial - delta)
    } else {
        sat_i32(initial + delta)
    }
}

/// The least length a resize allows: the client's minimum, at least 1.
pub open spec fn lower_limit(min: i32) -> int {
    if min < 1 { 1 } else { min as int }
}

/// The greatest length a resize allows: the client's maximum, where 0
/// means no limit.
pub open spec fn upper_limit(max: i32) -> int {
    if max == 0 { i32::MAX as int } else { max as int }
}

/// A length raised to the lower limit, then lowered to the upper one.
pub open spec fn clamp_length(v: int, min: i32, max: i32) -> int {
    let raised = if v < lower_limit(min) { lower_limit(min) } else { v };
    if raised > upper_limit(max) { upper_limit(max) } else { raised }
}

/// The size that a resize grab reports for the pointer at `current`.
pub open spec fn resized_size(
    initial: Size,
    edges: ResizeEdge,
    start: Point,
    current: Point,
    min: Size,
    max: Size,
) -> Size {
    Size {
        w: clamp_length(
            candidate_length(initial.w, current.x - start.x, edges.has_left() || edges.has_right(), edges.has_left()),
            min.w,
            max.w,
        ) as i32,
        h: clamp_length(
            candidate_length(initial.h, current.y - start.y, edges.has_top() || edges.has_bottom(), edges.has_top()),
            min.h,
            max.h,
        ) as i32,
    }
}

/// The location a window takes when a resize commits with the window at
/// `loc` and `size`: dragging the left edge moves `x` by the change of
/// width, dragging the top edge moves `y` by the change of height, so the
/// opposite edges stay where they were.
pub open spec fn anchored_location(loc: Point, edges: ResizeEdge, initial: Rectangle, size: Size) -> Point {
    Point {
        x: if edges.has_left() { sat_i32(initial.loc.x + (initial.size.w - size.w)) as i32 } else { loc.x },
        y: if edges.has_top() { sat_i32(initial.loc.y + (initial.size.h - size.h)) as i32 } else { loc.y },
    }
}

/// Computes `moved_location`.
pub fn move_location(initial: Point, start: Point, current: Point) -> (r: Point)
    ensures
        r == moved_location(initial, start, current),
{
    let x = saturate_i32(initial.x as i64 + (current.x as i64 - start.x as i64));
    let y = saturate_i32(initial.y as i64 + (current.y as i64 - start.y as i64));
    Point { x, y }
}

fn axis_length(initial: i32, delta: i64, active: bool, near: bool) -> (r: i32)
    requires
        -0x1_0000_0000 <= delta <= 0x1_0000_0000,
    ensures
        r as int == candidate_length(initial, delta as int, active, near),
{
    if !active {
        initial
    } else if near {
        saturate_i32(initial as i64 - delta)
    } else {
        saturate_i32(initial as i64 + delta)
    }
}

/// Clamps one length to `[max(min, 1), max or unlimited]`.
pub fn clamp_axis(v: i32, min: i32, max: i32) -> (r: i32)
    ensures
        r as int == clamp_length(v as int, min, max),
{
    let lo: i32 = if min < 1 { 1 } else { min };
    let hi: i32 = if max == 0 { i32::MAX } else { max };
    let raised = if v < lo { lo } else { v };
    if raised > hi { hi } else { raised }
}

/// Computes `resized_size`.
pub fn resize_size(
    initial: Size,
    edges: ResizeEdge,
    start: Point,
    current: Point,
    min: Size,
    max: Size,
) -> (r: Size)
    ensures
        r == resized_size(initial, edges, start, current, min, max),
{
    let dx = current.x as i64 - start.x as i64;
    let dy = current.y as i64 - start.y as i64;
    let w = axis_length(initial.w, dx, edges.affects_width(), edges.is_left());
    let h = axis_length(initial.h, dy, edges.affects_height(), edges.is_top());
    Size { w: clamp_axis(w, min.w, max.w), h: clamp_axis(h, min.h, max.h) }
}

/// Computes `anchored_location`, or `None` when neither the left nor the
/// top edge was dragged (the location then stays as it is).
pub fn anchor_location(loc: Point, edges: ResizeEdge, initial: Rectangle, size: Size) -> (r: Option<Point>)
    ensures
        r == (if edges.has_left() || edges.has_top() {
            Some(anchored_location(loc, edges, initial, size))
        } else {
            None::<Point>
        }),
{
    let left = edges.is_left();
    let top = edges.is_top();
    if !left && !top {
        return None;
    }
    let x = if left {
        saturate_i32(initial.loc.x as i64 + (initial.size.w as i64 - size.w as i64))
    } else {
        loc.x
    };
    let y = if top {
        saturate_i32(initial.loc.y as i64 + (initial.size.h as i64 - size.h as i64))
    } else {
        loc.y
    };
    Some(Point { x, y })
}

/// A move grab places the window at its initial location plus the
/// pointer's travel from where the grab began, whatever path the pointer
/// took: the location depends on the start and the current pointer
/// location alone, and (when it fits `i32`) equals `initial + (current -
/// start)` exactly.
pub proof fn lemma_move_follows_pointer(initial: Point, start: Point, current: Point)
    requires
        i32::MIN <= initial.x + (current.x - start.x) <= i32::MAX,
        i32::MIN <= initial.y + (current.y - start.y) <= i32::MAX,
    ensures
        moved_location(initial, start, current).x == initial.x + (current.x - start.x),
        moved_location(initial, start, current).y == initial.y + (current.y - start.y),
{
}

/// Where a move grab leaves its window, from location `loc`, after the
/// pointer moved through `path` in order: each motion places the window
/// at `moved_location` for that motion's pointer location.
/// This is the step that `Navda::pointer_motion` makes under a move grab.
pub open spec fn after_motions(loc: Point, initial: Point, start: Point, path: Seq<Point>) -> Point
    decreases path.len(),
{
    if path.len() == 0 {
        loc
    } else {
        after_motions(moved_location(initial, start, path[0]), initial, start, path.drop_first())
    }
}

/// Whatever sequence of motions a move grab receives, and wherever the
/// window stood before, the window ends where the last motion alone puts
/// it: the initial location plus the travel from the start to the last
/// pointer location. Intermediate motions leave no trace (no drift).
pub proof fn lemma_motions_do_not_drift(loc: Point, initial: Point, start: Point, path: Seq<Point>)
    requires
        path.len() >= 1,
    ensures
        after_motions(loc, initial, start, path) == moved_location(initial, start, path.last()),
    decreases path.len(),
{
    if path.len() > 1 {
        lemma_motions_do_not_drift(moved_location(initial, start, path[0]), initial, start, path.drop_first());
        assert(path.drop_first().last() == path.last());
    } else {
        let m = moved_location(initial, start, path[0]);
        assert(path.drop_first().len() == 0);
        assert(after_motions(m, initial, start, path.drop_first()) == m);
        assert(path.last() == path[0]);
    }
}

/// Whatever the pointer travel and the edges, each side of a resized size
/// lies between the client's minimum (at least 1) and its maximum (no
/// limit when 0), provided the minimum does not exceed a set maximum.
pub proof fn lemma_resize_within_limits(
    initial: Size,
    edges: ResizeEdge,
    start: Point,
    current: Point,
    min: Size,
    max: Size,
)
    requires
        max.w == 0 || lower_limit(min.w) <= max.w,
        max.h == 0 || lower_limit(min.h) <= max.h,
    ensures
        lower_limit(min.w) <= resized_size(initial, edges, start, current, min, max).w <= upper_limit(max.w),
        lower_limit(min.h) <= resized_size(initial, edges, start, current, min, max).h <= upper_limit(max.h),
{
}

/// After a resize commits, dragging the left edge moves `x` by exactly the
/// change of width, and any other resize leaves `x` where it was; the same
/// holds of the top edge, `y` and the height (given the result fits `i32`).
pub proof fn lemma_anchor_keeps_far_edges(loc: Point, edges: ResizeEdge, initial: Rectangle, size: Size)
    requires
        i32::MIN <= initial.loc.x + (initial.size.w - size.w) <= i32::MAX,
        i32::MIN <= initial.loc.y + (initial.size.h - size.h) <= i32::MAX,
    ensures
        edges.has_left() ==> anchored_location(loc, edges, initial, size).x == initial.loc.x + (initial.size.w - size.w),
        !edges.has_left() ==> anchored_location(loc, edges, initial, size).x == loc.x,
        edges.has_top() ==> anchored_location(loc, edges, initial, size).y == initial.loc.y + (initial.size.h - size.h),
        !edges.has_top() ==> anchored_location(loc, edges, initial, size).y == loc.y,
{
}

} // verus!
