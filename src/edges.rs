use vstd::prelude::*;

verus! {

/// The edge or corner of a window that an interactive resize drags.
///
/// A set of four flags: `TOP`, `BOTTOM`, `LEFT` and `RIGHT`, one bit each.
#[derive(Clone, Copy, Debug, PartialEq, Eq, Structural)]
pub struct ResizeEdge {
    pub bits: u32,
}

impl ResizeEdge {
    /// No edge.
    pub fn none() -> (r: ResizeEdge)
        ensures
            r.bits == 0,
            r.has_top() == false,
            r.has_bottom() == false,
            r.has_left() == false,
            r.has_right() == false,
    {
        proof {
            assert((0u32 & 1u32 == 0) && (0u32 & 2u32 == 0) && (0u32 & 4u32 == 0) && (0u32 & 8u32 == 0)) by (bit_vector);
        }
        ResizeEdge { bits: 0 }
    }

    /// The top edge.
    pub fn top() -> (r: ResizeEdge)
        ensures
            r.bits == 1,
            r.has_top() == true,
            r.has_bottom() == false,
            r.has_left() == false,
            r.has_right() == false,
    {
        proof {
            assert((1u32 & 1u32 != 0) && (1u32 & 2u32 == 0) && (1u32 & 4u32 == 0) && (1u32 & 8u32 == 0)) by (bit_vector);
        }
        ResizeEdge { bits: 1 }
    }

    /// The bottom edge.
    pub fn bottom() -> (r: ResizeEdge)
        ensures
            r.bits == 2,
            r.has_top() == false,
            r.has_bottom() == true,
            r.has_left() == false,
            r.has_right() == false,
    {
        proof {
            assert((2u32 & 1u32 == 0) && (2u32 & 2u32 != 0) && (2u32 & 4u32 == 0) && (2u32 & 8u32 == 0)) by (bit_vector);
        }
        ResizeEdge { bits: 2 }
    }

    /// The left edge.
    pub fn left() -> (r: ResizeEdge)
        ensures
            r.bits == 4,
            r.has_top() == false,
            r.has_bottom() == false,
            r.has_left() == true,
            r.has_right() == false,
    {
        proof {
            assert((4u32 & 1u32 == 0) && (4u32 & 2u32 == 0) && (4u32 & 4u32 != 0) && (4u32 & 8u32 == 0)) by (bit_vector);
        }
        ResizeEdge { bits: 4 }
    }

    /// The right edge.
    pub fn right() -> (r: ResizeEdge)
        ensures
            r.bits == 8,
            r.has_top() == false,
            r.has_bottom() == false,
            r.has_left() == false,
            r.has_right() == true,
    {
        proof {
            assert((8u32 & 1u32 == 0) && (8u32 & 2u32 == 0) && (8u32 & 4u32 == 0) && (8u32 & 8u32 != 0)) by (bit_vector);
        }
        ResizeEdge { bits: 8 }
    }

    /// The top-left corner.
    pub fn top_left() -> (r: ResizeEdge)
        ensures
            r.bits == 5,
            r.has_top() == true,
            r.has_bottom() == false,
            r.has_left() == true,
            r.has_right() == false,
    {
        proof {
            assert((5u32 & 1u32 != 0) && (5u32 & 2u32 == 0) && (5u32 & 4u32 != 0) && (5u32 & 8u32 == 0)) by (bit_vector);
        }
        ResizeEdge { bits: 5 }
    }

    /// The bottom-left corner.
    pub fn bottom_left() -> (r: ResizeEdge)
        ensures
            r.bits == 6,
            r.has_top() == false,
            r.has_bottom() == true,
            r.has_left() == true,
            r.has_right() == false,
    {
        proof {
            assert((6u32 & 1u32 == 0) && (6u32 & 2u32 != 0) && (6u32 & 4u32 != 0) && (6u32 & 8u32 == 0)) by (bit_vector);
        }
        ResizeEdge { bits: 6 }
    }

    /// The top-right corner.
    pub fn top_right() -> (r: ResizeEdge)
        ensures
            r.bits == 9,
            r.has_top() == true,
            r.has_bottom() == false,
            r.has_left() == false,
            r.has_right() == true,
    {
        proof {
            assert((9u32 & 1u32 != 0) && (9u32 & 2u32 == 0) && (9u32 & 4u32 == 0) && (9u32 & 8u32 != 0)) by (bit_vector);
        }
        ResizeEdge { bits: 9 }
    }

    /// The bottom-right corner.
    pub fn bottom_right() -> (r: ResizeEdge)
        ensures
            r.bits == 10,
            r.has_top() == false,
            r.has_bottom() == true,
            r.has_left() == false,
            r.has_right() == true,
    {
        proof {
            assert((10u32 & 1u32 == 0) && (10u32 & 2u32 != 0) && (10u32 & 4u32 == 0) && (10u32 & 8u32 != 0)) by (bit_vector);
        }
        ResizeEdge { bits: 10 }
    }

    pub open spec fn wf(self) -> bool {
        self.bits < 16
    }

    pub open spec fn has_top(self) -> bool {
        self.bits & 1 != 0
    }

    pub open spec fn has_bottom(self) -> bool {
        self.bits & 2 != 0
    }

    pub open spec fn has_left(self) -> bool {
        self.bits & 4 != 0
    }

    pub open spec fn has_right(self) -> bool {
        self.bits & 8 != 0
    }

    /// Builds the set from raw bits; `None` when a bit outside the four
    /// flags is set.
    pub fn from_bits(bits: u32) -> (r: Option<ResizeEdge>)
        ensures
            r == (if bits < 16 { Some(ResizeEdge { bits }) } else { None::<ResizeEdge> }),
    {
        if bits < 16 {
            Some(ResizeEdge { bits })
        } else {
            None
        }
    }

    pub fn bits(&self) -> (r: u32)
        ensures
            r == self.bits,
    {
        self.bits
    }

    /// Whether the two sets share a flag.
    pub fn intersects(&self, other: ResizeEdge) -> (r: bool)
        ensures
            r == (self.bits & other.bits != 0),
    {
        self.bits & other.bits != 0
    }

    pub fn is_top(&self) -> (r: bool)
        ensures
            r == self.has_top(),
    {
        self.bits & 1 != 0
    }

    pub fn is_bottom(&self) -> (r: bool)
        ensures
            r == self.has_bottom(),
    {
        self.bits & 2 != 0
    }

    pub fn is_left(&self) -> (r: bool)
        ensures
            r == self.has_left(),
    {
        self.bits & 4 != 0
    }

    pub fn is_right(&self) -> (r: bool)
        ensures
            r == self.has_right(),
    {
        self.bits & 8 != 0
    }

    /// Whether a horizontal drag changes the width (LEFT or RIGHT is set).
    pub fn affects_width(&self) -> (r: bool)
        ensures
            r == (self.has_left() || self.has_right()),
    {
        self.is_left() || self.is_right()
    }

    /// Whether a vertical drag changes the height (TOP or BOTTOM is set).
    pub fn affects_height(&self) -> (r: bool)
        ensures
            r == (self.has_top() || self.has_bottom()),
    {
        self.is_top() || self.is_bottom()
    }
}

} // verus!
