//! A plain rectangle with a verified area computation.

use vstd::prelude::*;

verus! {

/// An axis-aligned rectangle described by its side lengths.
#[derive(Debug, Clone, Copy, PartialEq, Eq, Structural)]
pub struct Rect {
    pub width: i32,
    pub height: i32,
}

impl Rect {
    /// The area as an unbounded integer.
    pub open spec fn spec_area(self) -> int {
        self.width * self.height
    }

    /// The product of the sides, on rectangles whose area fits in `i32`.
    pub fn area(&self) -> (area: i32)
        requires
            i32::MIN <= self.spec_area() <= i32::MAX,
        ensures
            area == self.spec_area(),
    {
        self.width * self.height
    }
}

} // verus!
