//! Rectangles on the screen.

use vstd::prelude::*;

verus! {

/// A rectangle of cells.
#[derive(Debug, Clone, Copy, PartialEq, Eq, Structural)]
pub struct Rect {
    pub x: u16,
    pub y: u16,
    pub width: u16,
    pub height: u16,
}

/// `left + right`, or the largest coordinate.
pub open spec fn saturated(left: int, right: int) -> int {
    if left + right <= u16::MAX {
        left + right
    } else {
        u16::MAX as int
    }
}

pub open spec fn least(left: int, right: int) -> int {
    if left <= right {
        left
    } else {
        right
    }
}

pub open spec fn largest(left: int, right: int) -> int {
    if left >= right {
        left
    } else {
        right
    }
}

/// `left - right`, or zero.
pub open spec fn difference(left: int, right: int) -> int {
    if left >= right {
        left - right
    } else {
        0
    }
}

impl Rect {
    /// The first column to the right of the rectangle.
    pub open spec fn right_edge(self) -> int {
        saturated(self.x as int, self.width as int)
    }

    /// The first row below the rectangle.
    pub open spec fn bottom_edge(self) -> int {
        saturated(self.y as int, self.height as int)
    }

    /// Makes a rectangle with `ratatui::layout::Rect::new`, which keeps the
    /// corner and cuts width and height where the rectangle would reach past
    /// the largest coordinate.
    #[verifier::external_body]
    pub(crate) fn new(x: u16, y: u16, width: u16, height: u16) -> (rect: Rect)
        ensures
            rect.x == x,
            rect.y == y,
            rect.width == saturated(x as int, width as int) - x,
            rect.height == saturated(y as int, height as int) - y,
    {
        let rect = ratatui::layout::Rect::new(x, y, width, height);
        Rect { x: rect.x, y: rect.y, width: rect.width, height: rect.height }
    }

    /// Asks `ratatui::layout::Rect::right` for the first column to the right of
    /// the rectangle, which is at most the largest coordinate.
    #[verifier::external_body]
    pub(crate) fn right(&self) -> (right: u16)
        ensures
            right == self.right_edge(),
    {
        ratatui::layout::Rect { x: self.x, y: self.y, width: self.width, height: self.height }
            .right()
    }

    /// Asks `ratatui::layout::Rect::bottom` for the first row below the
    /// rectangle, which is at most the largest coordinate.
    #[verifier::external_body]
    pub(crate) fn bottom(&self) -> (bottom: u16)
        ensures
            bottom == self.bottom_edge(),
    {
        ratatui::layout::Rect { x: self.x, y: self.y, width: self.width, height: self.height }
            .bottom()
    }
}

/// The smaller of two coordinates.
pub fn smaller_of(left: u16, right: u16) -> (least_one: u16)
    ensures
        least_one == least(left as int, right as int),
{
    if left <= right {
        left
    } else {
        right
    }
}

/// The larger of two coordinates.
pub fn larger_of(left: u16, right: u16) -> (largest_one: u16)
    ensures
        largest_one == largest(left as int, right as int),
{
    if left >= right {
        left
    } else {
        right
    }
}

} // verus!
