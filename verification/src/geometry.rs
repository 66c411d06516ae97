//! Rectangles of terminal cells.
use vstd::prelude::*;

verus! {

/// A rectangle: its upper left cell, and how many cells it measures.
#[derive(Clone, Copy, Debug, PartialEq, Eq, Structural)]
pub struct Rect {
    pub x: u16,
    pub y: u16,
    pub width: u16,
    pub height: u16,
}

/// The smaller of two numbers.
pub open spec fn least(a: int, b: int) -> int {
    if a <= b {
        a
    } else {
        b
    }
}

/// What is left of a number, but no less than nothing.
pub open spec fn less(a: int, b: int) -> int {
    if a <= b {
        0
    } else {
        a - b
    }
}

/// A rectangle that ends where positions end, if not before.
pub open spec fn rect(x: int, y: int, width: int, height: int) -> Rect {
    Rect {
        x: x as u16,
        y: y as u16,
        width: least(width, u16::MAX - x) as u16,
        height: least(height, u16::MAX - y) as u16,
    }
}

/// The first column right of a rectangle.
pub open spec fn right_of(area: Rect) -> int {
    least(area.x + area.width, u16::MAX as int)
}

/// The first row below a rectangle.
pub open spec fn bottom_of(area: Rect) -> int {
    least(area.y + area.height, u16::MAX as int)
}

/// Whether a cell lies in a rectangle.
pub open spec fn in_rect(area: Rect, x: int, y: int) -> bool {
    area.x <= x < right_of(area) && area.y <= y < bottom_of(area)
}

/// Whether the far edges of a rectangle are positions too.
pub open spec fn whole(area: Rect) -> bool {
    area.x + area.width <= u16::MAX && area.y + area.height <= u16::MAX
}

impl Rect {
    /// A rectangle that ends where positions end, if not before.
    pub fn new(x: u16, y: u16, width: u16, height: u16) -> (area: Self)
        ensures
            area == rect(x as int, y as int, width as int, height as int),
            whole(area),
    {
        let most_wide: u16 = u16::MAX - x;
        let most_high: u16 = u16::MAX - y;
        Rect {
            x,
            y,
            width: if width > most_wide {
                most_wide
            } else {
                width
            },
            height: if height > most_high {
                most_high
            } else {
                height
            },
        }
    }

    /// The first column right of it.
    pub fn right(self) -> (x: u16)
        ensures
            x == right_of(self),
    {
        self.x.saturating_add(self.width)
    }

    /// The first row below it.
    pub fn bottom(self) -> (y: u16)
        ensures
            y == bottom_of(self),
    {
        self.y.saturating_add(self.height)
    }

    /// Whether a cell lies in it.
    pub fn contains(self, x: u16, y: u16) -> (answer: bool)
        ensures
            answer == in_rect(self, x as int, y as int),
    {
        x >= self.x && x < self.right() && y >= self.y && y < self.bottom()
    }
}

/// The smaller of two numbers.
pub fn smaller(a: u16, b: u16) -> (least_of_both: u16)
    ensures
        least_of_both == least(a as int, b as int),
{
    if a <= b {
        a
    } else {
        b
    }
}

/// A number moved into a range, which holds one number at least.
pub open spec fn into_range(n: int, low: int, high: int) -> int {
    if n < low {
        low
    } else if n > high {
        high
    } else {
        n
    }
}

/// A number moved into a range.
pub fn clamped(n: u16, low: u16, high: u16) -> (inside: u16)
    requires
        low <= high,
    ensures
        inside == into_range(n as int, low as int, high as int),
{
    if n < low {
        low
    } else if n > high {
        high
    } else {
        n
    }
}

} // verus!
