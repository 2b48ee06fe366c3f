//! Screen geometry: rectangles of cells, sizes, and the directions panes are laid out in.

use vstd::prelude::*;

verus! {

/// A rectangle of screen cells.
#[derive(Clone, Copy, Debug, PartialEq, Eq, Structural)]
pub struct Rect {
    pub x: u16,
    pub y: u16,
    pub width: u16,
    pub height: u16,
}

/// The size of a terminal in cells.
#[derive(Clone, Copy, Debug, PartialEq, Eq, Structural)]
pub struct Size {
    pub cols: u16,
    pub rows: u16,
}

/// The way a split divides its slot.
#[derive(Clone, Copy, Debug, PartialEq, Eq, Structural)]
pub enum Axis {
    LeftRight,
    TopBottom,
}

/// A direction of movement or resizing.
#[derive(Clone, Copy, Debug, PartialEq, Eq, Structural)]
pub enum Dir {
    Left,
    Down,
    Up,
    Right,
}

/// The sum of two coordinates, held at the edge of the coordinate range.
pub open spec fn plus(a: u16, b: u16) -> u16 {
    if a + b > u16::MAX {
        u16::MAX
    } else {
        (a + b) as u16
    }
}

/// The difference of two coordinates, zero where it would be negative.
pub open spec fn minus(a: u16, b: u16) -> u16 {
    if a < b {
        0
    } else {
        (a - b) as u16
    }
}

/// `a` brought into `lo..=hi`.
pub open spec fn within(a: u16, lo: u16, hi: u16) -> u16 {
    if a < lo {
        lo
    } else if a > hi {
        hi
    } else {
        a
    }
}

/// The larger of two coordinates.
pub open spec fn larger(a: u16, b: u16) -> u16 {
    if a >= b {
        a
    } else {
        b
    }
}

/// The smaller of two coordinates.
pub open spec fn smaller(a: u16, b: u16) -> u16 {
    if a <= b {
        a
    } else {
        b
    }
}

/// [`plus`], computed.
pub fn add_to(a: u16, b: u16) -> (c: u16)
    ensures
        c == plus(a, b),
{
    if a as u32 + b as u32 > 65535 {
        65535
    } else {
        a + b
    }
}

/// [`minus`], computed.
pub fn take_off(a: u16, b: u16) -> (c: u16)
    ensures
        c == minus(a, b),
{
    if a < b {
        0
    } else {
        a - b
    }
}

/// [`within`], computed.
pub fn bring_within(a: u16, lo: u16, hi: u16) -> (c: u16)
    ensures
        c == within(a, lo, hi),
{
    if a < lo {
        lo
    } else if a > hi {
        hi
    } else {
        a
    }
}

/// [`larger`], computed.
pub fn larger_of(a: u16, b: u16) -> (c: u16)
    ensures
        c == larger(a, b),
{
    if a >= b {
        a
    } else {
        b
    }
}

/// [`smaller`], computed.
pub fn smaller_of(a: u16, b: u16) -> (c: u16)
    ensures
        c == smaller(a, b),
{
    if a <= b {
        a
    } else {
        b
    }
}

/// The rectangle at `(x, y)`, cut to what the coordinate range can hold.
pub open spec fn rect(x: u16, y: u16, width: u16, height: u16) -> Rect {
    Rect {
        x,
        y,
        width: if x + width > u16::MAX {
            (u16::MAX - x) as u16
        } else {
            width
        },
        height: if y + height > u16::MAX {
            (u16::MAX - y) as u16
        } else {
            height
        },
    }
}

impl Rect {
    /// The first column to the right of the rectangle.
    pub open spec fn spec_right(self) -> u16 {
        plus(self.x, self.width)
    }

    /// The first row below the rectangle.
    pub open spec fn spec_bottom(self) -> u16 {
        plus(self.y, self.height)
    }

    /// Whether the cell `(col, row)` lies in the rectangle.
    pub open spec fn has(self, col: u16, row: u16) -> bool {
        self.x <= col < self.spec_right() && self.y <= row < self.spec_bottom()
    }

    /// Whether the rectangle ends inside the coordinate range.
    pub open spec fn fits(self) -> bool {
        self.x + self.width <= u16::MAX && self.y + self.height <= u16::MAX
    }

    /// The rectangle without its one-cell border.
    pub open spec fn spec_inner(self) -> Rect {
        Rect {
            x: plus(self.x, 1),
            y: plus(self.y, 1),
            width: minus(self.width, 2),
            height: minus(self.height, 2),
        }
    }

    /// The rectangle at `(x, y)`, cut to what the coordinate range can hold.
    pub fn new(x: u16, y: u16, width: u16, height: u16) -> (r: Rect)
        ensures
            r == rect(x, y, width, height),
            r.fits(),
    {
        Rect {
            x,
            y,
            width: if x as u32 + width as u32 > 65535 {
                65535 - x
            } else {
                width
            },
            height: if y as u32 + height as u32 > 65535 {
                65535 - y
            } else {
                height
            },
        }
    }

    /// The first column to the right of the rectangle.
    pub fn right(self) -> (c: u16)
        ensures
            c == self.spec_right(),
    {
        add_to(self.x, self.width)
    }

    /// The first row below the rectangle.
    pub fn bottom(self) -> (r: u16)
        ensures
            r == self.spec_bottom(),
    {
        add_to(self.y, self.height)
    }

    /// Whether the cell `(col, row)` lies in the rectangle.
    pub fn contains(self, col: u16, row: u16) -> (b: bool)
        ensures
            b == self.has(col, row),
    {
        self.x <= col && col < self.right() && self.y <= row && row < self.bottom()
    }

    /// The rectangle without its one-cell border.
    pub fn inner(self) -> (r: Rect)
        ensures
            r == self.spec_inner(),
    {
        Rect {
            x: add_to(self.x, 1),
            y: add_to(self.y, 1),
            width: take_off(self.width, 2),
            height: take_off(self.height, 2),
        }
    }
}

} // verus!
