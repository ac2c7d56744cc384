use vstd::prelude::*;

verus! {

/// A rectangle of terminal cells: a position and an extent.
#[derive(Clone, Copy, Debug, PartialEq, Eq, Structural)]
pub struct Rect {
    pub x: u16,
    pub y: u16,
    pub width: u16,
    pub height: u16,
}

impl Rect {
    /// Whether the rectangle is large enough to hold an interior once a
    /// one-cell border is drawn on every side.
    pub open spec fn has_interior(self) -> bool {
        self.width >= 2 && self.height >= 2 && self.x < u16::MAX && self.y < u16::MAX
    }

    /// The interior of a bordered rectangle: inset by one cell on every
    /// side. A rectangle too small for an interior keeps its position and
    /// becomes empty.
    pub open spec fn inner_spec(self) -> Rect {
        if self.has_interior() {
            Rect {
                x: (self.x + 1) as u16,
                y: (self.y + 1) as u16,
                width: (self.width - 2) as u16,
                height: (self.height - 2) as u16,
            }
        } else {
            Rect { x: self.x, y: self.y, width: 0, height: 0 }
        }
    }

    /// Computes the interior rectangle left inside a one-cell border.
    pub fn inner(&self) -> (r: Rect)
        ensures
            r == self.inner_spec(),
    {
        if self.width >= 2 && self.height >= 2 && self.x < u16::MAX && self.y < u16::MAX {
            Rect { x: self.x + 1, y: self.y + 1, width: self.width - 2, height: self.height - 2 }
        } else {
            Rect { x: self.x, y: self.y, width: 0, height: 0 }
        }
    }

    /// The rectangle narrowed by two cells on the right, so right-aligned
    /// text inside it stays clear of a neighbouring border or padding.
    pub open spec fn narrowed_spec(self) -> Rect {
        Rect {
            x: self.x,
            y: self.y,
            width: if self.width >= 2 {
                (self.width - 2) as u16
            } else {
                0
            },
            height: self.height,
        }
    }

    /// Computes the narrowed rectangle used for the right-aligned size
    /// column beside a name column.
    pub fn narrowed(&self) -> (r: Rect)
        ensures
            r == self.narrowed_spec(),
    {
        let width: u16 = if self.width >= 2 {
            self.width - 2
        } else {
            0
        };
        Rect { x: self.x, y: self.y, width, height: self.height }
    }
}

/// Whether two rectangles of one horizontal band share no column of
/// cells: one ends at or before the other starts, or one is empty.
pub open spec fn spans_disjoint(a: Rect, b: Rect) -> bool {
    ||| a.x + a.width <= b.x
    ||| b.x + b.width <= a.x
    ||| a.width == 0
    ||| b.width == 0
}

} // verus!
