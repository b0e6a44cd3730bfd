//! Rectangles of terminal cells, and the rectangle in the middle of
//! another.

use vstd::prelude::*;

verus! {

/// A rectangle of terminal cells as the contracts see it.
pub struct Area {
    pub x: int,
    pub y: int,
    pub width: int,
    pub height: int,
}

/// A rectangle of terminal cells. Its right and bottom edges lie within the
/// coordinates that a `u16` can hold.
#[derive(Debug, Clone, Copy, PartialEq, Eq)]
pub struct Rect {
    x: u16,
    y: u16,
    width: u16,
    height: u16,
}

impl View for Rect {
    type V = Area;

    closed spec fn view(&self) -> Area {
        Area {
            x: self.x as int,
            y: self.y as int,
            width: self.width as int,
            height: self.height as int,
        }
    }
}

impl Area {
    /// Whether the rectangle lies within the coordinates of a terminal.
    pub open spec fn within_grid(self) -> bool {
        &&& 0 <= self.x
        &&& 0 <= self.y
        &&& 0 <= self.width
        &&& 0 <= self.height
        &&& self.x + self.width <= u16::MAX
        &&& self.y + self.height <= u16::MAX
    }

    /// Whether the rectangle lies within `outer`.
    pub open spec fn inside(self, outer: Area) -> bool {
        &&& outer.x <= self.x
        &&& outer.y <= self.y
        &&& self.x + self.width <= outer.x + outer.width
        &&& self.y + self.height <= outer.y + outer.height
    }
}

/// The smaller of two numbers.
pub open spec fn at_most(a: int, b: int) -> int {
    if a <= b {
        a
    } else {
        b
    }
}

/// The rectangle in the middle of `r` that takes `percent_x` percent of its
/// width, 100 at most, and `height` rows, as far as `r` has them. Where the
/// space left over is odd, the smaller part is in front.
pub open spec fn centered(percent_x: int, height: int, r: Area) -> Area {
    let width = r.width * at_most(percent_x, 100) / 100;
    let height = at_most(height, r.height);
    Area {
        x: r.x + (r.width - width) / 2,
        y: r.y + (r.height - height) / 2,
        width,
        height,
    }
}

/// A share of a width is no wider than the width.
pub proof fn lemma_share_of_width(width: int, percent: int)
    requires
        0 <= width,
        0 <= percent <= 100,
    ensures
        0 <= width * percent / 100 <= width,
{
    assert(0 <= width * percent <= width * 100) by (nonlinear_arith)
        requires
            0 <= width,
            0 <= percent <= 100,
    ;
}

/// The centered rectangle lies within the rectangle that it is centered
/// in, and is no larger than asked for.
pub proof fn lemma_centered_inside(percent_x: int, height: int, r: Area)
    requires
        r.within_grid(),
        0 <= percent_x,
        0 <= height,
    ensures
        centered(percent_x, height, r).within_grid(),
        centered(percent_x, height, r).inside(r),
        centered(percent_x, height, r).height <= height,
        centered(percent_x, height, r).width * 100 <= r.width * at_most(percent_x, 100),
{
    lemma_share_of_width(r.width, at_most(percent_x, 100));
}

impl Rect {
    #[verifier::type_invariant]
    pub open spec fn is_within_grid(&self) -> bool {
        self@.within_grid()
    }

    /// Creates a rectangle, with width and height limited to keep its right
    /// and bottom edges within `u16`.
    pub fn new(x: u16, y: u16, width: u16, height: u16) -> (rect: Self)
        ensures
            rect@ == (Area {
                x: x as int,
                y: y as int,
                width: at_most(width as int, u16::MAX - x),
                height: at_most(height as int, u16::MAX - y),
            }),
    {
        let max_width = u16::MAX - x;
        let max_height = u16::MAX - y;
        Rect {
            x,
            y,
            width: if width > max_width {
                max_width
            } else {
                width
            },
            height: if height > max_height {
                max_height
            } else {
                height
            },
        }
    }

    /// The column of the left edge.
    pub fn x(&self) -> (x: u16)
        ensures
            x == self@.x,
    {
        self.x
    }

    /// The row of the top edge.
    pub fn y(&self) -> (y: u16)
        ensures
            y == self@.y,
    {
        self.y
    }

    /// The number of columns.
    pub fn width(&self) -> (width: u16)
        ensures
            width == self@.width,
    {
        self.width
    }

    /// The number of rows.
    pub fn height(&self) -> (height: u16)
        ensures
            height == self@.height,
    {
        self.height
    }
}

/// Helper function to create a centered rect.
pub fn centered_rect(percent_x: u16, height: u16, r: Rect) -> (rect: Rect)
    ensures
        rect@ == centered(percent_x as int, height as int, r@),
{
    proof {
        use_type_invariant(&r);
        lemma_centered_inside(percent_x as int, height as int, r@);
    }
    // Ensure that the height does not exceed the available area's height.
    let height = if height < r.height {
        height
    } else {
        r.height
    };
    // Ensure that the percentage for width does not exceed 100.
    let percent_x = if percent_x < 100 {
        percent_x
    } else {
        100
    };
    proof {
        lemma_share_of_width(r.width as int, percent_x as int);
        assert(r.width * percent_x <= u16::MAX * 100) by (nonlinear_arith)
            requires
                0 <= r.width <= u16::MAX,
                0 <= percent_x <= 100,
        ;
    }
    let popup_width = ((r.width as u32) * (percent_x as u32) / 100) as u16;
    let x_margin = (r.width - popup_width) / 2;
    let y_margin = (r.height - height) / 2;
    Rect { x: r.x + x_margin, y: r.y + y_margin, width: popup_width, height }
}

} // verus!
