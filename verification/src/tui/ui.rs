//! Geometry and colour decisions of the display.

use vstd::prelude::*;

verus! {

/// A margin around a rectangle.
#[derive(Debug, Clone, Copy)]
pub struct Margin {
    pub vertical: u16,
    pub horizontal: u16,
}

/// A rectangle of character cells.
#[derive(Debug, Clone, Copy, PartialEq, Eq, Structural)]
pub struct Rect {
    pub x: u16,
    pub y: u16,
    pub width: u16,
    pub height: u16,
}

/// The smaller of two numbers.
pub open spec fn smaller(a: int, b: int) -> int {
    if a <= b {
        a
    } else {
        b
    }
}

/// Rectangles that can be shrunk by a margin.
pub trait RectExt {
    /// The sums of position and size fit the coordinates.
    spec fn fits(&self) -> bool;

    /// The rectangle inside this one that leaves the margin free.
    spec fn shrunk_by(&self, margin: Margin) -> Rect;

    /// The rectangle inside this one that leaves the margin free on every
    /// side.
    fn inner(&self, margin: &Margin) -> (r: Rect)
        requires
            self.fits(),
        ensures
            r == self.shrunk_by(*margin),
    ;
}

impl Rect {
    /// The rectangle has a right and a lower edge that can be told.
    pub open spec fn wf(&self) -> bool {
        self.x + self.width <= u16::MAX && self.y + self.height <= u16::MAX
    }

    /// The rectangle inside this one that leaves the margin free on every
    /// side. A margin of more than half the width or height is cut down to
    /// half of it.
    pub open spec fn shrunk(self, margin: Margin) -> Rect {
        let h = smaller(margin.horizontal as int, self.width as int / 2);
        let v = smaller(margin.vertical as int, self.height as int / 2);
        Rect {
            x: (self.x + h) as u16,
            y: (self.y + v) as u16,
            width: (self.width - 2 * h) as u16,
            height: (self.height - 2 * v) as u16,
        }
    }
}

impl RectExt for Rect {
    open spec fn fits(&self) -> bool {
        self.wf()
    }

    open spec fn shrunk_by(&self, margin: Margin) -> Rect {
        self.shrunk(margin)
    }

    /// The rectangle inside this one that leaves the margin free on every
    /// side. It lies within this one.
    fn inner(&self, margin: &Margin) -> (r: Rect)
        ensures
            r.wf(),
            r.x >= self.x,
            r.y >= self.y,
            r.x + r.width <= self.x + self.width,
            r.y + r.height <= self.y + self.height,
    {
        let horizontal_margin: u16 = if margin.horizontal < self.width / 2 {
            margin.horizontal
        } else {
            self.width / 2
        };
        let vertical_margin: u16 = if margin.vertical < self.height / 2 {
            margin.vertical
        } else {
            self.height / 2
        };
        Rect {
            x: self.x + horizontal_margin,
            y: self.y + vertical_margin,
            width: self.width - horizontal_margin * 2,
            height: self.height - vertical_margin * 2,
        }
    }
}

/// The colour in which an importance score is shown.
#[derive(Debug, Clone, Copy, PartialEq, Eq, Structural)]
pub enum ScoreColor {
    /// For a score above seven tenths.
    Success,
    /// For a score above three tenths.
    Warning,
    /// For a score of at most three tenths.
    Error,
}

/// The colour of a score in millionths.
pub open spec fn color_of(score: nat) -> ScoreColor {
    if score > 700_000 {
        ScoreColor::Success
    } else if score > 300_000 {
        ScoreColor::Warning
    } else {
        ScoreColor::Error
    }
}

/// The colour in which an importance score, in millionths, is shown.
pub fn importance_color(score: u32) -> (color: ScoreColor)
    ensures
        color == color_of(score as nat),
{
    if score > 700_000 {
        ScoreColor::Success
    } else if score > 300_000 {
        ScoreColor::Warning
    } else {
        ScoreColor::Error
    }
}

/// The length of the bar that shows `count` against the greatest count
/// `most` on a scale of `width` cells: the share of `count` in `most`,
/// rounded down, and never more than `width`.
pub fn bar_width(count: usize, most: usize, width: usize) -> (n: usize)
    requires
        most > 0,
    ensures
        n == smaller(width as int, count * width / (most as int)),
{
    if count >= most {
        assert(count * width / (most as int) >= width) by (nonlinear_arith)
            requires
                count >= most,
                most > 0,
                width >= 0,
        ;
        width
    } else {
        assert(count * width <= 0xffff_ffff_ffff_ffff * 0xffff_ffff_ffff_ffff) by (nonlinear_arith)
            requires
                0 <= count <= 0xffff_ffff_ffff_ffff,
                0 <= width <= 0xffff_ffff_ffff_ffff,
        ;
        let product: u128 = (count as u128) * (width as u128);
        let share: u128 = product / (most as u128);
        assert(count * width / (most as int) <= width) by (nonlinear_arith)
            requires
                count < most,
                most > 0,
                count >= 0,
                width >= 0,
        ;
        share as usize
    }
}

} // verus!
