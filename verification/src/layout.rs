//! The parts of the screen that the tools draw on.

use ratatui::layout::{Constraint, Layout, Rect};
use ratatui::widgets::{Block, Borders};
use vstd::prelude::*;

verus! {

/// A part of the screen.
#[derive(Clone, Copy, Debug, PartialEq, Eq, Structural)]
pub struct Area {
    pub x: u16,
    pub y: u16,
    pub width: u16,
    pub height: u16,
}

/// A place on the screen.
#[derive(Clone, Copy, Debug, PartialEq, Eq, Structural)]
pub struct Place {
    pub x: u16,
    pub y: u16,
}

impl Area {
    /// No place of it is out of reach.
    pub open spec fn proper(self) -> bool {
        &&& self.x + self.width <= u16::MAX
        &&& self.y + self.height <= u16::MAX
    }

    /// Whether no place of it is out of reach.
    pub fn is_proper(self) -> (r: bool)
        ensures
            r == self.proper(),
    {
        self.width <= u16::MAX - self.x && self.height <= u16::MAX - self.y
    }

    /// What is left inside a frame around it.
    pub open spec fn inner(self) -> Area {
        Area {
            x: if self.width == 0 {
                self.x
            } else {
                (self.x + 1) as u16
            },
            y: if self.height == 0 {
                self.y
            } else {
                (self.y + 1) as u16
            },
            width: if self.width < 2 {
                0
            } else {
                (self.width - 2) as u16
            },
            height: if self.height < 2 {
                0
            } else {
                (self.height - 2) as u16
            },
        }
    }

    /// The rows of it from the row `from` on.
    pub open spec fn rows(self, from: int, count: int) -> Area {
        Area { y: (self.y + from) as u16, height: count as u16, ..self }
    }

    /// The rows of it that are left above a last one, which goes first where there
    /// is only one.
    pub open spec fn head(self) -> Area {
        if self.height < 2 {
            self
        } else {
            self.rows(0, self.height - 1)
        }
    }

    /// The last row of it, where there is more than one.
    pub open spec fn foot(self) -> Area {
        if self.height < 2 {
            self.rows(self.height as int, 0)
        } else {
            self.rows(self.height - 1, 1)
        }
    }
}

/// `Block::inner` of a `Block` with a title and all borders takes a row or a column
/// from each side, as far as there are any.
#[verifier::external_body]
pub(crate) fn inside_frame(area: Area) -> (r: Area)
    requires
        area.proper(),
    ensures
        r == area.inner(),
{
    let rect = Rect { x: area.x, y: area.y, width: area.width, height: area.height };
    let inner = Block::default().title(" ").borders(Borders::ALL).inner(rect);
    Area { x: inner.x, y: inner.y, width: inner.width, height: inner.height }
}

/// `Layout::areas` of a vertical `Layout` with a part of at least one row above a
/// part of one row: the upper part takes what the lower one leaves, and a row that
/// there is only one of.
#[verifier::external_body]
pub(crate) fn head_and_foot(area: Area) -> (r: (Area, Area))
    requires
        area.proper(),
    ensures
        r == (area.head(), area.foot()),
{
    let rect = Rect { x: area.x, y: area.y, width: area.width, height: area.height };
    let parts = [Constraint::Min(1), Constraint::Length(1)];
    let [head, foot] = Layout::vertical(parts).areas(rect);
    (
        Area { x: head.x, y: head.y, width: head.width, height: head.height },
        Area { x: foot.x, y: foot.y, width: foot.width, height: foot.height },
    )
}

/// `Layout::areas` of a vertical `Layout` with a part of at least one row, a part of
/// `middle` rows and a part of one row: where there is room for all of them, the first
/// part takes what the others leave. Without a middle part the first part takes a row
/// that there is only one of. How rows are shared out where there are too few for a
/// middle part is not said.
#[verifier::external_body]
pub(crate) fn head_middle_and_foot(area: Area, middle: u16) -> (r: (Area, Area, Area))
    requires
        area.proper(),
    ensures
        area.height >= middle + 2 ==> r == (
            area.rows(0, area.height - middle - 1),
            area.rows(area.height - middle - 1, middle as int),
            area.rows(area.height - 1, 1),
        ),
        middle == 0 ==> r == (area.head(), (Area { height: 0, ..area.foot() }), area.foot()),
{
    let rect = Rect { x: area.x, y: area.y, width: area.width, height: area.height };
    let parts = [Constraint::Min(1), Constraint::Length(middle), Constraint::Length(1)];
    let [head, mid, foot] = Layout::vertical(parts).areas(rect);
    (
        Area { x: head.x, y: head.y, width: head.width, height: head.height },
        Area { x: mid.x, y: mid.y, width: mid.width, height: mid.height },
        Area { x: foot.x, y: foot.y, width: foot.width, height: foot.height },
    )
}

/// What is left inside a frame lies within what is framed.
pub proof fn law_inner_lies_within(area: Area)
    requires
        area.proper(),
    ensures
        area.inner().proper(),
        area.x <= area.inner().x,
        area.y <= area.inner().y,
        area.inner().x + area.inner().width <= area.x + area.width,
        area.inner().y + area.inner().height <= area.y + area.height,
{
}

/// Head and foot lie in an area one below the other and fill it.
pub proof fn law_head_and_foot_fill(area: Area)
    requires
        area.proper(),
    ensures
        area.head().proper(),
        area.foot().proper(),
        area.head().y == area.y,
        area.foot().y == area.head().y + area.head().height,
        area.foot().y + area.foot().height == area.y + area.height,
        area.head().x == area.x && area.foot().x == area.x,
        area.head().width == area.width && area.foot().width == area.width,
        area.foot().height <= 1,
        area.height > 0 ==> area.head().height > 0,
{
}

} // verus!
