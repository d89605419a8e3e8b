//! Bookkeeping of the repetitive clickers: how many rounds are left, and where the
//! selling and appraising dialogs are clicked.
use vstd::prelude::*;

use crate::geometry::{Dimensions, Point};

verus! {

/// A count of rounds; `u16::MAX` rounds means no end.
pub struct Repeat {
    remaining: u16,
    endless: bool,
}

impl Repeat {
    pub closed spec fn spec_remaining(&self) -> int {
        self.remaining as int
    }

    pub closed spec fn spec_endless(&self) -> bool {
        self.endless
    }

    pub fn new(count: u16) -> (r: Repeat)
        ensures
            r.spec_endless() == (count == u16::MAX),
            r.spec_remaining() == count,
    {
        Repeat { remaining: count, endless: count == u16::MAX }
    }

    /// Whether another round is due; a due round is counted off.
    pub fn next_round(&mut self) -> (r: bool)
        ensures
            r == (old(self).spec_endless() || old(self).spec_remaining() > 0),
            final(self).spec_endless() == old(self).spec_endless(),
            final(self).spec_remaining() == if !old(self).spec_endless() && r {
                old(self).spec_remaining() - 1
            } else {
                old(self).spec_remaining()
            },
    {
        if self.endless {
            true
        } else if self.remaining > 0 {
            self.remaining = self.remaining - 1;
            true
        } else {
            false
        }
    }

    /// Rounds left, or `None` when there is no end.
    pub fn remaining(&self) -> (r: Option<u16>)
        ensures
            r == if self.spec_endless() {
                None
            } else {
                Some(self.spec_remaining() as u16)
            },
    {
        if self.endless {
            None
        } else {
            Some(self.remaining)
        }
    }
}

/// The point at `px`% of the width and `py`% of the height.
pub open spec fn at_percent(d: Dimensions, px: int, py: int) -> Point {
    Point { x: (d.width * px / 100) as u32, y: (d.height * py / 100) as u32 }
}

fn percent_point(d: &Dimensions, px: u64, py: u64) -> (r: Point)
    requires
        px <= 100,
        py <= 100,
    ensures
        r == at_percent(*d, px as int, py as int),
{
    assert(d.width as u64 * px / 100 <= d.width) by (nonlinear_arith)
        requires
            px <= 100,
    ;
    assert(d.height as u64 * py / 100 <= d.height) by (nonlinear_arith)
        requires
            py <= 100,
    ;
    Point { x: (d.width as u64 * px / 100) as u32, y: (d.height as u64 * py / 100) as u32 }
}

/// Where to click to sell: the item, then the dialog's answer.
pub fn sell_points(d: &Dimensions) -> (r: (Point, Point))
    ensures
        r == (at_percent(*d, 36, 67), at_percent(*d, 63, 53)),
{
    (percent_point(d, 36, 67), percent_point(d, 63, 53))
}

/// Where to click to appraise: the item, then the dialog's answer.
pub fn appraise_points(d: &Dimensions) -> (r: (Point, Point))
    ensures
        r == (at_percent(*d, 36, 67), at_percent(*d, 63, 51)),
{
    (percent_point(d, 36, 67), percent_point(d, 63, 51))
}

} // verus!
