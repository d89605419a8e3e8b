//! The minigame's playfield: the rectangle of the bar, its one-time refinement to
//! the arrow markers, the bite heuristic, and the rod that tracks the bar.
use vstd::prelude::*;

use crate::color::{arrow_colors, arrow_palette, channel_distance, luma, ColorTarget, Rgb};
use crate::geometry::{Point, Region};
use crate::hook::{trackable, FishPosition, Hook, Rod};
use crate::screen::Screen;

verus! {

/// Rows of the cursor strip that must agree.
pub const CURSOR_RUN: u32 = 20;

/// Largest per-channel difference inside the cursor strip.
pub const CURSOR_TOLERANCE: u8 = 3;

/// Why the playfield could not be refined.
#[derive(Clone, Copy, Debug, PartialEq, Eq, Structural)]
pub enum RefineError {
    /// An arrow marker is missing from one of the halves.
    ArrowsNotFound,
    /// The markers, moved inwards, leave the coordinate range or cross.
    InvalidArea,
}

/// The refined playfield: inside the left and right arrow markers.
pub open spec fn refine_outcome(region: Region, screen: &Screen) -> Result<Region, RefineError> {
    match (
        region.left_half_first(screen, arrow_palette()),
        region.right_half_first(screen, arrow_palette()),
    ) {
        (Some(l), Some(r)) => match (l.spec_shift(20, -10), r.spec_shift(-20, 20)) {
            (Some(p1), Some(p2)) => if trackable(Region { point1: p1, point2: p2 }) {
                Ok(Region { point1: p1, point2: p2 })
            } else {
                Err(RefineError::InvalidArea)
            },
            _ => Err(RefineError::InvalidArea),
        },
        _ => Err(RefineError::ArrowsNotFound),
    }
}

/// A brightness of the resting cursor: its bright or its dark variant.
pub open spec fn cursor_level(l: int) -> bool {
    (210 <= l < 240) || (90 <= l < 120)
}

/// The pixel at `(x, y)` has a cursor brightness and stays within the tolerance of `base`.
pub open spec fn cursor_like(screen: &Screen, x: int, y: int, base: Rgb) -> bool {
    match screen.pixel(x, y) {
        Some(p) => {
            &&& cursor_level(luma(p))
            &&& channel_distance(p.r, base.r) <= CURSOR_TOLERANCE
            &&& channel_distance(p.g, base.g) <= CURSOR_TOLERANCE
            &&& channel_distance(p.b, base.b) <= CURSOR_TOLERANCE
        },
        None => false,
    }
}

/// Column `x` holds a cursor strip of `CURSOR_RUN` rows from row `y0`.
pub open spec fn cursor_run(screen: &Screen, x: int, y0: int) -> bool {
    match screen.pixel(x, y0) {
        Some(base) => forall|y: int| y0 <= y < y0 + CURSOR_RUN ==> #[trigger] cursor_like(screen, x, y, base),
        None => false,
    }
}

pub open spec fn strip_x_min(screen: &Screen) -> int {
    screen.spec_width() as int / 2 + 5
}

pub open spec fn strip_x_max(screen: &Screen) -> int {
    screen.spec_width() as int / 2 + 7
}

pub open spec fn strip_y_min(screen: &Screen) -> int {
    screen.spec_height() as int * 70 / 100
}

/// Last row at which a strip may start: `CURSOR_RUN` rows before 80% of the height.
pub open spec fn strip_y_last(screen: &Screen) -> int {
    let y_max = screen.spec_height() as int * 80 / 100;
    if y_max >= CURSOR_RUN - 1 {
        y_max - (CURSOR_RUN - 1)
    } else {
        0
    }
}

/// The resting cursor shows above the bar: a strip of `CURSOR_RUN` agreeing cursor
/// pixels in one of the columns just right of the screen's middle, between 70% and
/// 80% of its height.
pub open spec fn bite_visible(screen: &Screen) -> bool {
    exists|x: int, y0: int|
        strip_x_min(screen) <= x <= strip_x_max(screen) && strip_y_min(screen) <= y0 <= strip_y_last(screen)
            && #[trigger] cursor_run(screen, x, y0)
}

proof fn lemma_run_broken(screen: &Screen, x: int, y0: int, base: Rgb, y: int)
    requires
        screen.pixel(x, y0) == Some(base),
        !cursor_like(screen, x, y, base),
        y0 <= y < y0 + CURSOR_RUN,
    ensures
        !cursor_run(screen, x, y0),
{
    assert(screen.pixel(x, y0)->Some_0 == base);
}

fn close(a: u8, b: u8) -> (r: bool)
    ensures
        r == (channel_distance(a, b) <= CURSOR_TOLERANCE),
{
    if a >= b {
        a - b <= CURSOR_TOLERANCE
    } else {
        b - a <= CURSOR_TOLERANCE
    }
}

fn cursor_run_at(screen: &Screen, x: u32, y0: u32) -> (r: bool)
    ensures
        r == cursor_run(screen, x as int, y0 as int),
{
    let base = match screen.pixel_at(x, y0) {
        Some(p) => p,
        None => {
            return false;
        },
    };
    let mut i: u32 = 0;
    while i < CURSOR_RUN
        invariant
            i <= CURSOR_RUN,
            screen.pixel(x as int, y0 as int) == Some(base),
            forall|y: int| y0 <= y < y0 + i ==> #[trigger] cursor_like(screen, x as int, y, base),
        decreases CURSOR_RUN - i,
    {
        let y: u64 = y0 as u64 + i as u64;
        if y >= screen.height() as u64 {
            assert(!cursor_like(screen, x as int, y as int, base));
            proof {
                lemma_run_broken(screen, x as int, y0 as int, base, y as int);
            }
            return false;
        }
        let ok = match screen.pixel_at(x, y as u32) {
            Some(p) => {
                let level = ColorTarget::brightness(&p);
                ((210 <= level && level < 240) || (90 <= level && level < 120)) && close(p.r, base.r)
                    && close(p.g, base.g) && close(p.b, base.b)
            },
            None => false,
        };
        if !ok {
            assert(!cursor_like(screen, x as int, y as int, base));
            proof {
                lemma_run_broken(screen, x as int, y0 as int, base, y as int);
            }
            return false;
        }
        i = i + 1;
    }
    true
}

/// The playfield and the rod that tracks the bar in it.
pub struct MiniGame {
    outer: Region,
    pub rod: Option<Rod>,
}

impl MiniGame {
    pub closed spec fn spec_region(&self) -> Region {
        self.outer
    }

    pub closed spec fn spec_rod(&self) -> Option<Rod> {
        self.rod
    }

    /// The playfield can be scanned and measured.
    pub open spec fn wf(&self) -> bool {
        trackable(self.spec_region())
    }

    pub fn new(region: Region) -> (r: MiniGame)
        requires
            trackable(region),
        ensures
            r.wf(),
            r.spec_region() == region,
            r.spec_rod() is None,
    {
        MiniGame { outer: region, rod: None }
    }

    /// The playfield.
    pub fn region(&self) -> (r: Region)
        ensures
            r == self.spec_region(),
    {
        self.outer
    }

    /// Whether a rod tracks the bar yet.
    pub fn has_rod(&self) -> (r: bool)
        ensures
            r == self.spec_rod() is Some,
    {
        self.rod.is_some()
    }

    /// Whether a fish bites: the resting cursor shows above the bar (see `bite_visible`).
    pub fn any_fish_hooked(&self, screen: &Screen) -> (r: bool)
        ensures
            r == bite_visible(screen),
    {
        let half = screen.width() / 2;
        let x_min = half + 5;
        let x_max = half + 7;
        let y_min = (screen.height() as u64 * 70 / 100) as u32;
        let y_max = (screen.height() as u64 * 80 / 100) as u32;
        let y_last = y_max.saturating_sub(CURSOR_RUN - 1);
        let mut x: u32 = x_max;
        loop
            invariant
                x_min <= x <= x_max,
                x_min == strip_x_min(screen),
                x_max == strip_x_max(screen),
                y_min == strip_y_min(screen),
                y_last == strip_y_last(screen),
                forall|x2: int, y0: int|
                    x < x2 <= x_max && y_min <= y0 <= y_last ==> !#[trigger] cursor_run(screen, x2, y0),
            decreases x,
        {
            let mut y0: u64 = y_min as u64;
            while y0 <= y_last as u64
                invariant
                    y_min <= y0,
                    y0 <= y_last + 1 || y0 == y_min,
                    x_min <= x <= x_max,
                    y_last == strip_y_last(screen),
                    y_min == strip_y_min(screen),
                    x_min == strip_x_min(screen),
                    x_max == strip_x_max(screen),
                    forall|y2: int| y_min <= y2 < y0 ==> !#[trigger] cursor_run(screen, x as int, y2),
                decreases y_last + 1 - y0,
            {
                if cursor_run_at(screen, x, y0 as u32) {
                    return true;
                }
                y0 = y0 + 1;
            }
            if x == x_min {
                return false;
            }
            x = x - 1;
        }
    }

    /// Tightens the playfield to the inside of the arrow markers at both ends of the
    /// bar; when a marker is missing, or the result would not be a usable
    /// rectangle, it fails and leaves the playfield as it was.
    pub fn refine_area(&mut self, img: &Screen) -> (r: Result<(), RefineError>)
        requires
            old(self).wf(),
        ensures
            final(self).wf(),
            final(self).spec_rod() == old(self).spec_rod(),
            match refine_outcome(old(self).spec_region(), img) {
                Ok(region) => r is Ok && final(self).spec_region() == region,
                Err(e) => r == Err::<(), RefineError>(e) && *final(self) == *old(self),
            },
    {
        let arrows = arrow_colors();
        let left = self.outer.search_color_left_half(img, arrows.as_slice());
        let right = self.outer.search_color_right_half(img, arrows.as_slice());
        match (left, right) {
            (Some(l), Some(r)) => match (l.shift(20, -10), r.shift(-20, 20)) {
                (Some(p1), Some(p2)) => {
                    if p1.x <= p2.x && p1.y <= p2.y && (p2.x as u64 - p1.x as u64) < u32::MAX as u64 {
                        self.outer = Region { point1: p1, point2: p2 };
                        Ok(())
                    } else {
                        Err(RefineError::InvalidArea)
                    }
                },
                _ => Err(RefineError::InvalidArea),
            },
            _ => Err(RefineError::ArrowsNotFound),
        }
    }

    /// Hands the rod over to the playfield.
    pub fn initialize_rod(&mut self, rod: Rod)
        ensures
            final(self).spec_region() == old(self).spec_region(),
            final(self).spec_rod() == Some(rod),
    {
        self.rod = Some(rod);
    }

    /// Reads the bar from a new frame through the rod.
    pub fn find_hook(&mut self, image: &Screen) -> (r: Hook)
        requires
            old(self).wf(),
            old(self).spec_rod() is Some,
        ensures
            final(self).spec_region() == old(self).spec_region(),
            final(self).spec_rod() == Some(old(self).spec_rod().unwrap().after_frame(image, old(self).spec_region())),
            r == final(self).spec_rod().unwrap().spec_hook(),
    {
        let region = self.outer;
        let mut rod = self.rod.take().unwrap();
        let hook = rod.find_hook(image, &region);
        self.rod = Some(rod);
        hook
    }

    /// What `get_fish` reports: a fish seen now, or the remembered one while the bite
    /// still shows.
    pub open spec fn fish_reported(rod: Rod, image: &Screen, region: Region) -> Option<Point> {
        match rod.fish_seen(image, region) {
            Some(FishPosition::Exact(p)) => Some(p),
            Some(FishPosition::Approximative(p)) => if bite_visible(image) {
                Some(p)
            } else {
                None
            },
            None => None,
        }
    }

    /// The fish on the playfield's middle row, or its last known position while a
    /// bite still shows.
    pub fn get_fish(&mut self, image: &Screen) -> (r: Option<Point>)
        requires
            old(self).spec_rod() is Some,
        ensures
            final(self).spec_region() == old(self).spec_region(),
            final(self).spec_rod() == Some(old(self).spec_rod().unwrap().after_fish(image, old(self).spec_region())),
            r == Self::fish_reported(old(self).spec_rod().unwrap(), image, old(self).spec_region()),
    {
        let region = self.outer;
        let mut rod = self.rod.take().unwrap();
        let seen = rod.get_fish(image, &region);
        self.rod = Some(rod);
        match seen {
            Some(FishPosition::Exact(p)) => Some(p),
            Some(FishPosition::Approximative(p)) => {
                if self.any_fish_hooked(image) {
                    Some(p)
                } else {
                    None
                }
            },
            None => None,
        }
    }
}

} // verus!
