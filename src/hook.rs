//! The hook tracker: where the player's bar is along the playfield's middle row,
//! by brightness segmentation or by its reference colors, and the rod that keeps
//! the bar's length once it has been measured.
use vstd::prelude::*;

use crate::color::{fish_colors, fish_palette, hook_colors, hook_palette, luma, ColorTarget};
use crate::geometry::{first_true, hit_at, last_true, row_hits, Point, Region};
use crate::scanline::{
    longest_bright_segment, longest_segment, percentile_level, percentile_threshold, Span,
};
use crate::screen::Screen;

verus! {

/// Dark positions bridged inside one bright segment: arrow icons and the fish
/// marker overlapping the bar.
pub const GAP_TOLERANCE: u32 = 35;

/// Length of a bar that was never measured, in percent of the playfield's width.
pub const DEFAULT_LENGTH_PERCENT: u64 = 30;

/// Where the bar lies along the playfield's middle row.
#[derive(Clone, Copy, Debug, PartialEq, Eq, Structural)]
pub struct HookPosition {
    /// Left end.
    pub absolute_beg_x: u32,
    /// Middle.
    pub absolute_mid_x: u32,
    /// Right end.
    pub absolute_end_x: u32,
}

/// What the tracker knows of the bar after a frame.
#[derive(Clone, Copy, Debug, PartialEq, Eq, Structural)]
pub struct Hook {
    /// Position in the last frame; `None` when the bar could not be found in it.
    pub position: Option<HookPosition>,
    /// Length in pixels: measured, or the default share of the playfield.
    pub length: u32,
    /// Whether the bar was found in the last frame.
    pub fish_on: bool,
    /// Last position at which the fish was seen.
    pub last_fish_position: Option<Point>,
}

/// A fish seen in this frame, or remembered from an earlier one.
#[derive(Clone, Copy, Debug, PartialEq, Eq, Structural)]
pub enum FishPosition {
    Exact(Point),
    Approximative(Point),
}

/// How the bar is told apart from the rest of the middle row.
#[derive(Clone, Copy, Debug, PartialEq, Eq, Structural)]
pub enum HookDetection {
    /// The longest run of pixels at or above the row's 97th-percentile brightness.
    Brightness,
    /// The span from the leftmost to the rightmost pixel of the bar's colors.
    ColorMatch,
}

/// Brightness of the pixel at `(x, y)`; 0 outside the raster.
pub open spec fn level_at(screen: &Screen, x: int, y: int) -> u8 {
    match screen.pixel(x, y) {
        Some(p) => luma(p) as u8,
        None => 0,
    }
}

/// Brightness along the region's middle row, from its left edge to its right edge.
pub open spec fn midline_levels(screen: &Screen, region: Region) -> Seq<u8> {
    Seq::new(region.span_width(), |i: int| level_at(screen, region.point1.x + i, region.mid_y()))
}

/// The bar found by brightness, in screen columns.
pub open spec fn brightness_span(screen: &Screen, region: Region) -> Option<Span> {
    let levels = midline_levels(screen, region);
    match longest_segment(levels, percentile_level(levels), GAP_TOLERANCE as int) {
        Some(s) => Some((region.point1.x + s.0, region.point1.x + s.1)),
        None => None,
    }
}

/// The bar found by color: leftmost to rightmost middle-row pixel of its colors.
pub open spec fn color_span(screen: &Screen, region: Region) -> Option<Span> {
    let hits = row_hits(screen, hook_palette(), region.point1.x as int, region.span_width(), region.mid_y());
    match (first_true(hits), last_true(hits)) {
        (Some(a), Some(b)) => Some((region.point1.x + a, region.point1.x + b)),
        _ => None,
    }
}

pub open spec fn hook_span(screen: &Screen, region: Region, detection: HookDetection) -> Option<Span> {
    match detection {
        HookDetection::Brightness => brightness_span(screen, region),
        HookDetection::ColorMatch => color_span(screen, region),
    }
}

pub open spec fn position_of(s: Span) -> HookPosition {
    HookPosition {
        absolute_beg_x: s.0 as u32,
        absolute_mid_x: (s.0 + (s.1 - s.0) / 2) as u32,
        absolute_end_x: s.1 as u32,
    }
}

/// Number of pixels from the first to the last of a span.
pub open spec fn length_of(s: Span) -> int {
    s.1 - s.0 + 1
}

pub open spec fn span32(r: Option<(u32, u32)>) -> Option<Span> {
    match r {
        Some(p) => Some((p.0 as int, p.1 as int)),
        None => None,
    }
}

/// The region is wide enough to scan and narrow enough for a length in `u32`.
pub open spec fn trackable(region: Region) -> bool {
    region.wf() && region.span_width() <= u32::MAX
}

fn midline_brightness(screen: &Screen, region: &Region) -> (r: Vec<u8>)
    ensures
        r@ == midline_levels(screen, *region),
{
    let y = ((region.point1.y as u64 + region.point2.y as u64) / 2) as u32;
    let count: u64 = if region.point1.x <= region.point2.x {
        region.point2.x as u64 - region.point1.x as u64 + 1
    } else {
        0
    };
    let mut levels: Vec<u8> = Vec::new();
    let mut i: u64 = 0;
    while i < count
        invariant
            i <= count,
            count == region.span_width(),
            y == region.mid_y(),
            levels@.len() == i,
            forall|j: int|
                0 <= j < i ==> levels@[j] == level_at(screen, region.point1.x + j, region.mid_y()),
        decreases count - i,
    {
        let x = (region.point1.x as u64 + i) as u32;
        let level = match screen.pixel_at(x, y) {
            Some(p) => ColorTarget::brightness(&p),
            None => 0,
        };
        levels.push(level);
        i = i + 1;
    }
    assert(levels@ =~= midline_levels(screen, *region));
    levels
}

fn brightness_hook_span(screen: &Screen, region: &Region) -> (r: Option<(u32, u32)>)
    requires
        region.span_width() <= u32::MAX,
    ensures
        span32(r) == brightness_span(screen, *region),
        r matches Some(p) ==> region.point1.x <= p.0 <= p.1 <= region.point2.x,
{
    let levels = midline_brightness(screen, region);
    let threshold = percentile_threshold(&levels);
    match longest_bright_segment(&levels, threshold, GAP_TOLERANCE) {
        Some((a, b)) => Some(((region.point1.x as u64 + a as u64) as u32, (region.point1.x as u64
            + b as u64) as u32)),
        None => None,
    }
}

fn color_hook_span(screen: &Screen, region: &Region) -> (r: Option<(u32, u32)>)
    ensures
        span32(r) == color_span(screen, *region),
        r matches Some(p) ==> region.point1.x <= p.0 <= p.1 <= region.point2.x,
{
    let targets = hook_colors();
    let y = ((region.point1.y as u64 + region.point2.y as u64) / 2) as u32;
    let count: u64 = if region.point1.x <= region.point2.x {
        region.point2.x as u64 - region.point1.x as u64 + 1
    } else {
        0
    };
    let ghost hits = row_hits(screen, hook_palette(), region.point1.x as int, count as nat, y as int);
    let mut first: Option<u64> = None;
    let mut last: Option<u64> = None;
    let mut i: u64 = 0;
    while i < count
        invariant
            i <= count,
            count == region.span_width(),
            y == region.mid_y(),
            targets@ == hook_palette(),
            hits == row_hits(screen, hook_palette(), region.point1.x as int, count as nat, y as int),
            first_true(hits.take(i as int)) == (match first {
                Some(v) => Some(v as int),
                None => None::<int>,
            }),
            last_true(hits.take(i as int)) == (match last {
                Some(v) => Some(v as int),
                None => None::<int>,
            }),
            first matches Some(v) ==> v < i,
            last matches Some(v) ==> v < i,
        decreases count - i,
    {
        assert(hits.take(i as int + 1).drop_last() =~= hits.take(i as int));
        let x = (region.point1.x as u64 + i) as u32;
        if hit_at(screen, targets.as_slice(), x, y) {
            if first.is_none() {
                first = Some(i);
            }
            last = Some(i);
        }
        i = i + 1;
    }
    assert(hits.take(count as int) =~= hits);
    proof {
        crate::geometry::lemma_first_true_least(hits);
        crate::geometry::lemma_last_true_greatest(hits);
    }
    match (first, last) {
        (Some(a), Some(b)) => Some(((region.point1.x as u64 + a) as u32, (region.point1.x as u64 + b) as u32)),
        _ => None,
    }
}

/// Finds the bar along the region's middle row: its length and position.
pub fn search_hook(screen: &Screen, region: &Region, detection: HookDetection) -> (r: Option<
    (u32, HookPosition),
>)
    requires
        trackable(*region),
    ensures
        r == (match hook_span(screen, *region, detection) {
            Some(s) => Some((length_of(s) as u32, position_of(s))),
            None => None,
        }),
        r matches Some(p) ==> p.0 >= 1,
        hook_span(screen, *region, detection) matches Some(s) ==> region.point1.x <= s.0 <= s.1
            <= region.point2.x && 1 <= length_of(s) <= u32::MAX,
{
    let span = match detection {
        HookDetection::Brightness => brightness_hook_span(screen, region),
        HookDetection::ColorMatch => color_hook_span(screen, region),
    };
    match span {
        Some((a, b)) => {
            let length = b - a + 1;
            Some((length, HookPosition { absolute_beg_x: a, absolute_mid_x: a + (b - a) / 2, absolute_end_x: b }))
        },
        None => None,
    }
}

/// The default bar length for a playfield `width` pixels wide.
pub open spec fn default_length(width: int) -> int {
    width * DEFAULT_LENGTH_PERCENT as int / 100
}

/// The player's bar across frames: its last snapshot, and whether its length was
/// measured; a measured length is kept from then on.
pub struct Rod {
    internals: Hook,
    exact_length: bool,
    detection: HookDetection,
}

impl Rod {
    pub closed spec fn spec_hook(&self) -> Hook {
        self.internals
    }

    /// Whether the length was measured rather than defaulted.
    pub closed spec fn spec_exact(&self) -> bool {
        self.exact_length
    }

    pub closed spec fn spec_detection(&self) -> HookDetection {
        self.detection
    }

    /// What `new` builds from `screen`: the bar's position and length when it is
    /// found (the length then measured), else no position and the default length;
    /// no fish seen yet.
    pub open spec fn built_from(self, screen: &Screen, region: Region, detection: HookDetection) -> bool {
        &&& self.spec_detection() == detection
        &&& !self.spec_hook().fish_on
        &&& self.spec_hook().last_fish_position is None
        &&& match hook_span(screen, region, detection) {
            Some(s) => {
                &&& self.spec_hook().position == Some(position_of(s))
                &&& self.spec_hook().length == length_of(s)
                &&& self.spec_exact()
            },
            None => {
                &&& self.spec_hook().position is None
                &&& self.spec_hook().length == default_length(region.spec_size().width as int)
                &&& !self.spec_exact()
            },
        }
    }

    /// A rod measured on `screen`; without a visible bar, its length defaults to
    /// 30% of the playfield's width and counts as not measured.
    pub fn new(screen: &Screen, mini_game_region: &Region, detection: HookDetection) -> (r: Rod)
        requires
            trackable(*mini_game_region),
        ensures
            r.built_from(screen, *mini_game_region, detection),
    {
        match search_hook(screen, mini_game_region, detection) {
            Some((length, position)) => Rod {
                internals: Hook {
                    position: Some(position),
                    length,
                    fish_on: false,
                    last_fish_position: None,
                },
                exact_length: true,
                detection,
            },
            None => {
                let width = mini_game_region.get_size().width as u64;
                let length = (width * DEFAULT_LENGTH_PERCENT / 100) as u32;
                Rod {
                    internals: Hook {
                        position: None,
                        length,
                        fish_on: false,
                        last_fish_position: None,
                    },
                    exact_length: false,
                    detection,
                }
            },
        }
    }

    /// Reads the bar from a new frame: `fish_on` tells whether it was found; a found
    /// bar sets the position, and the length only while it was never measured; a
    /// frame without a bar leaves no position and keeps the length.
    pub fn update_hook(&mut self, image: &Screen, mini_game_region: &Region)
        requires
            trackable(*mini_game_region),
        ensures
            *final(self) == old(self).after_frame(image, *mini_game_region),
    {
        let found = search_hook(image, mini_game_region, self.detection);
        self.internals.fish_on = found.is_some();
        match found {
            Some((length, position)) => {
                self.internals.position = Some(position);
                if !self.exact_length {
                    self.internals.length = length;
                    self.exact_length = true;
                }
            },
            None => {
                self.internals.position = None;
            },
        }
    }

    /// Reads the bar from a new frame and returns the updated snapshot.
    pub fn find_hook(&mut self, image: &Screen, mini_game_region: &Region) -> (r: Hook)
        requires
            trackable(*mini_game_region),
        ensures
            *final(self) == old(self).after_frame(image, *mini_game_region),
            r == final(self).spec_hook(),
    {
        self.update_hook(image, mini_game_region);
        self.internals
    }

    /// The rod after reading the bar from `image`.
    pub closed spec fn after_frame(self, image: &Screen, region: Region) -> Rod {
        match hook_span(image, region, self.detection) {
            Some(s) => Rod {
                internals: Hook {
                    position: Some(position_of(s)),
                    length: if self.exact_length {
                        self.internals.length
                    } else {
                        length_of(s) as u32
                    },
                    fish_on: true,
                    ..self.internals
                },
                exact_length: true,
                ..self
            },
            None => Rod { internals: Hook { fish_on: false, position: None, ..self.internals }, ..self },
        }
    }

    /// The fish that `get_fish` reports on `image`.
    pub open spec fn fish_seen(self, image: &Screen, region: Region) -> Option<FishPosition> {
        if !self.spec_hook().fish_on {
            None
        } else {
            match region.mid_row_first(image, fish_palette()) {
                Some(p) => Some(FishPosition::Exact(p)),
                None => match self.spec_hook().last_fish_position {
                    Some(p) => Some(FishPosition::Approximative(p)),
                    None => None,
                },
            }
        }
    }

    /// The rod after `get_fish` on `image`: a fish seen now is remembered.
    pub closed spec fn after_fish(self, image: &Screen, region: Region) -> Rod {
        match self.fish_seen(image, region) {
            Some(FishPosition::Exact(p)) => Rod {
                internals: Hook { last_fish_position: Some(p), ..self.internals },
                ..self
            },
            _ => self,
        }
    }

    /// The fish on the middle row while the bar is in sight: seen now (and then
    /// remembered), or else the last position seen; nothing while the bar is not found.
    pub fn get_fish(&mut self, image: &Screen, mini_game_region: &Region) -> (r: Option<FishPosition>)
        ensures
            r == old(self).fish_seen(image, *mini_game_region),
            *final(self) == old(self).after_fish(image, *mini_game_region),
            final(self).spec_detection() == old(self).spec_detection(),
            final(self).spec_exact() == old(self).spec_exact(),
            final(self).spec_hook().position == old(self).spec_hook().position,
            final(self).spec_hook().length == old(self).spec_hook().length,
            final(self).spec_hook().fish_on == old(self).spec_hook().fish_on,
            final(self).spec_hook().last_fish_position == match r {
                Some(FishPosition::Exact(p)) => Some(p),
                _ => old(self).spec_hook().last_fish_position,
            },
            !old(self).spec_hook().fish_on ==> *final(self) == *old(self),
    {
        if !self.internals.fish_on {
            return None;
        }
        let fish = fish_colors();
        match mini_game_region.search_color_mid_ltr(image, fish.as_slice()) {
            Some(pos) => {
                self.internals.last_fish_position = Some(pos);
                Some(FishPosition::Exact(pos))
            },
            None => match self.internals.last_fish_position {
                Some(p) => Some(FishPosition::Approximative(p)),
                None => None,
            },
        }
    }

    /// The last snapshot.
    pub fn hook(&self) -> (r: Hook)
        ensures
            r == self.spec_hook(),
    {
        self.internals
    }

    /// Whether the length was measured rather than defaulted.
    pub fn length_is_exact(&self) -> (r: bool)
        ensures
            r == self.spec_exact(),
    {
        self.exact_length
    }
}

/// What `get_fish` does to the rod: a fish seen now becomes the last fish position;
/// the bar's position, length, `fish_on`, the measured flag and the detection stay;
/// without a fish seen now, or while the bar is not found, the rod is unchanged.
pub proof fn lemma_fish_keeps_bar(rod: Rod, image: &Screen, region: Region)
    ensures
        rod.after_fish(image, region).spec_detection() == rod.spec_detection(),
        rod.after_fish(image, region).spec_exact() == rod.spec_exact(),
        rod.after_fish(image, region).spec_hook().position == rod.spec_hook().position,
        rod.after_fish(image, region).spec_hook().length == rod.spec_hook().length,
        rod.after_fish(image, region).spec_hook().fish_on == rod.spec_hook().fish_on,
        rod.after_fish(image, region).spec_hook().last_fish_position == match rod.fish_seen(image, region) {
            Some(FishPosition::Exact(p)) => Some(p),
            _ => rod.spec_hook().last_fish_position,
        },
        !(rod.fish_seen(image, region) matches Some(FishPosition::Exact(_))) ==> rod.after_fish(image, region)
            == rod,
        !rod.spec_hook().fish_on ==> rod.after_fish(image, region) == rod,
{
}

/// What a frame does to the rod: `fish_on` tells whether the bar was found; a found
/// bar sets the position and marks the length measured; a measured length never
/// changes again, and a frame without a bar clears the position and keeps the length.
pub proof fn lemma_frame_keeps_measured_length(rod: Rod, image: &Screen, region: Region)
    ensures
        rod.after_frame(image, region).spec_detection() == rod.spec_detection(),
        rod.after_frame(image, region).spec_hook().fish_on == hook_span(image, region, rod.spec_detection()) is Some,
        rod.after_frame(image, region).spec_hook().last_fish_position == rod.spec_hook().last_fish_position,
        rod.spec_exact() ==> rod.after_frame(image, region).spec_exact()
            && rod.after_frame(image, region).spec_hook().length == rod.spec_hook().length,
        match hook_span(image, region, rod.spec_detection()) {
            Some(s) => {
                &&& rod.after_frame(image, region).spec_hook().position == Some(position_of(s))
                &&& rod.after_frame(image, region).spec_exact()
                &&& !rod.spec_exact() ==> rod.after_frame(image, region).spec_hook().length == length_of(s) as u32
            },
            None => {
                &&& rod.after_frame(image, region).spec_hook().position is None
                &&& rod.after_frame(image, region).spec_hook().length == rod.spec_hook().length
                &&& rod.after_frame(image, region).spec_exact() == rod.spec_exact()
            },
        },
{
}

} // verus!
