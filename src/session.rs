//! The macro's decisions, from one observation to the next: shake or reel while
//! idle, the rod's set-up at the first bite, and the move for each frame of a catch.
//! The caller captures frames, keeps time and drives the mouse.
use vstd::prelude::*;

use crate::color::{shake_colors, shake_palette};
use crate::control::{decide, eased_hold, eased_ms, hold_formula, hold_ms, HoldCurve, Move};
use crate::geometry::{cap_u32, covered, in_margins, inside, Dimensions, Point, Region};
use crate::hook::{Hook, HookDetection, Rod};
use crate::minigame::{bite_visible, MiniGame, RefineError};
use crate::screen::Screen;
use crate::stats::{max_of, min_of, sat_add, Stats};

verus! {

/// Shortest and longest press while reeling, in milliseconds.
pub const REEL_HOLD_MIN_MS: u64 = 600;

pub const REEL_HOLD_MAX_MS: u64 = 1200;

/// Shortest and longest wait after reeling, in milliseconds.
pub const REEL_SETTLE_MIN_MS: u64 = 1000;

pub const REEL_SETTLE_MAX_MS: u64 = 1200;

/// How far right of the shake marker to click.
pub const SHAKE_CLICK_OFFSET: u32 = 25;

/// Share of the hook's length, in percent, kept as a margin at the playfield's ends.
pub const EDGE_MARGIN_PERCENT: u64 = 80;

/// Settings of a session.
#[derive(Clone, Copy, Debug, PartialEq, Eq, Structural)]
pub struct Config {
    /// Shakes after which a reel is forced.
    pub max_shake_count: u32,
    /// Milliseconds without a shake or reel after which a reel is forced.
    pub shake_timeout_ms: u64,
    /// Hook speed, in pixels per frame, from which a drift counts as fast.
    pub minimum_speed: i32,
    /// How the rod finds the bar.
    pub detection: HookDetection,
    /// How a gap becomes a hold duration.
    pub hold_curve: HoldCurve,
}

/// What to do while idle.
#[derive(Clone, Copy, Debug, PartialEq, Eq, Structural)]
pub enum ShakeDecision {
    /// Click the shake marker here.
    Click(Point),
    /// Cast again.
    Reel,
    /// Nothing yet: look again.
    Wait,
}

/// What to do with the reel button in one frame of a catch.
#[derive(Clone, Copy, Debug, PartialEq, Eq, Structural)]
pub enum FishingAction {
    /// Release: the fish is near the left end, or the bar is not in sight.
    Release,
    /// Press: the fish is near the right end.
    Press,
    /// Apply the move, holding for the given milliseconds.
    Steer(Move, u32),
    /// The fish is gone: release and close the catch.
    Finished,
}

/// Durations of a reel: the press, then the wait.
#[derive(Clone, Copy, Debug, PartialEq, Eq, Structural)]
pub struct ReelPlan {
    pub hold_ms: u64,
    pub settle_ms: u64,
}

/// The idle decision: too many shakes force a reel; a marker is clicked just right
/// of it; without one, a reel comes once the timeout has passed.
pub open spec fn shake_choice(
    shakes: u32,
    max_shake_count: u32,
    marker: Option<Point>,
    since_ms: u64,
    timeout_ms: u64,
) -> ShakeDecision {
    if shakes > max_shake_count {
        ShakeDecision::Reel
    } else {
        match marker {
            Some(p) => ShakeDecision::Click(
                Point { x: cap_u32(p.x + SHAKE_CLICK_OFFSET) as u32, y: p.y },
            ),
            None => if since_ms > timeout_ms {
                ShakeDecision::Reel
            } else {
                ShakeDecision::Wait
            },
        }
    }
}

/// Once the shake count has passed its maximum, the next idle decision is a reel,
/// whatever marker is seen and however little time has passed.
pub proof fn lemma_shake_overflow_reels(
    shakes: u32,
    max_shake_count: u32,
    marker: Option<Point>,
    since_ms: u64,
    timeout_ms: u64,
)
    requires
        shakes > max_shake_count,
    ensures
        shake_choice(shakes, max_shake_count, marker, since_ms, timeout_ms) == ShakeDecision::Reel,
{
}

/// `v` clamped to the range of `i32`.
pub open spec fn clamp_i32(v: int) -> int {
    if v > i32::MAX {
        i32::MAX as int
    } else if v < i32::MIN {
        i32::MIN as int
    } else {
        v
    }
}

fn clamped(v: i64) -> (r: i32)
    ensures
        r == clamp_i32(v as int),
{
    if v > i32::MAX as i64 {
        i32::MAX
    } else if v < i32::MIN as i64 {
        i32::MIN
    } else {
        v as i32
    }
}

/// The margin at the playfield's ends for a hook of `length` pixels.
pub open spec fn edge_margin(length: int) -> int {
    length * EDGE_MARGIN_PERCENT as int / 100
}

/// The action for one frame of a catch, from the bar, the fish, the playfield and
/// the bar's middle one frame earlier.
pub open spec fn fishing_choice(
    hook: Hook,
    fish: Option<Point>,
    region: Region,
    last_mid: Option<u32>,
    minimum_speed: i32,
    curve: HoldCurve,
) -> FishingAction {
    match fish {
        None => FishingAction::Finished,
        Some(f) => {
            let margin = edge_margin(hook.length as int);
            if f.x < region.point1.x + margin {
                FishingAction::Release
            } else if f.x + margin > region.point2.x {
                FishingAction::Press
            } else {
                match hook.position {
                    None => FishingAction::Release,
                    Some(pos) => {
                        let gap = clamp_i32(f.x - pos.absolute_mid_x);
                        let speed = match last_mid {
                            Some(m) => clamp_i32(pos.absolute_mid_x - m),
                            None => 0,
                        };
                        let width = region.point2.x - region.point1.x;
                        FishingAction::Steer(
                            decide(clamp_i32(hook.length as int), gap, speed, minimum_speed as int),
                            match curve {
                                HoldCurve::Table => hold_ms(gap, width) as u32,
                                HoldCurve::Eased => eased_ms(gap, speed, width) as u32,
                            },
                        )
                    },
                }
            }
        },
    }
}

/// The action for one frame of a catch (see `fishing_choice`).
pub fn decide_fishing(
    hook: &Hook,
    fish: Option<Point>,
    region: &Region,
    last_mid: Option<u32>,
    minimum_speed: i32,
    curve: HoldCurve,
) -> (r: FishingAction)
    requires
        region.wf(),
    ensures
        r == fishing_choice(*hook, fish, *region, last_mid, minimum_speed, curve),
{
    match fish {
        None => FishingAction::Finished,
        Some(f) => {
            let margin: u64 = hook.length as u64 * EDGE_MARGIN_PERCENT / 100;
            if (f.x as u64) < region.point1.x as u64 + margin {
                FishingAction::Release
            } else if f.x as u64 + margin > region.point2.x as u64 {
                FishingAction::Press
            } else {
                match hook.position {
                    None => FishingAction::Release,
                    Some(pos) => {
                        let gap = clamped(f.x as i64 - pos.absolute_mid_x as i64);
                        let speed: i32 = match last_mid {
                            Some(m) => clamped(pos.absolute_mid_x as i64 - m as i64),
                            None => 0,
                        };
                        let length = clamped(hook.length as i64);
                        let mv = Move::decision(length, gap, speed, minimum_speed);
                        let width = region.point2.x - region.point1.x;
                        let hold: u32 = match curve {
                            HoldCurve::Table => hold_formula(gap, width) as u32,
                            HoldCurve::Eased => eased_hold(gap, speed, width) as u32,
                        };
                        FishingAction::Steer(mv, hold)
                    },
                }
            }
        },
    }
}

/// Relies on `rand::Rng::random_range` over the thread-local generator: a value of
/// `min..=max`; it panics only on an empty range, which `requires` rules out.
#[verifier::external_body]
fn random_between(min: u64, max: u64) -> (r: u64)
    requires
        min <= max,
    ensures
        min <= r <= max,
{
    rand::Rng::random_range(&mut rand::rng(), min..=max)
}

/// A session: its settings, the playfield and shake area, the shakes since the
/// last reel, the bar's last middle and the statistics.
pub struct FishingMacro {
    config: Config,
    mini_game: MiniGame,
    shake_region: Region,
    safe_point: Point,
    shakes_since_reel: u32,
    last_hook_mid: Option<u32>,
    pub stats: Stats,
}

impl FishingMacro {
    pub closed spec fn spec_config(&self) -> Config {
        self.config
    }

    pub closed spec fn spec_mini_game(&self) -> MiniGame {
        self.mini_game
    }

    pub closed spec fn spec_safe_point(&self) -> Point {
        self.safe_point
    }

    pub closed spec fn spec_shake_region(&self) -> Region {
        self.shake_region
    }

    pub closed spec fn spec_shakes(&self) -> u32 {
        self.shakes_since_reel
    }

    pub closed spec fn spec_last_mid(&self) -> Option<u32> {
        self.last_hook_mid
    }

    pub closed spec fn spec_stats(&self) -> Stats {
        self.stats
    }

    /// The session's own invariant: a usable playfield.
    pub open spec fn wf(&self) -> bool {
        self.spec_mini_game().wf()
    }

    /// A session on a screen of `dimensions`, with the shake area placed below the
    /// menu button when it was found.
    pub fn new(config: Config, dimensions: &Dimensions, menu_button: Option<Point>, stats: Stats) -> (r:
        FishingMacro)
        ensures
            r.wf(),
            r.spec_config() == config,
            r.spec_shakes() == 0,
            r.spec_last_mid() is None,
            r.spec_mini_game().spec_rod() is None,
            r.spec_shake_region() == dimensions.calculate_shake_region_spec(menu_button),
            r.spec_mini_game().spec_region() == dimensions.mini_game_region_spec(),
            ({
                let a = dimensions.mini_game_region_spec();
                let b = dimensions.calculate_shake_region_spec(menu_button);
                let p = r.spec_safe_point();
                (exists|x: int, y: int|
                    in_margins(*dimensions, x, y) && !inside(a, x, y) && !#[trigger] inside(b, x, y))
                    ==> !inside(a, p.x as int, p.y as int) && !inside(b, p.x as int, p.y as int)
            }),
    {
        let mini_game = dimensions.calculate_mini_game_region();
        let shake_region = dimensions.calculate_shake_region(menu_button);
        let playfield = mini_game.region();
        let regions = vec![&playfield, &shake_region];
        assert(regions@.len() == 2 && *regions@[0] == playfield && *regions@[1] == shake_region);
        let found = dimensions.calculate_safe_point(&regions);
        proof {
            assert forall|x: int, y: int|
                covered(regions@, x, y) <==> (inside(playfield, x, y) || inside(shake_region, x, y)) by {
                if inside(playfield, x, y) {
                    assert(inside(*regions@[0], x, y));
                }
                if inside(shake_region, x, y) {
                    assert(inside(*regions@[1], x, y));
                }
            }
        }
        let safe_point = match found {
            Some(p) => p,
            None => Point { x: 0, y: 0 },
        };
        FishingMacro {
            config,
            mini_game,
            shake_region,
            safe_point,
            shakes_since_reel: 0,
            last_hook_mid: None,
            stats,
        }
    }

    /// Where to park the cursor, away from the playfield and the shake area.
    pub fn safe_point(&self) -> (r: Point)
        ensures
            r == self.spec_safe_point(),
    {
        self.safe_point
    }

    /// Where the shake marker is looked for.
    pub fn shake_region(&self) -> (r: Region)
        ensures
            r == self.spec_shake_region(),
    {
        self.shake_region
    }

    /// The playfield.
    pub fn mini_game(&self) -> (r: &MiniGame)
        ensures
            *r == self.spec_mini_game(),
    {
        &self.mini_game
    }

    /// Shakes since the last reel.
    pub fn shakes_since_reel(&self) -> (r: u32)
        ensures
            r == self.spec_shakes(),
    {
        self.shakes_since_reel
    }

    /// The idle decision on a frame of the shake area, `since_ms` after the last
    /// shake or reel; a click counts one more shake.
    pub fn idle_step(&mut self, frame: &Screen, since_ms: u64) -> (r: ShakeDecision)
        ensures
            r == shake_choice(
                old(self).spec_shakes(),
                old(self).spec_config().max_shake_count,
                old(self).spec_shake_region().region_first(frame, shake_palette()),
                since_ms,
                old(self).spec_config().shake_timeout_ms,
            ),
            final(self).spec_shakes() == if r is Click {
                cap_u32(old(self).spec_shakes() + 1)
            } else {
                old(self).spec_shakes() as int
            },
            final(self).spec_stats().spec_shakes() == if r is Click {
                sat_add(old(self).spec_stats().spec_shakes(), 1)
            } else {
                old(self).spec_stats().spec_shakes()
            },
            final(self).spec_config() == old(self).spec_config(),
            final(self).spec_mini_game() == old(self).spec_mini_game(),
            final(self).spec_shake_region() == old(self).spec_shake_region(),
            final(self).spec_last_mid() == old(self).spec_last_mid(),
    {
        if self.shakes_since_reel > self.config.max_shake_count {
            return ShakeDecision::Reel;
        }
        let colors = shake_colors();
        match self.shake_region.search_color(frame, colors.as_slice()) {
            Some(p) => {
                self.shakes_since_reel = self.shakes_since_reel.saturating_add(1);
                self.stats.add_shake();
                let x = if p.x <= u32::MAX - SHAKE_CLICK_OFFSET {
                    p.x + SHAKE_CLICK_OFFSET
                } else {
                    u32::MAX
                };
                ShakeDecision::Click(Point { x, y: p.y })
            },
            None => {
                if since_ms > self.config.shake_timeout_ms {
                    ShakeDecision::Reel
                } else {
                    ShakeDecision::Wait
                }
            },
        }
    }

    /// Plans a reel: random press and wait durations within their fixed ranges; the
    /// shake count starts again from zero.
    pub fn plan_reel(&mut self) -> (r: ReelPlan)
        ensures
            REEL_HOLD_MIN_MS <= r.hold_ms <= REEL_HOLD_MAX_MS,
            REEL_SETTLE_MIN_MS <= r.settle_ms <= REEL_SETTLE_MAX_MS,
            final(self).spec_shakes() == 0,
            final(self).spec_stats().spec_reels() == sat_add(old(self).spec_stats().spec_reels(), 1),
            final(self).spec_config() == old(self).spec_config(),
            final(self).spec_mini_game() == old(self).spec_mini_game(),
            final(self).spec_shake_region() == old(self).spec_shake_region(),
    {
        self.shakes_since_reel = 0;
        self.stats.add_reel();
        let hold_ms = random_between(REEL_HOLD_MIN_MS, REEL_HOLD_MAX_MS);
        let settle_ms = random_between(REEL_SETTLE_MIN_MS, REEL_SETTLE_MAX_MS);
        ReelPlan { hold_ms, settle_ms }
    }

    /// Whether a bite shows on `frame`.
    pub fn bite_seen(&self, frame: &Screen) -> (r: bool)
        ensures
            r == bite_visible(frame),
    {
        self.mini_game.any_fish_hooked(frame)
    }

    /// At the first bite: refines the playfield on `frame` and builds the rod from
    /// it; on a failed refinement nothing changes, to be retried on a later frame.
    /// Once a rod exists this does nothing.
    pub fn prepare_rod(&mut self, frame: &Screen) -> (r: Result<(), RefineError>)
        requires
            old(self).wf(),
        ensures
            final(self).wf(),
            final(self).spec_config() == old(self).spec_config(),
            final(self).spec_shakes() == old(self).spec_shakes(),
            old(self).spec_mini_game().spec_rod() is Some ==> r is Ok && final(self).spec_mini_game()
                == old(self).spec_mini_game(),
            old(self).spec_mini_game().spec_rod() is None ==> match crate::minigame::refine_outcome(
                old(self).spec_mini_game().spec_region(),
                frame,
            ) {
                Ok(region) => {
                    &&& r is Ok
                    &&& final(self).spec_mini_game().spec_region() == region
                    &&& final(self).spec_mini_game().spec_rod() matches Some(rod) && rod.built_from(
                        frame,
                        region,
                        old(self).spec_config().detection,
                    )
                    &&& final(self).spec_last_mid() is None
                },
                Err(e) => r == Err::<(), RefineError>(e) && final(self).spec_mini_game()
                    == old(self).spec_mini_game(),
            },
    {
        if self.mini_game.has_rod() {
            return Ok(());
        }
        match self.mini_game.refine_area(frame) {
            Ok(()) => {
                let region = self.mini_game.region();
                let rod = Rod::new(frame, &region, self.config.detection);
                self.mini_game.initialize_rod(rod);
                self.last_hook_mid = None;
                Ok(())
            },
            Err(e) => Err(e),
        }
    }

    /// One frame of a catch: reads the bar and the fish and decides the action.
    pub fn fishing_step(&mut self, frame: &Screen) -> (r: FishingAction)
        requires
            old(self).wf(),
            old(self).spec_mini_game().spec_rod() is Some,
        ensures
            final(self).wf(),
            final(self).spec_mini_game().spec_rod() is Some,
            final(self).spec_config() == old(self).spec_config(),
            final(self).spec_mini_game().spec_region() == old(self).spec_mini_game().spec_region(),
            ({
                let region = old(self).spec_mini_game().spec_region();
                let rod = old(self).spec_mini_game().spec_rod().unwrap().after_frame(frame, region);
                r == fishing_choice(
                    rod.spec_hook(),
                    MiniGame::fish_reported(rod, frame, region),
                    region,
                    old(self).spec_last_mid(),
                    old(self).spec_config().minimum_speed,
                    old(self).spec_config().hold_curve,
                )
            }),
    {
        let hook = self.mini_game.find_hook(frame);
        let fish = self.mini_game.get_fish(frame);
        let region = self.mini_game.region();
        let action = decide_fishing(
            &hook,
            fish,
            &region,
            self.last_hook_mid,
            self.config.minimum_speed,
            self.config.hold_curve,
        );
        self.last_hook_mid = match action {
            FishingAction::Steer(_, _) => match hook.position {
                Some(pos) => Some(pos.absolute_mid_x),
                None => None,
            },
            FishingAction::Finished => None,
            _ => self.last_hook_mid,
        };
        action
    }

    /// Closes a catch whose bite lasted `seconds`.
    pub fn finish_catch(&mut self, seconds: u64)
        ensures
            final(self).spec_last_mid() is None,
            final(self).spec_stats().spec_fishes() == sat_add(old(self).spec_stats().spec_fishes(), 1),
            final(self).spec_stats().spec_total() == sat_add(old(self).spec_stats().spec_total(), seconds as int),
            final(self).spec_stats().spec_max() == max_of(old(self).spec_stats().spec_max(), seconds as int),
            final(self).spec_stats().spec_min() == if seconds > 0 {
                min_of(old(self).spec_stats().spec_min(), seconds as int)
            } else {
                old(self).spec_stats().spec_min()
            },
            final(self).spec_config() == old(self).spec_config(),
            final(self).spec_mini_game() == old(self).spec_mini_game(),
            final(self).spec_shakes() == old(self).spec_shakes(),
    {
        self.stats.add_fishing_time(seconds);
        self.last_hook_mid = None;
    }
}

} // verus!
