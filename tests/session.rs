use reel_bot::color::Rgb;
use reel_bot::control::{eased_hold, hold_formula, HoldCurve, Move};
use reel_bot::geometry::{Dimensions, Point, Region};
use reel_bot::hook::{Hook, HookDetection, HookPosition};
use reel_bot::minigame::RefineError;
use reel_bot::screen::Screen;
use reel_bot::session::{
    decide_fishing, Config, FishingAction, FishingMacro, ShakeDecision, REEL_HOLD_MAX_MS,
    REEL_HOLD_MIN_MS, REEL_SETTLE_MAX_MS, REEL_SETTLE_MIN_MS,
};
use reel_bot::stats::Stats;

const DARK: Rgb = Rgb { r: 20, g: 20, b: 20 };
const WHITE: Rgb = Rgb { r: 255, g: 255, b: 255 };
const ARROW: Rgb = Rgb { r: 0x5f, g: 0x3b, b: 0x34 };
const FISH: Rgb = Rgb { r: 0x43, g: 0x4b, b: 0x5b };

fn config(max_shake_count: u32) -> Config {
    Config {
        max_shake_count,
        shake_timeout_ms: 7000,
        minimum_speed: 2,
        detection: HookDetection::Brightness,
        hold_curve: HoldCurve::Table,
    }
}

fn session(max_shake_count: u32) -> FishingMacro {
    FishingMacro::new(config(max_shake_count), &Dimensions { width: 1000, height: 1000 }, None, Stats::new(true))
}

#[test]
fn shakes_are_clicked_right_of_the_marker() {
    let mut m = session(3);
    let frame = Screen::filled(1000, 1000, DARK).with_pixel(100, 300, WHITE);
    assert_eq!(m.idle_step(&frame, 0), ShakeDecision::Click(Point { x: 125, y: 300 }));
    assert_eq!(m.shakes_since_reel(), 1);
}

#[test]
fn shake_overflow_forces_a_reel() {
    let mut m = session(1);
    let frame = Screen::filled(1000, 1000, DARK).with_pixel(100, 300, WHITE);
    assert_eq!(m.idle_step(&frame, 0), ShakeDecision::Click(Point { x: 125, y: 300 }));
    assert_eq!(m.idle_step(&frame, 0), ShakeDecision::Click(Point { x: 125, y: 300 }));
    assert_eq!(m.idle_step(&frame, 0), ShakeDecision::Reel);
    assert_eq!(m.idle_step(&frame, 0), ShakeDecision::Reel);
    let plan = m.plan_reel();
    assert_eq!(m.shakes_since_reel(), 0);
    assert!((REEL_HOLD_MIN_MS..=REEL_HOLD_MAX_MS).contains(&plan.hold_ms));
    assert!((REEL_SETTLE_MIN_MS..=REEL_SETTLE_MAX_MS).contains(&plan.settle_ms));
    assert_eq!(m.idle_step(&frame, 0), ShakeDecision::Click(Point { x: 125, y: 300 }));
    assert_eq!(m.stats.summary().shakes, 3);
    assert_eq!(m.stats.summary().reels, 1);
}

#[test]
fn no_shake_waits_until_the_timeout() {
    let mut m = session(3);
    let blank = Screen::filled(1000, 1000, DARK);
    assert_eq!(m.idle_step(&blank, 100), ShakeDecision::Wait);
    assert_eq!(m.idle_step(&blank, 7000), ShakeDecision::Wait);
    assert_eq!(m.idle_step(&blank, 7001), ShakeDecision::Reel);
}

#[test]
fn reel_durations_stay_in_range() {
    let mut m = session(3);
    let mut holds = Vec::new();
    for _ in 0..50 {
        let plan = m.plan_reel();
        assert!((600..=1200).contains(&plan.hold_ms));
        assert!((1000..=1200).contains(&plan.settle_ms));
        holds.push(plan.hold_ms);
    }
    assert!(holds.iter().any(|&h| h != holds[0]));
}

fn hook() -> Hook {
    Hook {
        position: Some(HookPosition { absolute_beg_x: 100, absolute_mid_x: 120, absolute_end_x: 140 }),
        length: 40,
        fish_on: true,
        last_fish_position: None,
    }
}

#[test]
fn fishing_actions_near_the_edges() {
    let area = Region { point1: Point { x: 0, y: 0 }, point2: Point { x: 799, y: 10 } };
    assert_eq!(decide_fishing(&hook(), Some(Point { x: 10, y: 5 }), &area, None, 2, HoldCurve::Table), FishingAction::Release);
    assert_eq!(decide_fishing(&hook(), Some(Point { x: 790, y: 5 }), &area, None, 2, HoldCurve::Table), FishingAction::Press);
    assert_eq!(decide_fishing(&hook(), None, &area, None, 2, HoldCurve::Table), FishingAction::Finished);
    let lost = Hook { position: None, ..hook() };
    assert_eq!(decide_fishing(&lost, Some(Point { x: 300, y: 5 }), &area, None, 2, HoldCurve::Table), FishingAction::Release);
}

#[test]
fn fishing_actions_steer_with_the_calibrated_hold() {
    let area = Region { point1: Point { x: 0, y: 0 }, point2: Point { x: 799, y: 10 } };
    assert_eq!(
        decide_fishing(&hook(), Some(Point { x: 200, y: 5 }), &area, Some(120), 2, HoldCurve::Table),
        FishingAction::Steer(Move::Right, 511)
    );
    assert_eq!(hold_formula(80, 799), 511);
    assert_eq!(
        decide_fishing(&hook(), Some(Point { x: 118, y: 5 }), &area, Some(112), 2, HoldCurve::Table),
        FishingAction::Steer(Move::Left, hold_formula(-2, 799) as u32)
    );
    assert_eq!(
        decide_fishing(&hook(), Some(Point { x: 120, y: 5 }), &area, Some(120), 2, HoldCurve::Table),
        FishingAction::Steer(Move::Spam, 132)
    );
}

fn playfield_frame(with_fish: bool) -> Screen {
    let mut s = Screen::filled(1000, 1000, DARK).with_pixel(300, 850, ARROW).with_pixel(700, 851, ARROW);
    for x in 400..440 {
        s = s.with_pixel(x, 855, WHITE);
    }
    if with_fish {
        s = s.with_pixel(600, 855, FISH);
    }
    s
}

#[test]
fn first_bite_refines_and_builds_the_rod() {
    let mut m = session(3);
    assert_eq!(m.prepare_rod(&Screen::filled(1000, 1000, DARK)), Err(RefineError::ArrowsNotFound));
    assert!(!m.mini_game().has_rod());
    assert_eq!(m.prepare_rod(&playfield_frame(true)), Ok(()));
    assert!(m.mini_game().has_rod());
    assert_eq!(
        m.mini_game().region(),
        Region { point1: Point { x: 320, y: 840 }, point2: Point { x: 680, y: 871 } }
    );
    assert_eq!(m.prepare_rod(&Screen::filled(1000, 1000, DARK)), Ok(()));
}

#[test]
fn a_catch_steers_then_finishes() {
    let mut m = session(3);
    assert_eq!(m.prepare_rod(&playfield_frame(true)), Ok(()));
    let action = m.fishing_step(&playfield_frame(true));
    assert_eq!(action, FishingAction::Steer(Move::Right, hold_formula(600 - 419, 360) as u32));
    assert_eq!(m.fishing_step(&playfield_frame(false)), FishingAction::Finished);
    m.finish_catch(4);
    let summary = m.stats.summary();
    assert_eq!(summary.fishes, 1);
    assert_eq!(summary.times.unwrap().maximum, 4);
}

#[test]
fn safe_point_lies_outside_the_tracked_regions() {
    let m = session(3);
    let p = m.safe_point();
    let game = m.mini_game().region();
    assert!(p.x < game.point1.x || p.y > game.point2.y);
    assert_eq!(m.shake_region(), Region { point1: Point { x: 5, y: 230 }, point2: Point { x: 840, y: 650 } });
}

#[test]
fn eased_curve_steers_with_braking() {
    let area = Region { point1: Point { x: 0, y: 0 }, point2: Point { x: 799, y: 10 } };
    assert_eq!(
        decide_fishing(&hook(), Some(Point { x: 200, y: 5 }), &area, Some(110), 2, HoldCurve::Eased),
        FishingAction::Steer(Move::Right, eased_hold(80, 10, 799) as u32)
    );
}
