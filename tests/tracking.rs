use reel_bot::color::{ColorTarget, Rgb};
use reel_bot::geometry::{Point, Region};
use reel_bot::hook::{search_hook, FishPosition, HookDetection, HookPosition, Rod};
use reel_bot::minigame::{MiniGame, RefineError};
use reel_bot::scanline::{longest_bright_segment, percentile_threshold};
use reel_bot::screen::Screen;

const DARK: Rgb = Rgb { r: 20, g: 20, b: 20 };
const BRIGHT: Rgb = Rgb { r: 250, g: 250, b: 250 };
const FISH: Rgb = Rgb { r: 0x43, g: 0x4b, b: 0x5b };
const ARROW: Rgb = Rgb { r: 0x5f, g: 0x3b, b: 0x34 };

fn region(x1: u32, y1: u32, x2: u32, y2: u32) -> Region {
    Region { point1: Point { x: x1, y: y1 }, point2: Point { x: x2, y: y2 } }
}

fn paint_row(mut s: Screen, y: u32, from: u32, len: u32, color: Rgb) -> Screen {
    for x in from..from + len {
        s = s.with_pixel(x, y, color);
    }
    s
}

fn levels(bright_runs: &[(usize, usize)], n: usize) -> Vec<u8> {
    let mut v = vec![10u8; n];
    for &(a, len) in bright_runs {
        for x in a..a + len {
            v[x] = 240;
        }
    }
    v
}

#[test]
fn single_run_is_the_hook_wherever_it_lies() {
    for p in [0u32, 37, 120, 180] {
        let s = paint_row(Screen::filled(200, 3, DARK), 1, p, 20, BRIGHT);
        let found = search_hook(&s, &region(0, 0, 199, 2), HookDetection::Brightness);
        assert_eq!(
            found,
            Some((20, HookPosition { absolute_beg_x: p, absolute_mid_x: p + 9, absolute_end_x: p + 19 }))
        );
    }
}

#[test]
fn hook_positions_are_screen_columns() {
    let s = paint_row(Screen::filled(300, 5, DARK), 2, 150, 30, BRIGHT);
    let found = search_hook(&s, &region(100, 0, 299, 4), HookDetection::Brightness).unwrap();
    assert_eq!(found.0, 30);
    assert_eq!(found.1.absolute_beg_x, 150);
    assert_eq!(found.1.absolute_end_x, 179);
}

#[test]
fn percentile_threshold_is_the_rank_value() {
    assert_eq!(percentile_threshold(&levels(&[(10, 5)], 100)), 240);
    assert_eq!(percentile_threshold(&levels(&[(10, 2)], 100)), 10);
    assert_eq!(percentile_threshold(&vec![7u8]), 7);
    assert_eq!(percentile_threshold(&vec![]), 255);
}

#[test]
fn runs_across_a_narrow_gap_merge() {
    let v = levels(&[(10, 20), (65, 10)], 200);
    assert_eq!(longest_bright_segment(&v, 240, 35), Some((10, 74)));
    let v = levels(&[(10, 20), (30, 1)], 200);
    assert_eq!(longest_bright_segment(&v, 240, 0), Some((10, 30)));
}

#[test]
fn runs_across_a_wide_gap_stay_apart() {
    let v = levels(&[(10, 20), (66, 10)], 200);
    assert_eq!(longest_bright_segment(&v, 240, 35), Some((10, 29)));
    let v = levels(&[(10, 10), (100, 25)], 200);
    assert_eq!(longest_bright_segment(&v, 240, 35), Some((100, 124)));
    let v = levels(&[(10, 10), (100, 10)], 200);
    assert_eq!(longest_bright_segment(&v, 240, 35), Some((100, 109)));
    assert_eq!(longest_bright_segment(&levels(&[], 50), 240, 35), None);
}

#[test]
fn color_strategy_spans_the_bar_colors() {
    let bar = Rgb { r: 0x84, g: 0x85, b: 0x87 };
    let s = paint_row(Screen::filled(100, 3, DARK), 1, 40, 15, bar);
    let s = s.with_pixel(60, 1, Rgb { r: 255, g: 255, b: 255 });
    let found = search_hook(&s, &region(0, 0, 99, 2), HookDetection::ColorMatch);
    assert_eq!(found, Some((21, HookPosition { absolute_beg_x: 40, absolute_mid_x: 50, absolute_end_x: 60 })));
    assert_eq!(search_hook(&Screen::filled(100, 3, DARK), &region(0, 0, 99, 2), HookDetection::ColorMatch), None);
}

#[test]
fn rod_defaults_to_a_share_of_the_playfield() {
    let rod = Rod::new(&Screen::filled(200, 3, DARK), &region(0, 0, 199, 2), HookDetection::ColorMatch);
    assert_eq!(rod.hook().length, 59);
    assert_eq!(rod.hook().position, None);
    assert!(!rod.length_is_exact());
}

#[test]
fn rod_keeps_a_measured_length() {
    let area = region(0, 0, 199, 2);
    let first = paint_row(Screen::filled(200, 3, DARK), 1, 20, 20, BRIGHT);
    let mut rod = Rod::new(&first, &area, HookDetection::Brightness);
    assert!(rod.length_is_exact());
    assert_eq!(rod.hook().length, 20);
    let second = paint_row(Screen::filled(200, 3, DARK), 1, 100, 40, BRIGHT);
    let hook = rod.find_hook(&second, &area);
    assert!(hook.fish_on);
    assert_eq!(hook.length, 20);
    assert_eq!(hook.position.unwrap().absolute_beg_x, 100);
    let hook = rod.find_hook(&Screen::filled(200, 3, DARK), &area);
    assert!(hook.fish_on);
    assert_eq!(hook.length, 20);
}

#[test]
fn rod_measures_once_the_bar_shows() {
    let area = region(0, 0, 199, 2);
    let mut rod = Rod::new(&Screen::filled(200, 3, DARK), &area, HookDetection::ColorMatch);
    assert_eq!(rod.hook().length, 59);
    let bar = Rgb { r: 0x78, g: 0x77, b: 0x73 };
    let frame = paint_row(Screen::filled(200, 3, DARK), 1, 30, 12, bar);
    let hook = rod.find_hook(&frame, &area);
    assert!(hook.fish_on);
    assert_eq!(hook.length, 12);
    assert!(rod.length_is_exact());
}

#[test]
fn rod_remembers_the_last_fish() {
    let area = region(0, 0, 99, 2);
    let bar = Rgb { r: 0x84, g: 0x85, b: 0x87 };
    let frame = paint_row(Screen::filled(100, 3, DARK), 1, 10, 10, bar).with_pixel(50, 1, FISH);
    let mut rod = Rod::new(&frame, &area, HookDetection::ColorMatch);
    assert_eq!(rod.get_fish(&frame, &area), None);
    rod.find_hook(&frame, &area);
    assert_eq!(rod.get_fish(&frame, &area), Some(FishPosition::Exact(Point { x: 50, y: 1 })));
    let slashed = paint_row(Screen::filled(100, 3, DARK), 1, 10, 10, bar);
    assert_eq!(rod.get_fish(&slashed, &area), Some(FishPosition::Approximative(Point { x: 50, y: 1 })));
    let hook = rod.find_hook(&Screen::filled(100, 3, DARK), &area);
    assert!(!hook.fish_on);
    assert_eq!(hook.position, None);
    assert_eq!(hook.length, 10);
    assert_eq!(rod.get_fish(&slashed, &area), None);
    assert_eq!(rod.hook().last_fish_position, Some(Point { x: 50, y: 1 }));
}

fn cursor_screen() -> Screen {
    let mut s = Screen::filled(100, 400, DARK);
    for y in 290..310 {
        s = s.with_pixel(56, y, Rgb { r: 225, g: 225, b: 225 });
    }
    s
}

#[test]
fn bite_shows_as_a_cursor_strip() {
    let game = MiniGame::new(region(10, 80, 90, 90));
    assert!(game.any_fish_hooked(&cursor_screen()));
    assert!(!game.any_fish_hooked(&Screen::filled(100, 400, DARK)));
    let broken = cursor_screen().with_pixel(56, 300, Rgb { r: 232, g: 225, b: 225 });
    assert!(!game.any_fish_hooked(&broken));
    let short = Screen::filled(100, 400, DARK).with_pixel(55, 295, Rgb { r: 100, g: 100, b: 100 });
    assert!(!game.any_fish_hooked(&short));
}

#[test]
fn refinement_moves_inside_the_arrows() {
    let mut game = MiniGame::new(region(0, 0, 99, 39));
    let s = Screen::filled(100, 40, DARK).with_pixel(5, 20, ARROW).with_pixel(95, 21, ARROW);
    assert_eq!(game.refine_area(&s), Ok(()));
    assert_eq!(game.region(), region(25, 10, 75, 41));
}

#[test]
fn refinement_without_arrows_changes_nothing() {
    let mut game = MiniGame::new(region(0, 0, 99, 39));
    let s = Screen::filled(100, 40, DARK).with_pixel(5, 20, ARROW);
    assert_eq!(game.refine_area(&s), Err(RefineError::ArrowsNotFound));
    assert_eq!(game.region(), region(0, 0, 99, 39));
    let near = Screen::filled(100, 40, DARK).with_pixel(5, 5, ARROW).with_pixel(95, 21, ARROW);
    assert_eq!(game.refine_area(&near), Err(RefineError::InvalidArea));
    let crossed = Screen::filled(100, 40, DARK).with_pixel(49, 20, ARROW).with_pixel(50, 21, ARROW);
    assert_eq!(game.refine_area(&crossed), Err(RefineError::InvalidArea));
    assert_eq!(game.region(), region(0, 0, 99, 39));
}

#[test]
fn minigame_reports_fish_through_its_rod() {
    let area = region(0, 0, 99, 2);
    let bar = Rgb { r: 0x84, g: 0x85, b: 0x87 };
    let frame = paint_row(Screen::filled(100, 3, DARK), 1, 10, 10, bar).with_pixel(70, 1, FISH);
    let mut game = MiniGame::new(area);
    game.initialize_rod(Rod::new(&frame, &area, HookDetection::ColorMatch));
    let hook = game.find_hook(&frame);
    assert!(hook.fish_on);
    assert_eq!(hook.length, 10);
    assert_eq!(game.get_fish(&frame), Some(Point { x: 70, y: 1 }));
    let slashed = paint_row(Screen::filled(100, 3, DARK), 1, 10, 10, bar);
    assert_eq!(game.get_fish(&slashed), None);
    let _ = ColorTarget::brightness(&FISH);
}
