use reel_bot::color::{ColorTarget, Rgb};
use reel_bot::control::{eased_hold, hold_formula, Move};
use reel_bot::frame::{to_screen, ConversionError, PixelLayout};
use reel_bot::geometry::{Dimensions, Point, Region};
use reel_bot::screen::Screen;
use reel_bot::stats::Stats;
use reel_bot::{get_roblox_executable_name, Platform};

fn rgb(r: u8, g: u8, b: u8) -> Rgb {
    Rgb { r, g, b }
}

fn region(x1: u32, y1: u32, x2: u32, y2: u32) -> Region {
    Region { point1: Point { x: x1, y: y1 }, point2: Point { x: x2, y: y2 } }
}

#[test]
fn matches_within_tolerance_on_every_channel() {
    let t = ColorTarget { color: rgb(100, 100, 100), variation: 4 };
    assert!(t.matches(rgb(100, 100, 100)));
    assert!(t.matches(rgb(104, 96, 104)));
    assert!(!t.matches(rgb(105, 100, 100)));
    assert!(!t.matches(rgb(100, 95, 100)));
    assert!(!t.matches(rgb(100, 100, 105)));
}

#[test]
fn matches_at_channel_extremes() {
    let t = ColorTarget { color: rgb(0xff, 0xff, 0xff), variation: 15 };
    assert!(t.matches(rgb(240, 240, 240)));
    assert!(!t.matches(rgb(239, 255, 255)));
    let z = ColorTarget { color: rgb(0, 0, 0), variation: 0 };
    assert!(z.matches(rgb(0, 0, 0)));
    assert!(!z.matches(rgb(0, 0, 1)));
}

#[test]
fn brightness_is_luma_weighted() {
    assert_eq!(ColorTarget::brightness(&rgb(100, 150, 200)), 140);
    assert_eq!(ColorTarget::brightness(&rgb(255, 255, 255)), 255);
    assert_eq!(ColorTarget::brightness(&rgb(0, 0, 0)), 0);
    assert_eq!(ColorTarget::brightness(&rgb(255, 0, 0)), 76);
}

#[test]
fn halves_cover_even_and_odd_widths() {
    for (x1, x2) in [(10u32, 20u32), (10, 21), (5, 5), (0, 1)] {
        let r = region(x1, 3, x2, 9);
        let l = r.left_half();
        let h = r.right_half();
        assert_eq!(l.point1, r.point1);
        assert_eq!(h.point2, r.point2);
        assert_eq!((l.point1.y, l.point2.y), (3, 9));
        assert_eq!((h.point1.y, h.point2.y), (3, 9));
        assert!(h.point1.x <= l.point2.x + 1);
        assert!(l.point2.x <= h.point1.x);
    }
    let r = region(10, 0, 21, 4);
    assert_eq!(r.left_half().point2.x, 15);
    assert_eq!(r.right_half().point1.x, 16);
}

#[test]
fn mid_row_scan_ignores_other_rows() {
    let target = [ColorTarget { color: rgb(200, 10, 10), variation: 2 }];
    let r = region(2, 2, 12, 6);
    let off = Screen::filled(20, 10, rgb(0, 0, 0)).with_pixel(5, 3, rgb(200, 10, 10));
    assert_eq!(r.search_color_mid_ltr(&off, &target), None);
    let on = off.with_pixel(7, 4, rgb(201, 11, 9)).with_pixel(9, 4, rgb(200, 10, 10));
    assert_eq!(r.search_color_mid_ltr(&on, &target), Some(Point { x: 7, y: 4 }));
}

#[test]
fn half_scans_find_nearest_to_center_on_the_right() {
    let target = [ColorTarget { color: rgb(0x5f, 0x3b, 0x34), variation: 4 }];
    let r = region(0, 0, 19, 9);
    let s = Screen::filled(20, 10, rgb(0, 0, 0))
        .with_pixel(2, 5, rgb(0x5f, 0x3b, 0x34))
        .with_pixel(4, 1, rgb(0x5f, 0x3b, 0x34))
        .with_pixel(17, 8, rgb(0x5f, 0x3b, 0x34))
        .with_pixel(12, 6, rgb(0x5f, 0x3b, 0x34));
    assert_eq!(r.search_color_left_half(&s, &target), Some(Point { x: 2, y: 5 }));
    assert_eq!(r.search_color_right_half(&s, &target), Some(Point { x: 17, y: 8 }));
    let blank = Screen::filled(20, 10, rgb(0, 0, 0));
    assert_eq!(r.search_color_left_half(&blank, &target), None);
}

#[test]
fn shift_stays_in_range() {
    let p = Point { x: 10, y: 5 };
    assert_eq!(p.shift(20, -10), None);
    assert_eq!(p.shift(20, -5), Some(Point { x: 30, y: 0 }));
    assert_eq!(Point { x: u32::MAX, y: 0 }.shift(1, 0), None);
}

#[test]
fn size_and_corners() {
    let r = region(10, 20, 110, 70);
    let d = r.get_size();
    assert_eq!((d.width, d.height), (100, 50));
    assert_eq!(r.corners(), [10, 20, 110, 70]);
}

#[test]
fn hold_formula_interpolates_the_table() {
    assert_eq!(hold_formula(0, 800), 16);
    assert_eq!(hold_formula(1, 800), 132);
    assert_eq!(hold_formula(3, 800), 174);
    assert_eq!(hold_formula(-3, 800), 174);
    assert_eq!(hold_formula(2, 1600), 132);
    assert_eq!(hold_formula(29, 800), 365);
    assert_eq!(hold_formula(724, 800), 1531);
    assert_eq!(hold_formula(100_000, 800), 1531);
    assert_eq!(hold_formula(i32::MIN, 800), 1531);
}

#[test]
fn hold_formula_grows_with_the_gap() {
    for width in [400u32, 800, 1920] {
        let mut previous = hold_formula(0, width);
        for gap in 1..2000 {
            let h = hold_formula(gap, width);
            assert!(h >= previous);
            assert_eq!(hold_formula(-gap, width), h);
            assert!((16..=1531).contains(&h));
            previous = h;
        }
    }
}

#[test]
fn decision_scenarios() {
    assert_eq!(Move::decision(100, 0, 0, 5), Move::Spam);
    assert_eq!(Move::decision(100, 51, 0, 5), Move::Right);
    assert_eq!(Move::decision(100, -51, 0, 5), Move::Left);
    assert_eq!(Move::decision(100, 45, 0, 5), Move::Right);
    assert_eq!(Move::decision(100, -10, 10, 5), Move::Left);
    assert_eq!(Move::decision(100, 10, -10, 5), Move::Right);
    assert_eq!(Move::decision(100, -45, 0, 5), Move::Left);
    assert_eq!(Move::decision(100, 10, 3, 5), Move::Spam);
}

#[test]
fn decision_extremes_for_any_length() {
    assert_eq!(Move::decision(100, 51, 0, -20), Move::Right);
    assert_eq!(Move::decision(100, -51, 0, -20), Move::Left);
    assert_eq!(Move::decision(100, 0, 0, -5), Move::Right);
    for length in [0i32, 1, 7, 100, 333] {
        assert_eq!(Move::decision(length, length / 2 + 1, 40, 3), Move::Right);
        assert_eq!(Move::decision(length, -(length / 2) - 1, -40, 3), Move::Left);
        assert_eq!(Move::decision(length, 0, 0, 0), Move::Spam);
    }
}

#[test]
fn bite_duration_statistics() {
    let mut stats = Stats::new(true);
    for t in [3u64, 7, 5] {
        stats.add_fishing_time(t);
    }
    stats.add_reel();
    stats.add_reel();
    stats.add_reel();
    stats.add_reel();
    stats.add_shake();
    let s = stats.summary();
    let times = s.times.unwrap();
    assert_eq!((times.minimum, times.maximum, times.average), (3, 7, 5));
    assert_eq!((s.fishes, s.reels, s.missed_reels, s.shakes), (3, 4, 1, 1));
    assert_eq!(stats.report(), Some(s));
}

#[test]
fn statistics_without_timed_bites() {
    let mut stats = Stats::new(false);
    assert!(stats.report().is_none());
    stats.add_fishing_time(0);
    let s = stats.summary();
    assert_eq!(s.times, None);
    assert_eq!(s.fishes, 1);
    assert_eq!(s.missed_reels, 0);
}

#[test]
fn frames_become_canonical_rgb() {
    let bgrx = vec![1u8, 2, 3, 0, 4, 5, 6, 0];
    let s = to_screen(PixelLayout::Bgrx, 2, 1, &bgrx).unwrap();
    assert_eq!((s.width(), s.height()), (2, 1));
    assert_eq!(s.pixel_at(0, 0), Some(rgb(3, 2, 1)));
    assert_eq!(s.pixel_at(1, 0), Some(rgb(6, 5, 4)));
    let xbgr = vec![0u8, 1, 2, 3];
    assert_eq!(to_screen(PixelLayout::Xbgr, 1, 1, &xbgr).unwrap().pixel_at(0, 0), Some(rgb(3, 2, 1)));
    let rgbx = vec![9u8, 8, 7, 0];
    assert_eq!(to_screen(PixelLayout::Rgbx, 1, 1, &rgbx).unwrap().pixel_at(0, 0), Some(rgb(9, 8, 7)));
    let packed = vec![1u8, 2, 3, 4, 5, 6, 7, 8, 9, 10, 11, 12];
    let s = to_screen(PixelLayout::Rgb, 2, 2, &packed).unwrap();
    assert_eq!(s.pixel_at(1, 1), Some(rgb(10, 11, 12)));
    assert_eq!(s.pixel_at(0, 1), Some(rgb(7, 8, 9)));
    assert_eq!(s.pixel_at(2, 1), None);
}

#[test]
fn malformed_frames_are_refused() {
    assert_eq!(to_screen(PixelLayout::Bgra, 2, 2, &vec![0u8; 15]).err(), Some(ConversionError::DimensionMismatch));
    assert_eq!(to_screen(PixelLayout::Rgb, -1, 2, &vec![0u8; 15]).err(), Some(ConversionError::DimensionMismatch));
    assert_eq!(to_screen(PixelLayout::Yuv, 1, 1, &vec![0u8; 16]).err(), Some(ConversionError::UnsupportedLayout));
    assert!(to_screen(PixelLayout::Bgr0, 2, 2, &vec![0u8; 16]).is_ok());
    assert_eq!(to_screen(PixelLayout::Bgr0, 2, 2, &vec![0u8; 17]).err(), Some(ConversionError::DimensionMismatch));
    assert_eq!(to_screen(PixelLayout::Rgb, 1, 1, &vec![0u8; 4]).err(), Some(ConversionError::DimensionMismatch));
    assert!(to_screen(PixelLayout::Rgb, 0, 0, &vec![]).is_ok());
}

#[test]
fn screen_regions_scale_with_dimensions() {
    let d = Dimensions { width: 1920, height: 1080 };
    let game = d.calculate_mini_game_region();
    assert_eq!(game.region(), region(537, 853, 1382, 972));
    assert!(!game.has_rod());
    assert_eq!(d.calculate_shake_region(None), region(9, 248, 1612, 702));
    assert_eq!(d.calculate_shake_region(Some(Point { x: 38, y: 40 })), region(9, 175, 1612, 688));
}

#[test]
fn safe_point_prefers_the_smallest_sum() {
    let d = Dimensions { width: 1000, height: 1000 };
    let a = region(500, 100, 600, 200);
    let b = region(50, 850, 60, 950);
    assert_eq!(d.calculate_safe_point(&vec![&a, &b]), Some(Point { x: 480, y: 220 }));
    assert_eq!(d.calculate_safe_point(&vec![&b]), Some(Point { x: 100, y: 900 }));
    assert_eq!(d.calculate_safe_point(&vec![]), Some(Point { x: 100, y: 900 }));
}

#[test]
fn safe_point_avoids_every_region() {
    let d = Dimensions { width: 1000, height: 1000 };
    let a = region(100, 100, 200, 150);
    let b = region(50, 160, 500, 180);
    assert_eq!(d.calculate_safe_point(&vec![&a, &b]), Some(Point { x: 100, y: 200 }));
    let left = region(0, 0, 500, 999);
    assert_eq!(d.calculate_safe_point(&vec![&left]), Some(Point { x: 501, y: 900 }));
    let all = region(0, 0, 999, 950);
    assert_eq!(d.calculate_safe_point(&vec![&all]), None);
}

#[test]
fn menu_button_is_the_lowest_match_of_the_upper_half() {
    let d = Dimensions { width: 100, height: 100 };
    let s = Screen::filled(100, 100, rgb(0, 0, 0))
        .with_pixel(2, 10, rgb(0xf7, 0xf7, 0xf8))
        .with_pixel(2, 30, rgb(0xf6, 0xf8, 0xf9))
        .with_pixel(2, 60, rgb(0xf7, 0xf7, 0xf8));
    assert_eq!(d.find_roblox_button(&s), Some(Point { x: 2, y: 30 }));
    assert_eq!(d.find_roblox_button(&Screen::filled(100, 100, rgb(0, 0, 0))), None);
}

#[test]
fn executable_names() {
    assert_eq!(get_roblox_executable_name(Platform::Linux), "sober");
    assert_eq!(get_roblox_executable_name(Platform::Windows), "RobloxPlayerBeta.exe");
}

#[test]
fn eased_hold_values() {
    assert_eq!(eased_hold(0, 0, 800), 20);
    assert_eq!(eased_hold(800, 0, 800), 1500);
    assert_eq!(eased_hold(-5000, 0, 800), 1500);
    assert_eq!(eased_hold(400, 0, 800), 205);
    assert_eq!(eased_hold(400, 10, 800), 68);
    assert_eq!(eased_hold(400, -10, 800), 205);
    assert_eq!(eased_hold(-400, -10, 800), 68);
    assert_eq!(eased_hold(10, 0, 0), 1500);
}

#[test]
fn eased_hold_is_monotone() {
    for speed in [-12i32, 0, 7] {
        let mut previous = eased_hold(0, speed, 640);
        for gap in 1..700 {
            let h = eased_hold(gap, speed, 640);
            assert!(h >= previous);
            previous = h;
        }
    }
    let mut previous = eased_hold(300, 0, 640);
    for speed in 1..60 {
        let h = eased_hold(300, speed, 640);
        assert!(h <= previous);
        previous = h;
    }
}
