use reel_bot::checks::{
    chat_open, count_matches, quest_arrow, scoreboard_open, server_offline, text_detection,
    treasure_maps_warning,
};
use reel_bot::clickers::{appraise_points, sell_points, Repeat};
use reel_bot::color::{ColorTarget, Rgb};
use reel_bot::geometry::{Dimensions, Point};
use reel_bot::journal::{any_named, marked_block, occurs};
use reel_bot::screen::Screen;

const DARK: Rgb = Rgb { r: 20, g: 20, b: 20 };
const WHITE: Rgb = Rgb { r: 255, g: 255, b: 255 };

fn stripes(mut s: Screen, x: u32, from: u32, to: u32) -> Screen {
    for y in from..to {
        if y % 2 == 0 {
            s = s.with_pixel(x, y, WHITE);
        }
    }
    s
}

#[test]
fn text_edges_count_brightness_jumps() {
    let s = Screen::filled(10, 10, DARK).with_pixel(5, 3, WHITE).with_pixel(5, 4, WHITE);
    assert_eq!(text_detection(&[5], 0, 10, &s), 2);
    assert_eq!(text_detection(&[5], 0, 4, &s), 1);
    assert_eq!(text_detection(&[5, 5], 0, 10, &s), 4);
    assert_eq!(text_detection(&[4], 0, 10, &s), 0);
}

#[test]
fn scoreboard_shows_as_text() {
    let s = stripes(Screen::filled(200, 200, DARK), 196, 20, 40);
    assert!(scoreboard_open(&s));
    assert!(!scoreboard_open(&Screen::filled(200, 200, DARK)));
}

#[test]
fn treasure_warning_gives_its_button() {
    let s = stripes(Screen::filled(200, 200, DARK), 188, 92, 112);
    assert_eq!(treasure_maps_warning(&s), Some(Point { x: 184, y: 116 }));
    assert_eq!(treasure_maps_warning(&Screen::filled(200, 200, DARK)), None);
}

#[test]
fn server_popup_covers_the_center() {
    let gray = Rgb { r: 0x39, g: 0x3b, b: 0x3d };
    assert!(server_offline(&Screen::filled(100, 100, gray)));
    assert!(!server_offline(&Screen::filled(100, 100, DARK)));
    assert!(!server_offline(&Screen::filled(5, 5, gray)));
}

#[test]
fn chat_button_when_chat_is_open() {
    let white = Rgb { r: 0xf7, g: 0xf7, b: 0xf8 };
    let anchor = Point { x: 10, y: 20 };
    assert_eq!(chat_open(&Screen::filled(1000, 1000, white), &anchor), Some(Point { x: 60, y: 15 }));
    assert_eq!(chat_open(&Screen::filled(1000, 1000, DARK), &anchor), None);
    assert_eq!(chat_open(&Screen::filled(1000, 1000, white), &Point { x: 10, y: 3 }), None);
}

#[test]
fn quest_arrow_is_the_rightmost_white() {
    let anchor = Point { x: 10, y: 20 };
    let s = Screen::filled(1000, 1000, DARK).with_pixel(200, 65, WHITE).with_pixel(300, 65, WHITE);
    assert_eq!(quest_arrow(&s, &anchor), Some(Point { x: 300, y: 65 }));
    let lower = Screen::filled(1000, 1000, DARK).with_pixel(250, 358, WHITE);
    assert_eq!(quest_arrow(&lower, &anchor), Some(Point { x: 250, y: 65 }));
    assert_eq!(quest_arrow(&Screen::filled(1000, 1000, DARK), &anchor), None);
}

#[test]
fn matches_are_counted_in_a_rectangle() {
    let s = Screen::filled(10, 10, DARK).with_pixel(2, 2, WHITE).with_pixel(3, 4, WHITE).with_pixel(8, 8, WHITE);
    let t = [ColorTarget { color: WHITE, variation: 0 }];
    assert_eq!(count_matches(&s, &t, 0, 5, 0, 5), 2);
    assert_eq!(count_matches(&s, &t, 0, 10, 0, 10), 3);
    assert_eq!(count_matches(&s, &t, 5, 0, 0, 10), 0);
}

#[test]
fn repeat_counts_rounds_down() {
    let mut r = Repeat::new(2);
    assert_eq!(r.remaining(), Some(2));
    assert!(r.next_round());
    assert!(r.next_round());
    assert!(!r.next_round());
    assert_eq!(r.remaining(), Some(0));
    let mut endless = Repeat::new(u16::MAX);
    for _ in 0..1000 {
        assert!(endless.next_round());
    }
    assert_eq!(endless.remaining(), None);
}

#[test]
fn dialog_points_scale_with_the_screen() {
    let d = Dimensions { width: 1920, height: 1080 };
    assert_eq!(sell_points(&d), (Point { x: 691, y: 723 }, Point { x: 1209, y: 572 }));
    assert_eq!(appraise_points(&d), (Point { x: 691, y: 723 }, Point { x: 1209, y: 550 }));
}

fn lines(text: &str) -> Vec<Vec<u8>> {
    text.lines().map(|l| l.as_bytes().to_vec()).collect()
}

#[test]
fn marked_block_lies_between_the_last_markers() {
    let journal = lines("old\nM-1\nstale\nM-1\nkept one\nkept two\nM-1\nafter");
    assert_eq!(marked_block(&journal, b"M-1"), (4, 6));
    let one = lines("a\nb\nxx M-1 yy\nc");
    assert_eq!(marked_block(&one, b"M-1"), (0, 2));
    assert_eq!(marked_block(&lines("a\nb"), b"M-1"), (0, 0));
    assert_eq!(marked_block(&lines("M-1\nM-1"), b"M-1"), (1, 1));
    assert_eq!(marked_block(&vec![], b"M-1"), (0, 0));
}

#[test]
fn substring_search() {
    assert!(occurs(b"abcabd", b"abd"));
    assert!(!occurs(b"abcab", b"abd"));
    assert!(occurs(b"abc", b""));
    assert!(!occurs(b"ab", b"abc"));
    assert!(occurs(b"abc", b"abc"));
}

#[test]
fn process_names() {
    let names = vec![b"init".to_vec(), b"sober".to_vec()];
    assert!(any_named(&names, b"sober"));
    assert!(!any_named(&names, b"sobe"));
    assert!(!any_named(&vec![], b"sober"));
}
