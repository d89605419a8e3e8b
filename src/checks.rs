//! Detection of the game's overlays that get in the way of the minigame: the
//! scoreboard, the chat, the quest panel, the treasure-map warning and the
//! server-shutdown popup. Each tells where to click, or whether to stop; the caller
//! clicks.
use vstd::prelude::*;

use crate::color::{target, ColorTarget, Rgb};
use crate::geometry::{hit, hit_at, Point};
use crate::hook::level_at;
use crate::screen::Screen;

verus! {

/// Brightness jump between neighbouring rows that counts as a text edge.
pub const EDGE_JUMP: u8 = 100;

/// Text edges from which a text column is considered shown.
pub const TEXT_EDGES: u64 = 10;

/// Number of rows `y` with `y_min <= y` and `y + 1 < y_end` whose brightness jumps
/// by more than `EDGE_JUMP` to row `y + 1`, in column `x`.
pub open spec fn column_edges(img: &Screen, x: int, y_min: int, y_end: int) -> nat
    decreases y_end - y_min,
{
    if y_end <= y_min + 1 {
        0
    } else {
        column_edges(img, x, y_min, y_end - 1) + if jump(img, x, y_end - 2) {
            1nat
        } else {
            0nat
        }
    }
}

pub open spec fn jump(img: &Screen, x: int, y: int) -> bool {
    let a = level_at(img, x, y);
    let b = level_at(img, x, y + 1);
    (if a >= b {
        a - b
    } else {
        b - a
    }) > EDGE_JUMP
}

/// Text edges summed over the columns `xs`, between rows `y_min` and `y_end`.
pub open spec fn text_edges(img: &Screen, xs: Seq<u32>, y_min: int, y_end: int) -> nat
    decreases xs.len(),
{
    if xs.len() == 0 {
        0
    } else {
        text_edges(img, xs.drop_last(), y_min, y_end) + column_edges(img, xs.last() as int, y_min, y_end)
    }
}

fn level(img: &Screen, x: u32, y: u32) -> (r: u8)
    ensures
        r == level_at(img, x as int, y as int),
{
    match img.pixel_at(x, y) {
        Some(p) => ColorTarget::brightness(&p),
        None => 0,
    }
}

fn column_edge_count(img: &Screen, x: u32, y_min: u32, y_end: u32) -> (r: u64)
    ensures
        r == column_edges(img, x as int, y_min as int, y_end as int),
        r <= u32::MAX,
{
    if y_end <= y_min {
        return 0;
    }
    let mut count: u64 = 0;
    let mut y: u32 = y_min + 1;
    while y < y_end
        invariant
            y_min < y <= y_end,
            count == column_edges(img, x as int, y_min as int, y as int),
            count <= y - y_min,
        decreases y_end - y,
    {
        let a = level(img, x, y - 1);
        let b = level(img, x, y);
        let d = if a >= b {
            a - b
        } else {
            b - a
        };
        if d > EDGE_JUMP {
            count = count + 1;
        }
        y = y + 1;
    }
    count
}

/// Counts text edges in the columns `xs` between rows `y_min` and `y_max` (excluded).
pub fn text_detection(xs: &[u32], y_min: u32, y_max: u32, img: &Screen) -> (r: u64)
    requires
        xs@.len() <= u32::MAX,
    ensures
        r == text_edges(img, xs@, y_min as int, y_max as int),
{
    let mut total: u64 = 0;
    let mut i: usize = 0;
    while i < xs.len()
        invariant
            i <= xs@.len(),
            xs@.len() <= u32::MAX,
            total == text_edges(img, xs@.take(i as int), y_min as int, y_max as int),
            total <= i * (u32::MAX as int),
        decreases xs@.len() - i,
    {
        assert(xs@.take(i as int + 1).drop_last() =~= xs@.take(i as int));
        let c = column_edge_count(img, xs[i], y_min, y_max);
        assert(total + c <= (i + 1) * (u32::MAX as int)) by (nonlinear_arith)
            requires
                total <= i * (u32::MAX as int),
                c <= u32::MAX,
        ;
        assert((i + 1) * (u32::MAX as int) <= (u32::MAX as int) * (u32::MAX as int)) by (nonlinear_arith)
            requires
                i < u32::MAX,
        ;
        total = total + c;
        i = i + 1;
    }
    assert(xs@.take(xs@.len() as int) =~= xs@);
    total
}

/// Pixels of row `y`, columns `x0` to `x` (excluded), that some target matches.
pub open spec fn row_matches(img: &Screen, targets: Seq<ColorTarget>, y: int, x0: int, x: int) -> nat
    decreases x - x0,
{
    if x <= x0 {
        0
    } else {
        row_matches(img, targets, y, x0, x - 1) + if hit(img, targets, x - 1, y) {
            1nat
        } else {
            0nat
        }
    }
}

/// Pixels of the rectangle of columns `x0 .. x1` and rows `y0 .. y` that some target matches.
pub open spec fn rect_matches(
    img: &Screen,
    targets: Seq<ColorTarget>,
    x0: int,
    x1: int,
    y0: int,
    y: int,
) -> nat
    decreases y - y0,
{
    if y <= y0 {
        0
    } else {
        rect_matches(img, targets, x0, x1, y0, y - 1) + row_matches(img, targets, y - 1, x0, x1)
    }
}

fn count_row(img: &Screen, targets: &[ColorTarget], y: u32, x0: u32, x1: u32) -> (r: u64)
    ensures
        r == row_matches(img, targets@, y as int, x0 as int, x1 as int),
        x0 <= x1 ==> r <= x1 - x0,
        x0 > x1 ==> r == 0,
{
    if x1 <= x0 {
        return 0;
    }
    let mut count: u64 = 0;
    let mut x: u32 = x0;
    while x < x1
        invariant
            x0 <= x <= x1,
            count == row_matches(img, targets@, y as int, x0 as int, x as int),
            count <= x - x0,
        decreases x1 - x,
    {
        if hit_at(img, targets, x, y) {
            count = count + 1;
        }
        x = x + 1;
    }
    count
}

/// Counts the pixels of columns `x0 .. x1` and rows `y0 .. y1` that some target matches.
pub fn count_matches(img: &Screen, targets: &[ColorTarget], x0: u32, x1: u32, y0: u32, y1: u32) -> (r: u64)
    ensures
        r == rect_matches(img, targets@, x0 as int, x1 as int, y0 as int, y1 as int),
{
    if y1 <= y0 {
        return 0;
    }
    let w: u64 = if x1 > x0 {
        (x1 - x0) as u64
    } else {
        0
    };
    let mut total: u64 = 0;
    let mut y: u32 = y0;
    while y < y1
        invariant
            y0 <= y <= y1,
            w == (if x1 > x0 {
                x1 - x0
            } else {
                0
            }),
            total == rect_matches(img, targets@, x0 as int, x1 as int, y0 as int, y as int),
            total <= (y - y0) * w,
        decreases y1 - y,
    {
        let c = count_row(img, targets, y, x0, x1);
        assert(total + c <= (y + 1 - y0) * w) by (nonlinear_arith)
            requires
                total <= (y - y0) * w,
                c <= w,
        ;
        assert((y + 1 - y0) * w <= (u32::MAX as int) * (u32::MAX as int)) by (nonlinear_arith)
            requires
                y + 1 - y0 <= u32::MAX,
                w <= u32::MAX,
        ;
        total = total + c;
        y = y + 1;
    }
    total
}

/// More than `percent` of the area is covered: `matching / (area / 100) > percent`,
/// never for an area under 100 pixels.
pub open spec fn covers(matching: int, area: int, percent: int) -> bool {
    area / 100 > 0 && matching / (area / 100) > percent
}

fn covers_exec(matching: u64, area: u64, percent: u64) -> (r: bool)
    ensures
        r == covers(matching as int, area as int, percent as int),
{
    let hundredth = area / 100;
    hundredth > 0 && matching / hundredth > percent
}

pub open spec fn chat_white() -> ColorTarget {
    target(0xf7, 0xf7, 0xf8, 2)
}

pub open spec fn popup_gray() -> ColorTarget {
    target(0x39, 0x3b, 0x3d, 0)
}

pub open spec fn pure_white() -> ColorTarget {
    target(0xff, 0xff, 0xff, 0)
}

/// The three columns of the scoreboard: money, level and player count.
pub open spec fn scoreboard_columns(w: int) -> Seq<u32> {
    seq![(w * 98 / 100) as u32, (w * 94 / 100) as u32, (w * 86 / 100) as u32]
}

/// Whether the scoreboard shows: enough text edges in its columns, between 5% and
/// 50% of the height.
pub fn scoreboard_open(img: &Screen) -> (r: bool)
    ensures
        r == (text_edges(
            img,
            scoreboard_columns(img.spec_width() as int),
            img.spec_height() as int * 5 / 100,
            img.spec_height() as int / 2,
        ) >= TEXT_EDGES),
{
    let w = img.width() as u64;
    let h = img.height() as u64;
    let xs = [(w * 98 / 100) as u32, (w * 94 / 100) as u32, (w * 86 / 100) as u32];
    assert(xs@ =~= scoreboard_columns(img.spec_width() as int));
    text_detection(&xs, (h * 5 / 100) as u32, (h / 2) as u32, img) >= TEXT_EDGES
}

pub open spec fn treasure_columns(w: int) -> Seq<u32> {
    seq![(w * 94 / 100) as u32, (w * 91 / 100) as u32, (w * 89 / 100) as u32]
}

/// The treasure-map warning: text edges in its columns around 51% of the height
/// (give or take 5%); if it shows, its dismiss button.
pub fn treasure_maps_warning(img: &Screen) -> (r: Option<Point>)
    ensures
        ({
            let h = img.spec_height() as int;
            let half = h / 2 + h / 100;
            let shift = h * 5 / 100;
            let shown = text_edges(img, treasure_columns(img.spec_width() as int), half - shift, half + shift)
                >= TEXT_EDGES;
            r == if shown {
                Some(
                    Point {
                        x: (img.spec_width() * 92 / 100) as u32,
                        y: (img.spec_height() * 58 / 100) as u32,
                    },
                )
            } else {
                None
            }
        }),
{
    let w = img.width() as u64;
    let h = img.height() as u64;
    let xs = [(w * 94 / 100) as u32, (w * 91 / 100) as u32, (w * 89 / 100) as u32];
    assert(xs@ =~= treasure_columns(img.spec_width() as int));
    let half = h / 2 + h / 100;
    let shift = h * 5 / 100;
    if text_detection(&xs, (half - shift) as u32, (half + shift) as u32, img) >= TEXT_EDGES {
        Some(Point { x: (w * 92 / 100) as u32, y: (h * 58 / 100) as u32 })
    } else {
        None
    }
}

/// Whether the server-shutdown popup shows: its gray covers more than 70% of the
/// centered box of 20% by 20% of the screen.
pub fn server_offline(img: &Screen) -> (r: bool)
    ensures
        ({
            let w = img.spec_width() as int;
            let h = img.spec_height() as int;
            let (pw, ph) = (w * 10 / 100, h * 10 / 100);
            let (x0, x1, y0, y1) = (w / 2 - pw, w / 2 + pw, h / 2 - ph, h / 2 + ph);
            r == covers(
                rect_matches(img, seq![popup_gray()], x0, x1, y0, y1) as int,
                (x1 - x0) * (y1 - y0),
                70,
            )
        }),
{
    let w = img.width();
    let h = img.height();
    let pw = (w as u64 * 10 / 100) as u32;
    let ph = (h as u64 * 10 / 100) as u32;
    let x0 = w / 2 - pw;
    let x1 = w / 2 + pw;
    let y0 = h / 2 - ph;
    let y1 = h / 2 + ph;
    let gray = [ColorTarget { color: Rgb { r: 0x39, g: 0x3b, b: 0x3d }, variation: 0 }];
    assert(gray@ =~= seq![popup_gray()]);
    let matching = count_matches(img, &gray, x0, x1, y0, y1);
    let dx = (x1 - x0) as u64;
    let dy = (y1 - y0) as u64;
    assert(dx * dy <= (u32::MAX as int) * (u32::MAX as int)) by (nonlinear_arith)
        requires
            dx <= u32::MAX,
            dy <= u32::MAX,
    ;
    let area: u64 = dx * dy;
    covers_exec(matching, area, 70)
}

/// The chat button, right of the menu button `anchor`, when the open chat's white
/// covers more than 20% of the area around it.
pub fn chat_open(img: &Screen, anchor: &Point) -> (r: Option<Point>)
    ensures
        ({
            let w = img.spec_width() as int;
            let h = img.spec_height() as int;
            let bx = anchor.x + w * 5 / 100;
            let by = anchor.y - 5;
            let (x0, x1, y0, y1) = (bx - w * 8 / 1000, bx + w / 100, by - h * 5 / 1000, by + h * 2 / 100);
            let fits = anchor.y >= 5 && x0 >= 0 && y0 >= 0 && x1 <= u32::MAX && y1 <= u32::MAX;
            r == if fits && covers(
                rect_matches(img, seq![chat_white()], x0, x1, y0, y1) as int,
                (x1 - x0) * (y1 - y0),
                20,
            ) {
                Some(Point { x: bx as u32, y: by as u32 })
            } else {
                None
            }
        }),
{
    let w = img.width() as u64;
    let h = img.height() as u64;
    if anchor.y < 5 {
        return None;
    }
    let bx: u64 = anchor.x as u64 + w * 5 / 100;
    let by: u64 = (anchor.y - 5) as u64;
    if bx < w * 8 / 1000 || by < h * 5 / 1000 || bx + w / 100 > u32::MAX as u64 || by + h * 2 / 100
        > u32::MAX as u64 {
        return None;
    }
    let x0 = (bx - w * 8 / 1000) as u32;
    let x1 = (bx + w / 100) as u32;
    let y0 = (by - h * 5 / 1000) as u32;
    let y1 = (by + h * 2 / 100) as u32;
    let white = [ColorTarget { color: Rgb { r: 0xf7, g: 0xf7, b: 0xf8 }, variation: 2 }];
    assert(white@ =~= seq![chat_white()]);
    let matching = count_matches(img, &white, x0, x1, y0, y1);
    let dx = (x1 - x0) as u64;
    let dy = (y1 - y0) as u64;
    assert(dx * dy <= (u32::MAX as int) * (u32::MAX as int)) by (nonlinear_arith)
        requires
            dx <= u32::MAX,
            dy <= u32::MAX,
    ;
    let area: u64 = dx * dy;
    if covers_exec(matching, area, 20) {
        Some(Point { x: bx as u32, y: by as u32 })
    } else {
        None
    }
}

/// Whether row `y` holds `len` white pixels from column `x` on.
pub open spec fn white_segment(img: &Screen, x: int, y: int, len: int) -> bool {
    row_matches(img, seq![pure_white()], y, x, x + len) >= len
}

/// The rightmost column from `start_x` up to `x` (excluded) where a white segment
/// of `len` pixels starts in row `y`.
pub open spec fn rightmost_segment(img: &Screen, y: int, start_x: int, x: int, len: int) -> Option<int>
    decreases x - start_x,
{
    if x <= start_x {
        None
    } else if white_segment(img, x - 1, y, len) {
        Some(x - 1)
    } else {
        rightmost_segment(img, y, start_x, x - 1, len)
    }
}

fn arrow_in_row(img: &Screen, white: &[ColorTarget], y: u32, start_x: u32, end_x: u32, len: u32) -> (r:
    Option<u32>)
    requires
        white@ == seq![pure_white()],
        end_x as int + len as int <= u32::MAX,
    ensures
        r == (match rightmost_segment(img, y as int, start_x as int, end_x as int, len as int) {
            Some(x) => Some(x as u32),
            None => None::<u32>,
        }),
{
    let mut x: u32 = end_x;
    while x > start_x
        invariant
            x <= end_x,
            end_x as int + len as int <= u32::MAX,
            white@ == seq![pure_white()],
            rightmost_segment(img, y as int, start_x as int, end_x as int, len as int) == rightmost_segment(
                img,
                y as int,
                start_x as int,
                x as int,
                len as int,
            ),
        decreases x,
    {
        let count = count_row(img, white, y, x - 1, x - 1 + len);
        if count >= len as u64 {
            return Some(x - 1);
        }
        x = x - 1;
    }
    None
}

/// Where to click to close the quest panel (see `quest_arrow`).
pub open spec fn quest_click(img: &Screen, anchor: Point) -> Option<Point> {
    let w = img.spec_width() as int;
    let h = img.spec_height() as int;
    let final_y = anchor.y + h * 45 / 1000;
    let possible_y = anchor.y + h * 338 / 1000;
    let start_x = anchor.x + w * 5 / 100;
    let end_x = w * 35 / 100;
    let len = w / 1000;
    if final_y > u32::MAX || possible_y > u32::MAX || start_x > u32::MAX {
        None
    } else {
        match rightmost_segment(img, final_y, start_x, end_x, len) {
            Some(x) => Some(Point { x: x as u32, y: final_y as u32 }),
            None => match rightmost_segment(img, possible_y, start_x, end_x, len) {
                Some(x) => Some(Point { x: x as u32, y: final_y as u32 }),
                None => None,
            },
        }
    }
}

/// The close arrow of the quest panel: the rightmost white segment of 0.1% of the
/// width, from 5% of the width right of the menu button `anchor` to 35% of the
/// width, in the row 4.5% of the height below the button, else in the row 33.8%
/// below it; the click goes to the first row's height.
pub fn quest_arrow(img: &Screen, anchor: &Point) -> (r: Option<Point>)
    ensures
        r == quest_click(img, *anchor),
{
    let w = img.width() as u64;
    let h = img.height() as u64;
    let final_y: u64 = anchor.y as u64 + h * 45 / 1000;
    let possible_y: u64 = anchor.y as u64 + h * 338 / 1000;
    let start_x: u64 = anchor.x as u64 + w * 5 / 100;
    let end_x: u64 = w * 35 / 100;
    let len: u64 = w / 1000;
    if final_y > u32::MAX as u64 || possible_y > u32::MAX as u64 || start_x > u32::MAX as u64 {
        return None;
    }
    let white = [ColorTarget { color: Rgb { r: 0xff, g: 0xff, b: 0xff }, variation: 0 }];
    assert(white@ =~= seq![pure_white()]);
    match arrow_in_row(img, &white, final_y as u32, start_x as u32, end_x as u32, len as u32) {
        Some(x) => Some(Point { x, y: final_y as u32 }),
        None => match arrow_in_row(img, &white, possible_y as u32, start_x as u32, end_x as u32, len as u32) {
            Some(x) => Some(Point { x, y: final_y as u32 }),
            None => None,
        },
    }
}

} // verus!
