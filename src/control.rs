//! The move policy and the hold-duration calibration.
use vstd::prelude::*;

verus! {

/// What to do with the reel button.
#[derive(Clone, Copy, Debug, PartialEq, Eq, Structural)]
pub enum Move {
    /// Press and hold: drives the hook right.
    Right,
    /// Release: lets the hook drift left.
    Left,
    /// Rapid clicks: hold the hook where it is.
    Spam,
}

/// The move for a hook of `hook_length` pixels, a fish `range` pixels right of the
/// hook's middle (negative: left of it) and a hook that moved `speed` pixels since the
/// last sample; `minimum_speed` is where a movement starts to count as fast.
pub open spec fn decide(hook_length: int, range: int, speed: int, minimum_speed: int) -> Move {
    let half = hook_length / 2;
    let third = hook_length / 3;
    let threshold = half * 80 / 100;
    if range > half {
        Move::Right
    } else if range < -half {
        Move::Left
    } else if range > threshold || (range < third && speed < -minimum_speed) {
        Move::Right
    } else if range < -threshold || (range > -third && speed > minimum_speed) {
        Move::Left
    } else {
        Move::Spam
    }
}

impl Move {
    /// Decides the move: hard right or left once the fish is past the hook's half
    /// length, soft right or left past 80% of it or to brake a fast drift inside the
    /// inner third, and clicks in place otherwise.
    pub fn decision(hook_length: i32, range: i32, speed: i32, minimum_speed: i32) -> (r: Move)
        requires
            hook_length >= 0,
        ensures
            r == decide(hook_length as int, range as int, speed as int, minimum_speed as int),
    {
        let half: i64 = hook_length as i64 / 2;
        let third: i64 = hook_length as i64 / 3;
        let threshold: i64 = half * 80 / 100;
        let range = range as i64;
        let speed = speed as i64;
        let minimum_speed = minimum_speed as i64;
        if range > half {
            Move::Right
        } else if range < -half {
            Move::Left
        } else if range > threshold || (range < third && speed < -minimum_speed) {
            Move::Right
        } else if range < -threshold || (range > -third && speed > minimum_speed) {
            Move::Left
        } else {
            Move::Spam
        }
    }
}

/// One pixel past half the hook's length on either side gives a hard move to that
/// side, whatever the speeds; a fish at the hook's middle with a still hook gives
/// clicks in place whenever the speed threshold is not negative.
pub proof fn lemma_decision_bounds(hook_length: int, speed: int, minimum_speed: int)
    requires
        hook_length >= 0,
    ensures
        minimum_speed >= 0 ==> decide(hook_length, 0, 0, minimum_speed) == Move::Spam,
        decide(hook_length, hook_length / 2 + 1, speed, minimum_speed) == Move::Right,
        decide(hook_length, -(hook_length / 2) - 1, speed, minimum_speed) == Move::Left,
{
}

/// Number of rows of the calibration table.
pub const CALIBRATION_ROWS: usize = 19;

/// Width in pixels at which the calibration table was measured.
pub const REFERENCE_WIDTH: u64 = 800;

/// Longest hold, in milliseconds: the table's last value.
pub const LONGEST_HOLD_MS: i32 = 1531;

/// Row `i` of the calibration table: (hold in milliseconds, distance in pixels at
/// the reference width). Both columns grow with `i`.
pub open spec fn calibration_row(i: int) -> (int, int) {
    if i == 0 {
        (0, 0)
    } else if i == 1 {
        (16, 0)
    } else if i == 2 {
        (132, 1)
    } else if i == 3 {
        (217, 5)
    } else if i == 4 {
        (365, 29)
    } else if i == 5 {
        (450, 54)
    } else if i == 6 {
        (534, 91)
    } else if i == 7 {
        (632, 151)
    } else if i == 8 {
        (736, 234)
    } else if i == 9 {
        (817, 310)
    } else if i == 10 {
        (900, 382)
    } else if i == 11 {
        (997, 469)
    } else if i == 12 {
        (1081, 541)
    } else if i == 13 {
        (1164, 613)
    } else if i == 14 {
        (1250, 686)
    } else if i == 15 {
        (1347, 711)
    } else if i == 16 {
        (1448, 721)
    } else if i == 17 {
        (1531, 724)
    } else {
        (1531, 9999)
    }
}

fn calibration(i: usize) -> (r: (i64, i64))
    requires
        i < CALIBRATION_ROWS,
    ensures
        r.0 == calibration_row(i as int).0,
        r.1 == calibration_row(i as int).1,
        0 <= r.0 <= LONGEST_HOLD_MS,
        0 <= r.1 <= 9999,
{
    if i == 0 {
        (0, 0)
    } else if i == 1 {
        (16, 0)
    } else if i == 2 {
        (132, 1)
    } else if i == 3 {
        (217, 5)
    } else if i == 4 {
        (365, 29)
    } else if i == 5 {
        (450, 54)
    } else if i == 6 {
        (534, 91)
    } else if i == 7 {
        (632, 151)
    } else if i == 8 {
        (736, 234)
    } else if i == 9 {
        (817, 310)
    } else if i == 10 {
        (900, 382)
    } else if i == 11 {
        (997, 469)
    } else if i == 12 {
        (1081, 541)
    } else if i == 13 {
        (1164, 613)
    } else if i == 14 {
        (1250, 686)
    } else if i == 15 {
        (1347, 711)
    } else if i == 16 {
        (1448, 721)
    } else if i == 17 {
        (1531, 724)
    } else {
        (1531, 9999)
    }
}

/// Distance of row `i`, rescaled from the reference width to `width`.
pub open spec fn scaled_distance(i: int, width: int) -> int {
    calibration_row(i).1 * width / REFERENCE_WIDTH as int
}

/// Linear interpolation of the hold for distance `p` between rows `i - 1` and `i`.
pub open spec fn interpolate(i: int, p: int, width: int) -> int {
    let lower_hold = calibration_row(i - 1).0;
    let lower_dist = scaled_distance(i - 1, width);
    let upper_hold = calibration_row(i).0;
    let upper_dist = scaled_distance(i, width);
    lower_hold + (p - lower_dist) * (upper_hold - lower_hold) / (upper_dist - lower_dist)
}

/// The hold for distance `p`, looking from row `i` on for the first row whose
/// rescaled distance exceeds `p`; past the table, the longest hold.
pub open spec fn hold_from(p: int, width: int, i: int) -> int
    decreases CALIBRATION_ROWS - i,
{
    if i >= CALIBRATION_ROWS {
        LONGEST_HOLD_MS as int
    } else if p < scaled_distance(i, width) {
        interpolate(i, p, width)
    } else {
        hold_from(p, width, i + 1)
    }
}

/// Absolute value.
pub open spec fn abs(v: int) -> int {
    if v < 0 {
        -v
    } else {
        v
    }
}

/// The hold in milliseconds for a gap of `gap` pixels on a playfield `width` pixels wide.
pub open spec fn hold_ms(gap: int, width: int) -> int {
    hold_from(abs(gap), width, 1)
}

/// Hold duration in milliseconds for a gap of `pixel` pixels (either side), read
/// off the calibration table rescaled to `screen_width` and interpolated linearly
/// between its rows; beyond the table, the longest hold.
pub fn hold_formula(pixel: i32, screen_width: u32) -> (r: i32)
    ensures
        r == hold_ms(pixel as int, screen_width as int),
        0 <= r <= LONGEST_HOLD_MS,
{
    let p: i64 = if pixel < 0 {
        -(pixel as i64)
    } else {
        pixel as i64
    };
    let w: i64 = screen_width as i64;
    let mut i: usize = 1;
    while i < CALIBRATION_ROWS
        invariant
            1 <= i <= CALIBRATION_ROWS,
            p == abs(pixel as int),
            w == screen_width,
            p >= scaled_distance(i - 1, w as int),
            hold_from(p as int, w as int, 1) == hold_from(p as int, w as int, i as int),
        decreases CALIBRATION_ROWS - i,
    {
        let (upper_hold, upper_row_dist) = calibration(i);
        assert(0 <= upper_row_dist * w <= 9999 * 4294967295) by (nonlinear_arith)
            requires
                0 <= upper_row_dist <= 9999,
                0 <= w <= 4294967295,
        ;
        let upper_dist: i64 = upper_row_dist * w / REFERENCE_WIDTH as i64;
        if p < upper_dist {
            let (lower_hold, lower_row_dist) = calibration(i - 1);
            assert(0 <= lower_row_dist * w <= 9999 * 4294967295) by (nonlinear_arith)
                requires
                    0 <= lower_row_dist <= 9999,
                    0 <= w <= 4294967295,
            ;
            let lower_dist: i64 = lower_row_dist * w / REFERENCE_WIDTH as i64;
            assert(0 <= p - lower_dist < upper_dist - lower_dist);
            assert(0 <= upper_hold - lower_hold <= 1531);
            assert(upper_dist <= 9999 * 4294967295 / 800);
            assert((p - lower_dist) * (upper_hold - lower_hold) <= 9999 * 4294967295 / 800 * 1531)
                by (nonlinear_arith)
                requires
                    0 <= p - lower_dist < upper_dist - lower_dist,
                    upper_dist - lower_dist <= 9999 * 4294967295 / 800,
                    0 <= upper_hold - lower_hold <= 1531,
            ;
            let num: i64 = (p - lower_dist) * (upper_hold - lower_hold);
            assert(0 <= num <= (upper_dist - lower_dist) * (upper_hold - lower_hold)) by (nonlinear_arith)
                requires
                    0 <= p - lower_dist < upper_dist - lower_dist,
                    0 <= upper_hold - lower_hold,
                    num == (p - lower_dist) * (upper_hold - lower_hold),
            ;
            let step: i64 = num / (upper_dist - lower_dist);
            assert(step <= upper_hold - lower_hold) by (nonlinear_arith)
                requires
                    0 <= num <= (upper_dist - lower_dist) * (upper_hold - lower_hold),
                    upper_dist - lower_dist > 0,
                    step == num as int / (upper_dist - lower_dist) as int,
            ;
            return (lower_hold + step) as i32;
        }
        i = i + 1;
    }
    LONGEST_HOLD_MS
}

proof fn lemma_rows_grow(i: int)
    requires
        0 <= i < CALIBRATION_ROWS - 1,
    ensures
        calibration_row(i).0 <= calibration_row(i + 1).0,
        calibration_row(i).1 <= calibration_row(i + 1).1,
        0 <= calibration_row(i).0,
        0 <= calibration_row(i).1,
{
}

proof fn lemma_scaled_grows(i: int, width: int)
    requires
        0 <= i < CALIBRATION_ROWS - 1,
        width >= 0,
    ensures
        0 <= scaled_distance(i, width) <= scaled_distance(i + 1, width),
{
    lemma_rows_grow(i);
    let a = calibration_row(i).1;
    let b = calibration_row(i + 1).1;
    assert(0 <= a * width <= b * width) by (nonlinear_arith)
        requires
            0 <= a <= b,
            width >= 0,
    ;
    assert(0 <= a * width / 800 <= b * width / 800) by (nonlinear_arith)
        requires
            0 <= a * width <= b * width,
    ;
}

proof fn lemma_hold_from_grows(p1: int, p2: int, width: int, i: int)
    requires
        1 <= i <= CALIBRATION_ROWS,
        width >= 0,
        scaled_distance(i - 1, width) <= p1 <= p2,
    ensures
        calibration_row(i - 1).0 <= hold_from(p1, width, i),
        hold_from(p1, width, i) <= hold_from(p2, width, i),
    decreases CALIBRATION_ROWS - i,
{
    if i < CALIBRATION_ROWS {
        lemma_rows_grow(i - 1);
        lemma_scaled_grows(i - 1, width);
        let lh = calibration_row(i - 1).0;
        let uh = calibration_row(i).0;
        let ld = scaled_distance(i - 1, width);
        let ud = scaled_distance(i, width);
        if p2 < ud {
            assert(lh <= interpolate(i, p1, width) <= interpolate(i, p2, width)) by {
                assert(0 <= (p1 - ld) * (uh - lh) <= (p2 - ld) * (uh - lh)) by (nonlinear_arith)
                    requires
                        0 <= p1 - ld <= p2 - ld,
                        0 <= uh - lh,
                ;
                assert(0 <= (p1 - ld) * (uh - lh) / (ud - ld) <= (p2 - ld) * (uh - lh) / (ud - ld))
                    by (nonlinear_arith)
                    requires
                        0 <= (p1 - ld) * (uh - lh) <= (p2 - ld) * (uh - lh),
                        ud - ld > 0,
                ;
            }
        } else if p1 < ud {
            assert(lh <= interpolate(i, p1, width) <= uh) by {
                assert(0 <= (p1 - ld) * (uh - lh) <= (ud - ld) * (uh - lh)) by (nonlinear_arith)
                    requires
                        0 <= p1 - ld < ud - ld,
                        0 <= uh - lh,
                ;
                assert(0 <= (p1 - ld) * (uh - lh) / (ud - ld) <= uh - lh) by (nonlinear_arith)
                    requires
                        0 <= (p1 - ld) * (uh - lh) <= (ud - ld) * (uh - lh),
                        ud - ld > 0,
                ;
            }
            lemma_hold_from_grows(p2, p2, width, i + 1);
        } else {
            lemma_hold_from_grows(p1, p2, width, i + 1);
        }
    }
}

/// For a fixed width, the hold never shrinks as the gap grows in size, on either side.
pub proof fn lemma_hold_grows_with_gap(gap1: int, gap2: int, width: int)
    requires
        abs(gap1) <= abs(gap2),
        width >= 0,
    ensures
        hold_ms(gap1, width) <= hold_ms(gap2, width),
{
    assert(scaled_distance(0, width) == 0);
    assert(0 <= abs(gap1));
    lemma_hold_from_grows(abs(gap1), abs(gap2), width, 1);
}

/// Shortest and longest hold of the eased curve, in milliseconds.
pub const EASED_MIN_HOLD_MS: u64 = 20;

pub const EASED_MAX_HOLD_MS: u64 = 1500;

/// Hook speed, in pixels per frame, that adds one to the braking divisor.
pub const BRAKE_SPEED_STEP: u64 = 5;

/// Which calibration turns a gap into a hold duration.
#[derive(Clone, Copy, Debug, PartialEq, Eq, Structural)]
pub enum HoldCurve {
    /// The piecewise-linear table (`hold_formula`).
    Table,
    /// The cubic ease with braking (`eased_hold`).
    Eased,
}

/// The cubic ease from the shortest to the longest hold over the gap's share of
/// `width` (a gap of `width` or more gives the longest hold).
pub open spec fn ease(distance: int, width: int) -> int {
    let d = if width <= 0 {
        1
    } else {
        width
    };
    let t = if distance < d {
        distance
    } else {
        d
    };
    EASED_MIN_HOLD_MS + (EASED_MAX_HOLD_MS - EASED_MIN_HOLD_MS) * (t * t * t) / (d * d * d)
}

/// The braking divisor: above 1 only when the hook already moves towards the fish.
pub open spec fn brake(gap: int, speed: int) -> int {
    if gap * speed > 0 {
        1 + abs(speed) / BRAKE_SPEED_STEP as int
    } else {
        1
    }
}

/// The eased hold in milliseconds, never under the shortest hold.
pub open spec fn eased_ms(gap: int, speed: int, width: int) -> int {
    let h = ease(abs(gap), width) / brake(gap, speed);
    if h < EASED_MIN_HOLD_MS {
        EASED_MIN_HOLD_MS as int
    } else {
        h
    }
}

/// Hold duration in milliseconds on the cubic-ease curve for a gap of `gap` pixels
/// on a playfield `width` pixels wide, divided by the braking divisor when the hook
/// already moves towards the fish at `speed` pixels per frame.
pub fn eased_hold(gap: i32, speed: i32, width: u32) -> (r: u64)
    ensures
        r == eased_ms(gap as int, speed as int, width as int),
        EASED_MIN_HOLD_MS <= r <= EASED_MAX_HOLD_MS,
{
    let distance: u128 = if gap < 0 {
        (-(gap as i64)) as u128
    } else {
        gap as u128
    };
    let d: u128 = if width == 0 {
        1
    } else {
        width as u128
    };
    let t: u128 = if distance < d {
        distance
    } else {
        d
    };
    assert(t * t <= d * d <= 0xffff_ffff * 0xffff_ffff) by (nonlinear_arith)
        requires
            0 <= t <= d <= 0xffff_ffff,
    ;
    assert(t * t * t <= d * d * d <= 0xffff_ffff * 0xffff_ffff * 0xffff_ffff) by (nonlinear_arith)
        requires
            0 <= t <= d <= 0xffff_ffff,
    ;
    assert((EASED_MAX_HOLD_MS - EASED_MIN_HOLD_MS) * (t * t * t) <= (EASED_MAX_HOLD_MS
        - EASED_MIN_HOLD_MS) * (d * d * d)) by (nonlinear_arith)
        requires
            t * t * t <= d * d * d,
    ;
    assert(d * d * d >= 1) by (nonlinear_arith)
        requires
            d >= 1,
    ;
    let cube: u128 = t * t * t;
    let span: u128 = (EASED_MAX_HOLD_MS - EASED_MIN_HOLD_MS) as u128;
    let rise: u128 = span * cube / (d * d * d);
    assert(rise <= span) by (nonlinear_arith)
        requires
            span * cube <= span * (d * d * d),
            d * d * d >= 1,
            rise == span * cube / (d * d * d),
    ;
    let eased: u64 = EASED_MIN_HOLD_MS + rise as u64;
    let same_direction = (gap > 0 && speed > 0) || (gap < 0 && speed < 0);
    assert(same_direction == (gap * speed > 0)) by (nonlinear_arith)
        requires
            same_direction == ((gap > 0 && speed > 0) || (gap < 0 && speed < 0)),
    ;
    let divisor: u64 = if same_direction {
        let s: u64 = if speed < 0 {
            (-(speed as i64)) as u64
        } else {
            speed as u64
        };
        1 + s / BRAKE_SPEED_STEP
    } else {
        1
    };
    let h = eased / divisor;
    assert(h <= eased) by (nonlinear_arith)
        requires
            divisor >= 1,
            h == eased / divisor,
    ;
    if h < EASED_MIN_HOLD_MS {
        EASED_MIN_HOLD_MS
    } else {
        h
    }
}

proof fn lemma_ease_grows(p1: int, p2: int, width: int)
    requires
        0 <= p1 <= p2,
    ensures
        EASED_MIN_HOLD_MS <= ease(p1, width) <= ease(p2, width),
{
    let d = if width <= 0 {
        1
    } else {
        width
    };
    let t1 = if p1 < d {
        p1
    } else {
        d
    };
    let t2 = if p2 < d {
        p2
    } else {
        d
    };
    assert(0 <= t1 * t1 * t1 <= t2 * t2 * t2) by (nonlinear_arith)
        requires
            0 <= t1 <= t2,
    ;
    assert(d * d * d >= 1) by (nonlinear_arith)
        requires
            d >= 1,
    ;
    assert(0 <= 1480 * (t1 * t1 * t1) / (d * d * d) <= 1480 * (t2 * t2 * t2) / (d * d * d)) by (nonlinear_arith)
        requires
            0 <= t1 * t1 * t1 <= t2 * t2 * t2,
            d * d * d >= 1,
    ;
}

/// On the eased curve, for a fixed hook speed, the hold never shrinks as the gap
/// grows on one side of the hook (from no gap at all, on either side).
pub proof fn lemma_eased_grows_with_gap(gap1: int, gap2: int, speed: int, width: int)
    requires
        abs(gap1) <= abs(gap2),
        gap1 == 0 || (gap1 > 0) == (gap2 > 0),
    ensures
        eased_ms(gap1, speed, width) <= eased_ms(gap2, speed, width),
{
    lemma_ease_grows(abs(gap1), abs(gap2), width);
    if gap1 == 0 {
        assert(brake(gap1, speed) == 1);
        assert(ease(0, width) == EASED_MIN_HOLD_MS) by (nonlinear_arith);
    } else {
        assert(brake(gap1, speed) == brake(gap2, speed)) by (nonlinear_arith)
            requires
                gap1 != 0,
                gap2 != 0,
                (gap1 > 0) == (gap2 > 0),
        ;
        let b = brake(gap1, speed);
        assert(b >= 1);
        assert(ease(abs(gap1), width) / b <= ease(abs(gap2), width) / b) by (nonlinear_arith)
            requires
                0 <= ease(abs(gap1), width) <= ease(abs(gap2), width),
                b >= 1,
        ;
    }
}

/// On the eased curve, while the hook moves towards the fish, the hold never grows
/// as the hook moves faster.
pub proof fn lemma_eased_shrinks_with_speed(gap: int, speed1: int, speed2: int, width: int)
    requires
        gap * speed1 > 0,
        gap * speed2 > 0,
        abs(speed1) <= abs(speed2),
    ensures
        eased_ms(gap, speed2, width) <= eased_ms(gap, speed1, width),
{
    lemma_ease_grows(abs(gap), abs(gap), width);
    let e = ease(abs(gap), width);
    let b1 = brake(gap, speed1);
    let b2 = brake(gap, speed2);
    assert(1 <= b1 <= b2) by (nonlinear_arith)
        requires
            b1 == 1 + abs(speed1) / 5,
            b2 == 1 + abs(speed2) / 5,
            0 <= abs(speed1) <= abs(speed2),
    ;
    assert(e / b2 <= e / b1) by (nonlinear_arith)
        requires
            e >= 0,
            1 <= b1 <= b2,
    ;
}

} // verus!
