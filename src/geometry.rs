//! Points, rectangles and screen dimensions, and the color scans over a rectangle.
use vstd::prelude::*;

use crate::color::{any_accepts, any_matches, target, ColorTarget, Rgb};
use crate::minigame::MiniGame;
use crate::screen::Screen;

verus! {

/// A pixel position.
#[derive(Clone, Copy, Debug, PartialEq, Eq, Structural)]
pub struct Point {
    pub x: u32,
    pub y: u32,
}

/// The rectangle from `point1` (top left) to `point2` (bottom right), both included.
#[derive(Clone, Copy, Debug, PartialEq, Eq, Structural)]
pub struct Region {
    pub point1: Point,
    pub point2: Point,
}

/// A width and a height in pixels.
#[derive(Clone, Copy, Debug, PartialEq, Eq, Structural)]
pub struct Dimensions {
    pub width: u32,
    pub height: u32,
}

/// Whether `v` is a valid `u32`.
pub open spec fn fits_u32(v: int) -> bool {
    0 <= v <= u32::MAX
}

impl Point {
    /// The point moved by `(dx, dy)`, or `None` when a coordinate would leave the
    /// range of `u32`.
    pub open spec fn spec_shift(self, dx: int, dy: int) -> Option<Point> {
        if fits_u32(self.x + dx) && fits_u32(self.y + dy) {
            Some(Point { x: (self.x + dx) as u32, y: (self.y + dy) as u32 })
        } else {
            None
        }
    }

    /// The point moved by a signed offset, or `None` when a coordinate would leave
    /// the range of `u32`.
    pub fn shift(self, dx: i32, dy: i32) -> (r: Option<Point>)
        ensures
            r == self.spec_shift(dx as int, dy as int),
    {
        let x: i64 = self.x as i64 + dx as i64;
        let y: i64 = self.y as i64 + dy as i64;
        if 0 <= x && x <= u32::MAX as i64 && 0 <= y && y <= u32::MAX as i64 {
            Some(Point { x: x as u32, y: y as u32 })
        } else {
            None
        }
    }
}

/// Whether some target accepts the pixel at `(x, y)`; never outside the raster.
pub open spec fn hit(screen: &Screen, targets: Seq<ColorTarget>, x: int, y: int) -> bool {
    match screen.pixel(x, y) {
        Some(p) => any_accepts(targets, p),
        None => false,
    }
}

/// Whether column `x` holds a hit between rows `y_min` and `y_max`.
pub open spec fn column_hit(
    screen: &Screen,
    targets: Seq<ColorTarget>,
    x: int,
    y_min: int,
    y_max: int,
) -> bool {
    exists|y: int| y_min <= y <= y_max && #[trigger] hit(screen, targets, x, y)
}

/// The `i`-th column of a scan that starts at `start` and moves right or left.
pub open spec fn column(start: int, i: int, ascending: bool) -> int {
    if ascending {
        start + i
    } else {
        start - i
    }
}

/// What a column-by-column scan returns: the first column in scan order that holds
/// a hit, and in it the topmost hit; `None` when no scanned column holds one.
pub open spec fn is_first_hit(
    r: Option<Point>,
    screen: &Screen,
    targets: Seq<ColorTarget>,
    start: int,
    count: int,
    ascending: bool,
    y_min: int,
    y_max: int,
) -> bool {
    match r {
        Some(p) => exists|i: int|
            {
                &&& 0 <= i < count
                &&& p.x == #[trigger] column(start, i, ascending)
                &&& y_min <= p.y <= y_max
                &&& hit(screen, targets, p.x as int, p.y as int)
                &&& forall|j: int|
                    0 <= j < i ==> !column_hit(
                        screen,
                        targets,
                        #[trigger] column(start, j, ascending),
                        y_min,
                        y_max,
                    )
                &&& forall|y: int| y_min <= y < p.y ==> !#[trigger] hit(screen, targets, p.x as int, y)
            },
        None => forall|j: int|
            0 <= j < count ==> !column_hit(
                screen,
                targets,
                #[trigger] column(start, j, ascending),
                y_min,
                y_max,
            ),
    }
}

/// The result of a column-by-column scan, as `is_first_hit` describes it.
pub open spec fn first_hit(
    screen: &Screen,
    targets: Seq<ColorTarget>,
    start: int,
    count: int,
    ascending: bool,
    y_min: int,
    y_max: int,
) -> Option<Point> {
    choose|r: Option<Point>| is_first_hit(r, screen, targets, start, count, ascending, y_min, y_max)
}

/// A scan has one result only.
proof fn lemma_first_hit_unique(
    r1: Option<Point>,
    r2: Option<Point>,
    screen: &Screen,
    targets: Seq<ColorTarget>,
    start: int,
    count: int,
    ascending: bool,
    y_min: int,
    y_max: int,
)
    requires
        is_first_hit(r1, screen, targets, start, count, ascending, y_min, y_max),
        is_first_hit(r2, screen, targets, start, count, ascending, y_min, y_max),
    ensures
        r1 == r2,
{
    match (r1, r2) {
        (Some(p1), Some(p2)) => {
            let i1 = choose|i: int|
                {
                    &&& 0 <= i < count
                    &&& p1.x == #[trigger] column(start, i, ascending)
                    &&& y_min <= p1.y <= y_max
                    &&& hit(screen, targets, p1.x as int, p1.y as int)
                    &&& forall|j: int|
                        0 <= j < i ==> !column_hit(
                            screen,
                            targets,
                            #[trigger] column(start, j, ascending),
                            y_min,
                            y_max,
                        )
                    &&& forall|y: int| y_min <= y < p1.y ==> !#[trigger] hit(screen, targets, p1.x as int, y)
                };
            let i2 = choose|i: int|
                {
                    &&& 0 <= i < count
                    &&& p2.x == #[trigger] column(start, i, ascending)
                    &&& y_min <= p2.y <= y_max
                    &&& hit(screen, targets, p2.x as int, p2.y as int)
                    &&& forall|j: int|
                        0 <= j < i ==> !column_hit(
                            screen,
                            targets,
                            #[trigger] column(start, j, ascending),
                            y_min,
                            y_max,
                        )
                    &&& forall|y: int| y_min <= y < p2.y ==> !#[trigger] hit(screen, targets, p2.x as int, y)
                };
            assert(column_hit(screen, targets, column(start, i1, ascending), y_min, y_max));
            assert(column_hit(screen, targets, column(start, i2, ascending), y_min, y_max));
            if i1 == i2 {
                assert(p1.x == p2.x);
                if p1.y < p2.y {
                    assert(!hit(screen, targets, p2.x as int, p1.y as int));
                } else if p2.y < p1.y {
                    assert(!hit(screen, targets, p1.x as int, p2.y as int));
                }
            }
        },
        (Some(p1), None) => {
            let i1 = choose|i: int|
                {
                    &&& 0 <= i < count
                    &&& p1.x == #[trigger] column(start, i, ascending)
                    &&& y_min <= p1.y <= y_max
                    &&& hit(screen, targets, p1.x as int, p1.y as int)
                };
            assert(column_hit(screen, targets, column(start, i1, ascending), y_min, y_max));
        },
        (None, Some(p2)) => {
            let i2 = choose|i: int|
                {
                    &&& 0 <= i < count
                    &&& p2.x == #[trigger] column(start, i, ascending)
                    &&& y_min <= p2.y <= y_max
                    &&& hit(screen, targets, p2.x as int, p2.y as int)
                };
            assert(column_hit(screen, targets, column(start, i2, ascending), y_min, y_max));
        },
        (None, None) => {},
    }
}

/// A result that meets `is_first_hit` is `first_hit`.
proof fn lemma_first_hit_is(
    r: Option<Point>,
    screen: &Screen,
    targets: Seq<ColorTarget>,
    start: int,
    count: int,
    ascending: bool,
    y_min: int,
    y_max: int,
)
    requires
        is_first_hit(r, screen, targets, start, count, ascending, y_min, y_max),
    ensures
        r == first_hit(screen, targets, start, count, ascending, y_min, y_max),
{
    let c = first_hit(screen, targets, start, count, ascending, y_min, y_max);
    assert(is_first_hit(c, screen, targets, start, count, ascending, y_min, y_max));
    lemma_first_hit_unique(r, c, screen, targets, start, count, ascending, y_min, y_max);
}

/// Whether some target matches the pixel at `(x, y)`; `false` outside the raster.
pub(crate) fn hit_at(screen: &Screen, targets: &[ColorTarget], x: u32, y: u32) -> (r: bool)
    ensures
        r == hit(screen, targets@, x as int, y as int),
{
    match screen.pixel_at(x, y) {
        Some(p) => any_matches(targets, p),
        None => false,
    }
}

/// Scans `count` columns from `start` (rightwards or leftwards), each from `y_min`
/// down to `y_max`, and returns the first pixel that some target matches.
fn search_color_impl(
    screen: &Screen,
    targets: &[ColorTarget],
    start: u32,
    count: u64,
    ascending: bool,
    y_min: u32,
    y_max: u32,
) -> (r: Option<Point>)
    requires
        ascending ==> start + count <= u32::MAX + 1,
        !ascending ==> count <= start + 1,
    ensures
        is_first_hit(r, screen, targets@, start as int, count as int, ascending, y_min as int, y_max as int),
{
    let mut i: u64 = 0;
    while i < count
        invariant
            i <= count,
            ascending ==> start + count <= u32::MAX + 1,
            !ascending ==> count <= start + 1,
            forall|j: int|
                0 <= j < i ==> !column_hit(
                    screen,
                    targets@,
                    #[trigger] column(start as int, j, ascending),
                    y_min as int,
                    y_max as int,
                ),
        decreases count - i,
    {
        let x: u32 = if ascending {
            (start as u64 + i) as u32
        } else {
            (start as u64 - i) as u32
        };
        assert(x == column(start as int, i as int, ascending));
        let mut y: u64 = y_min as u64;
        while y <= y_max as u64
            invariant
                y_min <= y,
                y <= y_max as int + 1 || y == y_min,
                x == column(start as int, i as int, ascending),
                i < count,
                forall|j: int|
                    0 <= j < i ==> !column_hit(
                        screen,
                        targets@,
                        #[trigger] column(start as int, j, ascending),
                        y_min as int,
                        y_max as int,
                    ),
                forall|k: int| y_min <= k < y ==> !#[trigger] hit(screen, targets@, x as int, k),
            decreases y_max as int + 1 - y,
        {
            if hit_at(screen, targets, x, y as u32) {
                return Some(Point { x, y: y as u32 });
            }
            y = y + 1;
        }
        assert(!column_hit(screen, targets@, column(start as int, i as int, ascending), y_min as int, y_max as int));
        i = i + 1;
    }
    None
}

/// Whether some target matches each of `count` pixels of row `y`, from column `x_min`.
pub open spec fn row_hits(
    screen: &Screen,
    targets: Seq<ColorTarget>,
    x_min: int,
    count: nat,
    y: int,
) -> Seq<bool> {
    Seq::new(count, |i: int| hit(screen, targets, x_min + i, y))
}

/// The first position of `s` that holds `true`.
pub open spec fn first_true(s: Seq<bool>) -> Option<int>
    decreases s.len(),
{
    if s.len() == 0 {
        None
    } else {
        match first_true(s.drop_last()) {
            Some(i) => Some(i),
            None => if s.last() {
                Some(s.len() - 1)
            } else {
                None
            },
        }
    }
}

/// The last position of `s` that holds `true`.
pub open spec fn last_true(s: Seq<bool>) -> Option<int>
    decreases s.len(),
{
    if s.len() == 0 {
        None
    } else if s.last() {
        Some(s.len() - 1)
    } else {
        last_true(s.drop_last())
    }
}

/// `first_true` of a prefix, once found, is `first_true` of the whole.
pub proof fn lemma_first_true_prefix(s: Seq<bool>, m: int)
    requires
        0 <= m <= s.len(),
        first_true(s.take(m)) is Some,
    ensures
        first_true(s) == first_true(s.take(m)),
    decreases s.len(),
{
    if m == s.len() {
        assert(s.take(m) =~= s);
    } else {
        assert(s.drop_last().take(m) =~= s.take(m));
        lemma_first_true_prefix(s.drop_last(), m);
    }
}

/// `first_true` is the least position holding `true`.
pub proof fn lemma_first_true_least(s: Seq<bool>)
    ensures
        first_true(s) matches Some(i) ==> 0 <= i < s.len() && s[i] && forall|j: int|
            0 <= j < i ==> !#[trigger] s[j],
        first_true(s) is None ==> forall|j: int| 0 <= j < s.len() ==> !#[trigger] s[j],
    decreases s.len(),
{
    if s.len() > 0 {
        lemma_first_true_least(s.drop_last());
        assert(forall|j: int| 0 <= j < s.len() - 1 ==> s.drop_last()[j] == s[j]);
    }
}

/// `last_true` is the greatest position holding `true`.
pub proof fn lemma_last_true_greatest(s: Seq<bool>)
    ensures
        last_true(s) matches Some(i) ==> 0 <= i < s.len() && s[i] && forall|j: int|
            i < j < s.len() ==> !#[trigger] s[j],
        last_true(s) is None ==> forall|j: int| 0 <= j < s.len() ==> !#[trigger] s[j],
    decreases s.len(),
{
    if s.len() > 0 {
        lemma_last_true_greatest(s.drop_last());
        assert(forall|j: int| 0 <= j < s.len() - 1 ==> s.drop_last()[j] == s[j]);
    }
}

impl Region {
    /// `point1` lies above and to the left of `point2` (or on them).
    pub open spec fn wf(&self) -> bool {
        self.point1.x <= self.point2.x && self.point1.y <= self.point2.y
    }

    pub open spec fn spec_size(&self) -> Dimensions {
        Dimensions {
            width: (self.point2.x - self.point1.x) as u32,
            height: (self.point2.y - self.point1.y) as u32,
        }
    }

    /// The row halfway between the top and bottom edges, rounded towards the top.
    pub open spec fn mid_y(&self) -> int {
        (self.point1.y + self.point2.y) / 2
    }

    /// The left half: from the left edge to the middle column, full height.
    pub open spec fn spec_left_half(&self) -> Region {
        Region {
            point1: self.point1,
            point2: Point {
                x: (self.point1.x + (self.point2.x - self.point1.x) / 2) as u32,
                y: self.point2.y,
            },
        }
    }

    /// The right half: from the middle column to the right edge, full height.
    pub open spec fn spec_right_half(&self) -> Region {
        Region {
            point1: Point {
                x: (self.point2.x - (self.point2.x - self.point1.x) / 2) as u32,
                y: self.point1.y,
            },
            point2: self.point2,
        }
    }

    pub fn get_size(&self) -> (r: Dimensions)
        requires
            self.wf(),
        ensures
            r == self.spec_size(),
    {
        Dimensions {
            width: self.point2.x - self.point1.x,
            height: self.point2.y - self.point1.y,
        }
    }

    /// `[x_min, y_min, x_max, y_max]`.
    pub fn corners(&self) -> (r: [u32; 4])
        ensures
            r@ == seq![self.point1.x, self.point1.y, self.point2.x, self.point2.y],
    {
        [self.point1.x, self.point1.y, self.point2.x, self.point2.y]
    }

    pub fn left_half(&self) -> (r: Region)
        requires
            self.wf(),
        ensures
            r == self.spec_left_half(),
    {
        let half = (self.point2.x - self.point1.x) / 2;
        Region { point1: self.point1, point2: Point { x: self.point1.x + half, y: self.point2.y } }
    }

    pub fn right_half(&self) -> (r: Region)
        requires
            self.wf(),
        ensures
            r == self.spec_right_half(),
    {
        let half = (self.point2.x - self.point1.x) / 2;
        Region { point1: Point { x: self.point2.x - half, y: self.point1.y }, point2: self.point2 }
    }

    /// The number of columns the region spans; 0 when it is inverted.
    pub open spec fn span_width(&self) -> nat {
        if self.point1.x <= self.point2.x {
            (self.point2.x - self.point1.x + 1) as nat
        } else {
            0
        }
    }

    /// The leftmost pixel of the middle row that some target matches.
    pub open spec fn mid_row_first(&self, screen: &Screen, targets: Seq<ColorTarget>) -> Option<
        Point,
    > {
        match first_true(row_hits(screen, targets, self.point1.x as int, self.span_width(), self.mid_y())) {
            Some(i) => Some(Point { x: (self.point1.x + i) as u32, y: self.mid_y() as u32 }),
            None => None,
        }
    }

    /// The leftmost pixel of the middle row that some target matches.
    pub fn search_color_mid_ltr(&self, screen: &Screen, targets: &[ColorTarget]) -> (r: Option<
        Point,
    >)
        ensures
            r == self.mid_row_first(screen, targets@),
    {
        let y = ((self.point1.y as u64 + self.point2.y as u64) / 2) as u32;
        let count: u64 = if self.point1.x <= self.point2.x {
            self.point2.x as u64 - self.point1.x as u64 + 1
        } else {
            0
        };
        let ghost hits = row_hits(screen, targets@, self.point1.x as int, count as nat, y as int);
        let mut i: u64 = 0;
        while i < count
            invariant
                i <= count,
                count == self.span_width(),
                y == self.mid_y(),
                hits == row_hits(screen, targets@, self.point1.x as int, count as nat, y as int),
                first_true(hits.take(i as int)) is None,
            decreases count - i,
        {
            assert(hits.take(i as int + 1).drop_last() =~= hits.take(i as int));
            let x = (self.point1.x as u64 + i) as u32;
            if hit_at(screen, targets, x, y) {
                proof {
                    lemma_first_true_prefix(hits, i as int + 1);
                }
                return Some(Point { x, y });
            }
            i = i + 1;
        }
        assert(hits.take(count as int) =~= hits);
        None
    }

    /// What `search_color` finds.
    pub open spec fn region_first(&self, screen: &Screen, targets: Seq<ColorTarget>) -> Option<Point> {
        first_hit(
            screen,
            targets,
            self.point1.x as int,
            self.span_width() as int,
            true,
            self.point1.y as int,
            self.point2.y as int,
        )
    }

    /// The first match in the whole region, column by column from the left edge,
    /// each column from the top; nothing in an inverted region.
    pub fn search_color(&self, screen: &Screen, targets: &[ColorTarget]) -> (r: Option<Point>)
        ensures
            r == self.region_first(screen, targets@),
    {
        let count: u64 = if self.point1.x <= self.point2.x {
            self.point2.x as u64 - self.point1.x as u64 + 1
        } else {
            0
        };
        let r = search_color_impl(screen, targets, self.point1.x, count, true, self.point1.y, self.point2.y);
        proof {
            lemma_first_hit_is(
                r,
                screen,
                targets@,
                self.point1.x as int,
                count as int,
                true,
                self.point1.y as int,
                self.point2.y as int,
            );
        }
        r
    }

    /// What `search_color_left_half` finds.
    pub open spec fn left_half_first(&self, screen: &Screen, targets: Seq<ColorTarget>) -> Option<Point> {
        first_hit(
            screen,
            targets,
            self.point1.x as int,
            self.spec_left_half().point2.x - self.point1.x + 1,
            true,
            self.point1.y as int,
            self.point2.y as int,
        )
    }

    /// What `search_color_right_half` finds.
    pub open spec fn right_half_first(&self, screen: &Screen, targets: Seq<ColorTarget>) -> Option<Point> {
        first_hit(
            screen,
            targets,
            self.point2.x as int,
            self.point2.x - self.spec_right_half().point1.x + 1,
            false,
            self.point1.y as int,
            self.point2.y as int,
        )
    }

    /// The first match in the left half, column by column from the left edge
    /// towards the middle, each column from the top.
    pub fn search_color_left_half(&self, screen: &Screen, targets: &[ColorTarget]) -> (r: Option<
        Point,
    >)
        requires
            self.wf(),
        ensures
            is_first_hit(
                r,
                screen,
                targets@,
                self.point1.x as int,
                self.spec_left_half().point2.x - self.point1.x + 1,
                true,
                self.point1.y as int,
                self.point2.y as int,
            ),
            r == self.left_half_first(screen, targets@),
    {
        let half = self.left_half();
        let count: u64 = half.point2.x as u64 - half.point1.x as u64 + 1;
        let r = search_color_impl(screen, targets, half.point1.x, count, true, half.point1.y, half.point2.y);
        proof {
            lemma_first_hit_is(
                r,
                screen,
                targets@,
                self.point1.x as int,
                count as int,
                true,
                self.point1.y as int,
                self.point2.y as int,
            );
        }
        r
    }

    /// The first match in the right half, column by column from the right edge
    /// towards the middle, each column from the top.
    pub fn search_color_right_half(&self, screen: &Screen, targets: &[ColorTarget]) -> (r: Option<
        Point,
    >)
        requires
            self.wf(),
        ensures
            is_first_hit(
                r,
                screen,
                targets@,
                self.point2.x as int,
                self.point2.x - self.spec_right_half().point1.x + 1,
                false,
                self.point1.y as int,
                self.point2.y as int,
            ),
            r == self.right_half_first(screen, targets@),
    {
        let half = self.right_half();
        let count: u64 = half.point2.x as u64 - half.point1.x as u64 + 1;
        let r = search_color_impl(screen, targets, half.point2.x, count, false, half.point1.y, half.point2.y);
        proof {
            lemma_first_hit_is(
                r,
                screen,
                targets@,
                self.point2.x as int,
                count as int,
                false,
                self.point1.y as int,
                self.point2.y as int,
            );
        }
        r
    }
}

/// The two halves of a well-formed region keep its full height, start at its left
/// and right edges, and leave no column of it uncovered: they meet or overlap at
/// the middle column.
pub proof fn lemma_halves_cover(r: Region)
    requires
        r.wf(),
    ensures
        r.spec_left_half().wf(),
        r.spec_right_half().wf(),
        r.spec_left_half().point1 == r.point1,
        r.spec_right_half().point2 == r.point2,
        r.spec_left_half().point1.y == r.point1.y && r.spec_left_half().point2.y == r.point2.y,
        r.spec_right_half().point1.y == r.point1.y && r.spec_right_half().point2.y == r.point2.y,
        r.spec_right_half().point1.x <= r.spec_left_half().point2.x + 1,
        r.spec_left_half().point2.x <= r.spec_right_half().point1.x,
{
}

/// The middle-row scan looks at the middle row only: when no pixel of that row in
/// the region matches it finds nothing, whatever the other rows hold; when `x` is the
/// leftmost matching column of that row, it finds exactly `(x, mid_y)`.
pub proof fn lemma_mid_row_scan(region: Region, screen: &Screen, targets: Seq<ColorTarget>)
    ensures
        (forall|x: int|
            region.point1.x <= x <= region.point2.x ==> !#[trigger] hit(screen, targets, x, region.mid_y()))
            ==> region.mid_row_first(screen, targets) is None,
        forall|x: int|
            region.point1.x <= x <= region.point2.x && #[trigger] hit(screen, targets, x, region.mid_y())
                && (forall|x2: int| region.point1.x <= x2 < x ==> !#[trigger] hit(screen, targets, x2, region.mid_y()))
                ==> region.mid_row_first(screen, targets) == Some(
                Point { x: x as u32, y: region.mid_y() as u32 },
            ),
{
    let hits = row_hits(screen, targets, region.point1.x as int, region.span_width(), region.mid_y());
    lemma_first_true_least(hits);
    assert forall|x: int|
        region.point1.x <= x <= region.point2.x && #[trigger] hit(screen, targets, x, region.mid_y())
            && (forall|x2: int| region.point1.x <= x2 < x ==> !#[trigger] hit(screen, targets, x2, region.mid_y()))
            implies region.mid_row_first(screen, targets) == Some(
            Point { x: x as u32, y: region.mid_y() as u32 },
        ) by {
        let i = x - region.point1.x;
        assert(hits[i]);
        match first_true(hits) {
            Some(k) => {
                if k < i {
                    assert(!hit(screen, targets, region.point1.x + k, region.mid_y()));
                } else if k > i {
                    assert(!hits[i]);
                }
            },
            None => {
                assert(!hits[i]);
            },
        }
    }
    if forall|x: int|
        region.point1.x <= x <= region.point2.x ==> !#[trigger] hit(screen, targets, x, region.mid_y()) {
        match first_true(hits) {
            Some(k) => {
                assert(hits[k]);
                assert(!hit(screen, targets, region.point1.x + k, region.mid_y()));
            },
            None => {},
        }
    }
}

/// `v` capped at `u32::MAX`.
pub open spec fn cap_u32(v: int) -> int {
    if v > u32::MAX {
        u32::MAX as int
    } else {
        v
    }
}

fn capped(v: u64) -> (r: u32)
    ensures
        r == cap_u32(v as int),
{
    if v > u32::MAX as u64 {
        u32::MAX
    } else {
        v as u32
    }
}

/// The white of the game's menu button in the top left corner.
pub open spec fn menu_button_color() -> ColorTarget {
    target(0xf7, 0xf7, 0xf8, 2)
}

/// Where to park the cursor for region `r`: left of and below it, but not past the
/// screen margins of 10%.
pub open spec fn safe_candidate(d: Dimensions, r: Region) -> Point {
    let margin_x = d.width * 10 / 100;
    let allowed_max_y = d.height - d.height * 10 / 100;
    let x = if r.point1.x >= 20 {
        r.point1.x - 20
    } else {
        0
    };
    let y = r.point2.y + 20;
    Point {
        x: if x >= margin_x {
            x as u32
        } else {
            margin_x as u32
        },
        y: if y <= allowed_max_y {
            y as u32
        } else {
            allowed_max_y as u32
        },
    }
}

pub open spec fn point_key(p: Point) -> int {
    p.x + p.y
}

/// Whether `(x, y)` lies in `r`, edges included.
pub open spec fn inside(r: Region, x: int, y: int) -> bool {
    r.point1.x <= x <= r.point2.x && r.point1.y <= y <= r.point2.y
}

/// Whether `(x, y)` lies in one of `regions`.
pub open spec fn covered(regions: Seq<&Region>, x: int, y: int) -> bool {
    exists|i: int| 0 <= i < regions.len() && inside(*regions[i], x, y)
}

/// Whether `(x, y)` lies inside the 10% margins of the screen.
pub open spec fn in_margins(d: Dimensions, x: int, y: int) -> bool {
    let mx = d.width * 10 / 100;
    let my = d.height * 10 / 100;
    mx <= x <= d.width - mx && my <= y <= d.height - my
}

/// The candidate of region `i` lies in no region.
pub open spec fn free_candidate(d: Dimensions, regions: Seq<&Region>, i: int) -> bool {
    let p = safe_candidate(d, *regions[i]);
    !covered(regions, p.x as int, p.y as int)
}

fn is_free(regions: &Vec<&Region>, x: u32, y: u32) -> (r: bool)
    ensures
        r == !covered(regions@, x as int, y as int),
{
    let mut i: usize = 0;
    while i < regions.len()
        invariant
            i <= regions@.len(),
            forall|k: int| 0 <= k < i ==> !inside(*#[trigger] regions@[k], x as int, y as int),
        decreases regions@.len() - i,
    {
        let r = regions[i];
        if r.point1.x <= x && x <= r.point2.x && r.point1.y <= y && y <= r.point2.y {
            assert(inside(*regions@[i as int], x as int, y as int));
            return false;
        }
        i = i + 1;
    }
    true
}

impl Dimensions {
    /// The menu button: in the column at 2% of the width, the lowest pixel of the
    /// upper half (scanning upwards from the middle row) that has the button's white.
    pub fn find_roblox_button(&self, img: &Screen) -> (r: Option<Point>)
        ensures
            r matches Some(p) ==> {
                &&& p.x == self.width * 2 / 100
                &&& p.y <= self.height / 2
                &&& hit(img, seq![menu_button_color()], p.x as int, p.y as int)
                &&& forall|y: int|
                    p.y < y <= self.height / 2 ==> !#[trigger] hit(
                        img,
                        seq![menu_button_color()],
                        self.width * 2 / 100,
                        y,
                    )
            },
            r is None ==> forall|y: int|
                0 <= y <= self.height / 2 ==> !#[trigger] hit(
                    img,
                    seq![menu_button_color()],
                    self.width * 2 / 100,
                    y,
                ),
    {
        let color = [ColorTarget { color: Rgb { r: 0xf7, g: 0xf7, b: 0xf8 }, variation: 2 }];
        assert(color@ =~= seq![menu_button_color()]);
        let x = (self.width as u64 * 2 / 100) as u32;
        let mut y: u32 = self.height / 2;
        loop
            invariant
                y <= self.height / 2,
                x == self.width * 2 / 100,
                color@ == seq![menu_button_color()],
                forall|y2: int|
                    y < y2 <= self.height / 2 ==> !#[trigger] hit(img, seq![menu_button_color()], x as int, y2),
            decreases y,
        {
            if hit_at(img, color.as_slice(), x, y) {
                return Some(Point { x, y });
            }
            if y == 0 {
                return None;
            }
            y = y - 1;
        }
    }

    /// Where to park the cursor away from all `regions`. Of the candidates left of and
    /// below each region that lie in no region, the first with the least `x + y`;
    /// when every candidate lies in some region, the first point in no region of the
    /// box inside the 10% screen margins, scanning rows upwards from the bottom and
    /// each row from the left; `None` only when that box is covered too.
    pub fn calculate_safe_point(&self, regions: &Vec<&Region>) -> (r: Option<Point>)
        ensures
            r matches Some(p) ==> !covered(regions@, p.x as int, p.y as int),
            (exists|i: int| 0 <= i < regions@.len() && #[trigger] free_candidate(*self, regions@, i)) ==> (
            r matches Some(p) && exists|i: int|
                0 <= i < regions@.len() && free_candidate(*self, regions@, i) && p == safe_candidate(
                    *self,
                    *regions@[i],
                ) && (forall|j: int|
                    0 <= j < regions@.len() && #[trigger] free_candidate(*self, regions@, j) ==> point_key(p)
                        <= point_key(safe_candidate(*self, *regions@[j]))) && (forall|j: int|
                    0 <= j < i && #[trigger] free_candidate(*self, regions@, j) ==> point_key(p) < point_key(
                        safe_candidate(*self, *regions@[j]),
                    ))),
            (forall|i: int| 0 <= i < regions@.len() ==> !#[trigger] free_candidate(*self, regions@, i))
                ==> match r {
                Some(p) => {
                    &&& in_margins(*self, p.x as int, p.y as int)
                    &&& forall|x: int, y: int|
                        in_margins(*self, x, y) && (y > p.y || (y == p.y && x < p.x)) ==> #[trigger] covered(
                            regions@,
                            x,
                            y,
                        )
                },
                None => forall|x: int, y: int| in_margins(*self, x, y) ==> #[trigger] covered(regions@, x, y),
            },
    {
        let margin_x = (self.width as u64 * 10 / 100) as u32;
        let margin_y = (self.height as u64 * 10 / 100) as u32;
        let allowed_max_x = self.width - margin_x;
        let allowed_max_y = self.height - margin_y;
        let mut best: Option<Point> = None;
        let ghost mut best_i: int = 0;
        let mut i: usize = 0;
        while i < regions.len()
            invariant
                i <= regions@.len(),
                margin_x == self.width * 10 / 100,
                allowed_max_y == self.height - self.height * 10 / 100,
                best is None <==> forall|j: int| 0 <= j < i ==> !#[trigger] free_candidate(*self, regions@, j),
                best matches Some(p) ==> 0 <= best_i < i && free_candidate(*self, regions@, best_i) && p
                    == safe_candidate(*self, *regions@[best_i]) && (forall|j: int|
                    0 <= j < i && #[trigger] free_candidate(*self, regions@, j) ==> point_key(p) <= point_key(
                        safe_candidate(*self, *regions@[j]),
                    )) && (forall|j: int|
                    0 <= j < best_i && #[trigger] free_candidate(*self, regions@, j) ==> point_key(p)
                        < point_key(safe_candidate(*self, *regions@[j]))),
            decreases regions@.len() - i,
        {
            let r = regions[i];
            let x0 = r.point1.x.saturating_sub(20);
            let y0: u64 = r.point2.y as u64 + 20;
            let candidate = Point {
                x: if x0 >= margin_x {
                    x0
                } else {
                    margin_x
                },
                y: if y0 <= allowed_max_y as u64 {
                    y0 as u32
                } else {
                    allowed_max_y
                },
            };
            assert(candidate == safe_candidate(*self, *regions@[i as int]));
            let free = is_free(regions, candidate.x, candidate.y);
            assert(free == free_candidate(*self, regions@, i as int));
            if free {
                match best {
                    Some(b) => {
                        if (candidate.x as u64 + candidate.y as u64) < (b.x as u64 + b.y as u64) {
                            best = Some(candidate);
                            proof {
                                best_i = i as int;
                            }
                        }
                    },
                    None => {
                        best = Some(candidate);
                        proof {
                            best_i = i as int;
                        }
                    },
                }
            }
            i = i + 1;
        }
        if best.is_some() {
            return best;
        }
        if margin_y > allowed_max_y || margin_x > allowed_max_x {
            return None;
        }
        let mut y: u64 = allowed_max_y as u64 + 1;
        while y > margin_y as u64
            invariant
                margin_y <= y <= allowed_max_y + 1,
                margin_x <= allowed_max_x,
                margin_x == self.width * 10 / 100,
                margin_y == self.height * 10 / 100,
                allowed_max_x == self.width - margin_x,
                allowed_max_y == self.height - margin_y,
                forall|j: int| 0 <= j < regions@.len() ==> !#[trigger] free_candidate(*self, regions@, j),
                forall|x2: int, y2: int|
                    in_margins(*self, x2, y2) && y2 >= y ==> #[trigger] covered(regions@, x2, y2),
            decreases y,
        {
            y = y - 1;
            let mut x: u64 = margin_x as u64;
            while x <= allowed_max_x as u64
                invariant
                    margin_x <= x <= allowed_max_x + 1,
                    margin_y <= y <= allowed_max_y,
                    margin_x == self.width * 10 / 100,
                    margin_y == self.height * 10 / 100,
                    allowed_max_x == self.width - margin_x,
                    allowed_max_y == self.height - margin_y,
                    forall|j: int| 0 <= j < regions@.len() ==> !#[trigger] free_candidate(*self, regions@, j),
                    forall|x2: int, y2: int|
                        in_margins(*self, x2, y2) && (y2 > y || (y2 == y && x2 < x)) ==> #[trigger] covered(
                            regions@,
                            x2,
                            y2,
                        ),
                decreases allowed_max_x + 1 - x,
            {
                if is_free(regions, x as u32, y as u32) {
                    return Some(Point { x: x as u32, y: y as u32 });
                }
                x = x + 1;
            }
        }
        None
    }

    /// The playfield `calculate_mini_game_region` returns.
    pub open spec fn mini_game_region_spec(&self) -> Region {
        Region {
            point1: Point { x: (self.width * 28 / 100) as u32, y: (self.height * 79 / 100) as u32 },
            point2: Point { x: (self.width * 72 / 100) as u32, y: (self.height * 90 / 100) as u32 },
        }
    }

    /// The minigame's playfield: 28% to 72% of the width, 79% to 90% of the height.
    pub fn calculate_mini_game_region(&self) -> (r: MiniGame)
        ensures
            r.wf(),
            r.spec_rod() is None,
            r.spec_region() == self.mini_game_region_spec(),
    {
        let w = self.width as u64;
        let h = self.height as u64;
        assert(w * 28 / 100 <= w * 72 / 100 < u32::MAX) by (nonlinear_arith)
            requires
                w <= u32::MAX,
        ;
        assert(h * 79 / 100 <= h * 90 / 100 <= h) by (nonlinear_arith)
            requires
                h <= u32::MAX,
        ;
        MiniGame::new(
            Region {
                point1: Point { x: (w * 28 / 100) as u32, y: (h * 79 / 100) as u32 },
                point2: Point { x: (w * 72 / 100) as u32, y: (h * 90 / 100) as u32 },
            },
        )
    }

    /// The region `calculate_shake_region` returns.
    pub open spec fn calculate_shake_region_spec(&self, roblox_button_pos: Option<Point>) -> Region {
        Region {
            point1: Point {
                x: (self.width * 5 / 1000) as u32,
                y: match roblox_button_pos {
                    Some(p) => cap_u32(p.y + self.height * 125 / 1000) as u32,
                    None => (self.height * 23 / 100) as u32,
                },
            },
            point2: Point {
                x: (self.width * 84 / 100) as u32,
                y: match roblox_button_pos {
                    Some(p) => cap_u32(p.y + self.height * 60 / 100) as u32,
                    None => (self.height * 65 / 100) as u32,
                },
            },
        }
    }

    /// Where the shake marker appears: 0.5% to 84% of the width, and 23% to 65% of the
    /// height, or, below a known menu button, 12.5% to 60% of the height under it.
    pub fn calculate_shake_region(&self, roblox_button_pos: Option<Point>) -> (r: Region)
        ensures
            r == self.calculate_shake_region_spec(roblox_button_pos),
            r.point1.x == self.width * 5 / 1000,
            r.point2.x == self.width * 84 / 100,
            roblox_button_pos is None ==> r.point1.y == self.height * 23 / 100 && r.point2.y
                == self.height * 65 / 100,
            roblox_button_pos matches Some(p) ==> r.point1.y == cap_u32(p.y + self.height * 125 / 1000)
                && r.point2.y == cap_u32(p.y + self.height * 60 / 100),
    {
        let w = self.width as u64;
        let h = self.height as u64;
        let x1 = (w * 5 / 1000) as u32;
        let x2 = (w * 84 / 100) as u32;
        match roblox_button_pos {
            Some(p) => Region {
                point1: Point { x: x1, y: capped(p.y as u64 + h * 125 / 1000) },
                point2: Point { x: x2, y: capped(p.y as u64 + h * 60 / 100) },
            },
            None => Region {
                point1: Point { x: x1, y: (h * 23 / 100) as u32 },
                point2: Point { x: x2, y: (h * 65 / 100) as u32 },
            },
        }
    }
}

} // verus!
