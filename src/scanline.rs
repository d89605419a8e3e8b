//! Brightness segmentation of one row of pixels: an adaptive threshold at a fixed
//! rank and the longest bright segment, with short dark gaps bridged.
use vstd::prelude::*;

verus! {

/// How many levels of `s` are at most `t`.
pub open spec fn count_at_most(s: Seq<u8>, t: int) -> nat
    decreases s.len(),
{
    if s.len() == 0 {
        0
    } else {
        count_at_most(s.drop_last(), t) + if s.last() <= t {
            1nat
        } else {
            0nat
        }
    }
}

/// The least level from `t` on at which more than `k` levels of `s` are at most
/// that level: the `k`-th smallest level (from 0) once `t` is 0.
pub open spec fn rank_value_from(s: Seq<u8>, k: int, t: int) -> int
    decreases 255 - t,
{
    if t >= 255 || count_at_most(s, t) > k {
        t
    } else {
        rank_value_from(s, k, t + 1)
    }
}

/// Rank of the threshold among the sorted levels: 97% of the way up.
pub open spec fn threshold_rank(n: int) -> int {
    n * 97 / 100
}

/// The adaptive threshold of a row: its level at the 97th percentile.
pub open spec fn percentile_level(s: Seq<u8>) -> int {
    rank_value_from(s, threshold_rank(s.len() as int), 0)
}

/// The level at rank `len * 97 / 100` of the sorted levels: the least level `t`
/// such that more than that many levels are at most `t`.
pub fn percentile_threshold(levels: &Vec<u8>) -> (r: u8)
    requires
        levels@.len() <= u32::MAX,
    ensures
        r == percentile_level(levels@),
{
    let k: u64 = levels.len() as u64 * 97 / 100;
    let mut t: u16 = 0;
    while t < 255
        invariant
            t <= 255,
            levels@.len() <= u32::MAX,
            k == threshold_rank(levels@.len() as int),
            rank_value_from(levels@, k as int, 0) == rank_value_from(levels@, k as int, t as int),
        decreases 255 - t,
    {
        let mut count: u64 = 0;
        let mut i: usize = 0;
        while i < levels.len()
            invariant
                i <= levels@.len(),
                levels@.len() <= u32::MAX,
                count == count_at_most(levels@.take(i as int), t as int),
                count <= i,
            decreases levels@.len() - i,
        {
            assert(levels@.take(i as int + 1).drop_last() =~= levels@.take(i as int));
            if levels[i] as u16 <= t {
                count = count + 1;
            }
            i = i + 1;
        }
        assert(levels@.take(levels@.len() as int) =~= levels@);
        if count > k {
            return t as u8;
        }
        t = t + 1;
    }
    255
}

/// A stretch of bright positions `(first, last)` while the row is read left to right.
pub type Span = (int, int);

/// State of the left-to-right merge: the segment still open and the longest so far.
pub type MergeState = (Option<Span>, Option<Span>);

/// The longer of `best` and `seg`; on equal lengths, `seg`.
pub open spec fn keep_longest(best: Option<Span>, seg: Span) -> Option<Span> {
    match best {
        Some(b) => if seg.1 - seg.0 >= b.1 - b.0 {
            Some(seg)
        } else {
            best
        },
        None => Some(seg),
    }
}

/// One step of the merge at position `x`: a bright position extends the open segment
/// (or opens one); a dark one closes it once more than `tolerance` positions lie
/// between it and the segment's last bright position.
pub open spec fn merge_step(state: MergeState, x: int, bright: bool, tolerance: int) -> MergeState {
    let (open, best) = state;
    if bright {
        let seg = match open {
            Some(s) => (s.0, x),
            None => (x, x),
        };
        (Some(seg), keep_longest(best, seg))
    } else {
        match open {
            Some(s) => if x - s.1 > tolerance {
                (None, best)
            } else {
                (open, best)
            },
            None => (None, best),
        }
    }
}

/// The merge state after reading all of `s`, positions at or above `threshold` bright.
pub open spec fn merge_scan(s: Seq<u8>, threshold: int, tolerance: int) -> MergeState
    decreases s.len(),
{
    if s.len() == 0 {
        (None, None)
    } else {
        merge_step(
            merge_scan(s.drop_last(), threshold, tolerance),
            s.len() - 1,
            s.last() >= threshold,
            tolerance,
        )
    }
}

/// The longest bright segment of `s` (the rightmost of equal ones), where bright
/// stretches apart by at most `tolerance` dark positions count as one.
pub open spec fn longest_segment(s: Seq<u8>, threshold: int, tolerance: int) -> Option<Span> {
    merge_scan(s, threshold, tolerance).1
}

pub open spec fn span_of(r: Option<(usize, usize)>) -> Option<Span> {
    match r {
        Some(p) => Some((p.0 as int, p.1 as int)),
        None => None,
    }
}

/// The first and last positions of the longest bright segment of `levels`.
pub fn longest_bright_segment(levels: &Vec<u8>, threshold: u8, tolerance: u32) -> (r: Option<
    (usize, usize),
>)
    ensures
        span_of(r) == longest_segment(levels@, threshold as int, tolerance as int),
        r matches Some(p) ==> p.0 <= p.1 < levels@.len(),
{
    let mut open: Option<(usize, usize)> = None;
    let mut best: Option<(usize, usize)> = None;
    let mut x: usize = 0;
    while x < levels.len()
        invariant
            x <= levels@.len(),
            (span_of(open), span_of(best)) == merge_scan(
                levels@.take(x as int),
                threshold as int,
                tolerance as int,
            ),
            open matches Some(p) ==> p.0 <= p.1 < x,
            best matches Some(p) ==> p.0 <= p.1 < x,
        decreases levels@.len() - x,
    {
        assert(levels@.take(x as int + 1).drop_last() =~= levels@.take(x as int));
        if levels[x] >= threshold {
            let seg = match open {
                Some(s) => (s.0, x),
                None => (x, x),
            };
            open = Some(seg);
            best = match best {
                Some(b) => if seg.1 - seg.0 >= b.1 - b.0 {
                    Some(seg)
                } else {
                    Some(b)
                },
                None => Some(seg),
            };
        } else {
            match open {
                Some(s) => {
                    if x - s.1 > tolerance as usize {
                        open = None;
                    }
                },
                None => {},
            }
        }
        x = x + 1;
    }
    assert(levels@.take(levels@.len() as int) =~= levels@);
    best
}

proof fn lemma_scan_step(s: Seq<u8>, threshold: int, tolerance: int, n: int)
    requires
        0 <= n < s.len(),
    ensures
        merge_scan(s.take(n + 1), threshold, tolerance) == merge_step(
            merge_scan(s.take(n), threshold, tolerance),
            n,
            s[n] >= threshold,
            tolerance,
        ),
{
    assert(s.take(n + 1).drop_last() =~= s.take(n));
}

/// Dark positions never change the longest segment.
proof fn lemma_dark_keeps_best(s: Seq<u8>, threshold: int, tolerance: int, from: int, to: int)
    requires
        0 <= from <= to <= s.len(),
        forall|i: int| from <= i < to ==> s[i] < threshold,
    ensures
        merge_scan(s.take(to), threshold, tolerance).1 == merge_scan(s.take(from), threshold, tolerance).1,
    decreases to - from,
{
    if to > from {
        lemma_dark_keeps_best(s, threshold, tolerance, from, to - 1);
        lemma_scan_step(s, threshold, tolerance, to - 1);
    }
}

/// Dark positions with no segment open change nothing.
proof fn lemma_dark_closed(s: Seq<u8>, threshold: int, tolerance: int, from: int, to: int)
    requires
        0 <= from <= to <= s.len(),
        forall|i: int| from <= i < to ==> s[i] < threshold,
        merge_scan(s.take(from), threshold, tolerance).0 is None,
    ensures
        merge_scan(s.take(to), threshold, tolerance) == merge_scan(s.take(from), threshold, tolerance),
    decreases to - from,
{
    if to > from {
        lemma_dark_closed(s, threshold, tolerance, from, to - 1);
        lemma_scan_step(s, threshold, tolerance, to - 1);
    }
}

/// Dark positions within the tolerance of the open segment's last bright position
/// change nothing.
proof fn lemma_dark_bridged(s: Seq<u8>, threshold: int, tolerance: int, from: int, to: int, last: int)
    requires
        0 <= from <= to <= s.len(),
        forall|i: int| from <= i < to ==> s[i] < threshold,
        merge_scan(s.take(from), threshold, tolerance).0 matches Some(seg) && seg.1 == last,
        to - 1 - last <= tolerance,
    ensures
        merge_scan(s.take(to), threshold, tolerance) == merge_scan(s.take(from), threshold, tolerance),
    decreases to - from,
{
    if to > from {
        lemma_dark_bridged(s, threshold, tolerance, from, to - 1, last);
        lemma_scan_step(s, threshold, tolerance, to - 1);
    }
}

/// A bright run from `a` to `e` extends the open segment (or opens one at `a`), and
/// the longest segment becomes the longer of the earlier one and the extended one.
proof fn lemma_bright_run(s: Seq<u8>, threshold: int, tolerance: int, a: int, e: int, start: int)
    requires
        0 <= start <= a <= e < s.len(),
        forall|i: int| a <= i <= e ==> s[i] >= threshold,
        match merge_scan(s.take(a), threshold, tolerance).0 {
            Some(seg) => seg.0 == start,
            None => start == a,
        },
    ensures
        merge_scan(s.take(e + 1), threshold, tolerance) == (
            Some((start, e)),
            keep_longest(merge_scan(s.take(a), threshold, tolerance).1, (start, e)),
        ),
    decreases e - a,
{
    lemma_scan_step(s, threshold, tolerance, e);
    if e > a {
        lemma_bright_run(s, threshold, tolerance, a, e - 1, start);
    }
}

/// One bright run: positions `p .. p + len` at or above the threshold, all others
/// below it. The longest segment is exactly that run, wherever it lies and whatever
/// the tolerance.
pub proof fn lemma_single_run(s: Seq<u8>, threshold: int, tolerance: int, p: int, len: int)
    requires
        0 <= p,
        1 <= len,
        p + len <= s.len(),
        tolerance >= 0,
        forall|i: int| 0 <= i < s.len() ==> (s[i] >= threshold <==> p <= i < p + len),
    ensures
        longest_segment(s, threshold, tolerance) == Some((p, p + len - 1)),
{
    assert(s.take(0) =~= Seq::<u8>::empty());
    lemma_dark_closed(s, threshold, tolerance, 0, p);
    lemma_bright_run(s, threshold, tolerance, p, p + len - 1, p);
    lemma_dark_keeps_best(s, threshold, tolerance, p + len, s.len() as int);
    assert(s.take(s.len() as int) =~= s);
}

/// Two bright runs, `a1 ..= e1` and `a2 ..= e2`, with dark positions between them
/// and everywhere else. Across a gap of at most `tolerance` dark positions they merge
/// into one segment from `a1` to `e2`; across a wider gap they stay apart and the
/// longer one is the longest segment (the right one when they are equal).
pub proof fn lemma_two_runs(
    s: Seq<u8>,
    threshold: int,
    tolerance: int,
    a1: int,
    e1: int,
    a2: int,
    e2: int,
)
    requires
        0 <= a1 <= e1,
        e1 + 1 < a2 <= e2 < s.len(),
        tolerance >= 0,
        forall|i: int|
            0 <= i < s.len() ==> (s[i] >= threshold <==> (a1 <= i <= e1 || a2 <= i <= e2)),
    ensures
        a2 - e1 - 1 <= tolerance ==> longest_segment(s, threshold, tolerance) == Some((a1, e2)),
        a2 - e1 - 1 > tolerance ==> longest_segment(s, threshold, tolerance) == if e2 - a2 >= e1 - a1 {
            Some((a2, e2))
        } else {
            Some((a1, e1))
        },
{
    assert(s.take(0) =~= Seq::<u8>::empty());
    lemma_dark_closed(s, threshold, tolerance, 0, a1);
    lemma_bright_run(s, threshold, tolerance, a1, e1, a1);
    if a2 - e1 - 1 <= tolerance {
        lemma_dark_bridged(s, threshold, tolerance, e1 + 1, a2, e1);
        lemma_bright_run(s, threshold, tolerance, a2, e2, a1);
    } else {
        let c = e1 + tolerance + 1;
        lemma_dark_bridged(s, threshold, tolerance, e1 + 1, c, e1);
        lemma_scan_step(s, threshold, tolerance, c);
        lemma_dark_closed(s, threshold, tolerance, c + 1, a2);
        lemma_bright_run(s, threshold, tolerance, a2, e2, a2);
    }
    lemma_dark_keeps_best(s, threshold, tolerance, e2 + 1, s.len() as int);
    assert(s.take(s.len() as int) =~= s);
}

proof fn lemma_count_all(s: Seq<u8>, t: int)
    requires
        forall|i: int| 0 <= i < s.len() ==> s[i] <= t,
    ensures
        count_at_most(s, t) == s.len(),
    decreases s.len(),
{
    if s.len() > 0 {
        lemma_count_all(s.drop_last(), t);
    }
}

/// Levels above `t` on `p .. p + len` leave at most the other positions at or below `t`.
proof fn lemma_count_without_run(s: Seq<u8>, t: int, p: int, len: int, n: int)
    requires
        0 <= p,
        0 <= len,
        p + len <= s.len(),
        0 <= n <= s.len(),
        forall|i: int| p <= i < p + len ==> s[i] > t,
    ensures
        count_at_most(s.take(n), t) <= n - (if n <= p {
            0
        } else if n >= p + len {
            len
        } else {
            n - p
        }),
    decreases n,
{
    if n > 0 {
        lemma_count_without_run(s, t, p, len, n - 1);
        assert(s.take(n).drop_last() =~= s.take(n - 1));
    }
}

proof fn lemma_rank_reaches(s: Seq<u8>, k: int, t: int, top: int)
    requires
        0 <= t <= top <= 255,
        forall|u: int| t <= u < top ==> #[trigger] count_at_most(s, u) <= k,
        count_at_most(s, top) > k,
    ensures
        rank_value_from(s, k, t) == top,
    decreases top - t,
{
    if t < top {
        lemma_rank_reaches(s, k, t + 1, top);
    }
}

/// A row at one dark level with one bright run at a brighter level, the run long
/// enough to reach the 97th percentile: the adaptive threshold is the bright level,
/// so the detected bar is exactly the run, `len` pixels from position `p`, wherever
/// it lies.
pub proof fn lemma_single_bright_run(s: Seq<u8>, p: int, len: int, dark: u8, bright: u8, tolerance: int)
    requires
        0 <= p,
        1 <= len,
        p + len <= s.len(),
        dark < bright,
        tolerance >= 0,
        s.len() - len <= threshold_rank(s.len() as int),
        forall|i: int| 0 <= i < s.len() ==> s[i] == if p <= i < p + len {
            bright
        } else {
            dark
        },
    ensures
        percentile_level(s) == bright,
        longest_segment(s, percentile_level(s), tolerance) == Some((p, p + len - 1)),
{
    let n = s.len() as int;
    let k = threshold_rank(n);
    assert(k < n) by (nonlinear_arith)
        requires
            k == n * 97 / 100,
            n >= 1,
    ;
    assert(s.take(n) =~= s);
    assert forall|u: int| 0 <= u < bright implies #[trigger] count_at_most(s, u) <= k by {
        lemma_count_without_run(s, u, p, len, n);
    }
    lemma_count_all(s, bright as int);
    lemma_rank_reaches(s, k, 0, bright as int);
    lemma_single_run(s, bright as int, tolerance, p, len);
}

} // verus!
