//! Reading what a helper process printed: the block of lines between two marker
//! lines, and a name among the names of running processes.
use vstd::prelude::*;

verus! {

/// Whether `marker` occurs in `line` (an empty marker occurs in every line).
pub open spec fn occurs_in(line: Seq<u8>, marker: Seq<u8>) -> bool {
    exists|i: int|
        0 <= i <= line.len() - marker.len() && #[trigger] line.subrange(i, i + marker.len()) == marker
}

fn matches_at(line: &[u8], marker: &[u8], i: usize) -> (r: bool)
    requires
        i + marker@.len() <= line@.len(),
    ensures
        r == (line@.subrange(i as int, i + marker@.len()) == marker@),
{
    let mut j: usize = 0;
    assert(line@.len() == line.len());
    while j < marker.len()
        invariant
            i + marker@.len() <= line@.len(),
            line@.len() <= usize::MAX,
            j <= marker@.len(),
            forall|m: int| 0 <= m < j ==> line@[i + m] == marker@[m],
        decreases marker@.len() - j,
    {
        if line[i + j] != marker[j] {
            assert(line@.subrange(i as int, i + marker@.len())[j as int] != marker@[j as int]);
            return false;
        }
        j = j + 1;
    }
    assert(line@.subrange(i as int, i + marker@.len()) =~= marker@);
    true
}

/// Whether `marker` occurs in `line`.
pub fn occurs(line: &[u8], marker: &[u8]) -> (r: bool)
    ensures
        r == occurs_in(line@, marker@),
{
    if marker.len() > line.len() {
        return false;
    }
    let last = line.len() - marker.len();
    let mut i: usize = 0;
    loop
        invariant
            i <= last,
            last == line@.len() - marker@.len(),
            marker@.len() <= line@.len(),
            forall|k: int| 0 <= k < i ==> #[trigger] line@.subrange(k, k + marker@.len()) != marker@,
        decreases last - i,
    {
        if matches_at(line, marker, i) {
            return true;
        }
        if i == last {
            return false;
        }
        i = i + 1;
    }
}

/// The last line before line `end` that holds the marker.
pub open spec fn last_marked(lines: Seq<Vec<u8>>, marker: Seq<u8>, end: int) -> Option<int>
    decreases end,
{
    if end <= 0 {
        None
    } else if occurs_in(lines[end - 1]@, marker) {
        Some(end - 1)
    } else {
        last_marked(lines, marker, end - 1)
    }
}

/// The lines strictly between the last two marker lines, as a range `from .. to`;
/// from the start when only one marker line exists, and empty without one.
pub open spec fn marked_range(lines: Seq<Vec<u8>>, marker: Seq<u8>) -> (int, int) {
    match last_marked(lines, marker, lines.len() as int) {
        None => (0, 0),
        Some(k2) => match last_marked(lines, marker, k2) {
            Some(k1) => (k1 + 1, k2),
            None => (0, k2),
        },
    }
}

fn last_marked_before(lines: &Vec<Vec<u8>>, marker: &[u8], end: usize) -> (r: Option<usize>)
    requires
        end <= lines@.len(),
    ensures
        r is None <==> last_marked(lines@, marker@, end as int) is None,
        r matches Some(k) ==> last_marked(lines@, marker@, end as int) == Some(k as int) && k < end,
{
    let mut k: usize = end;
    while k > 0
        invariant
            k <= end <= lines@.len(),
            last_marked(lines@, marker@, end as int) == last_marked(lines@, marker@, k as int),
        decreases k,
    {
        if occurs(lines[k - 1].as_slice(), marker) {
            return Some(k - 1);
        }
        k = k - 1;
    }
    None
}

/// The range of lines printed between the two last lines that hold `marker` (see
/// `marked_range`).
pub fn marked_block(lines: &Vec<Vec<u8>>, marker: &[u8]) -> (r: (usize, usize))
    ensures
        (r.0 as int, r.1 as int) == marked_range(lines@, marker@),
        r.0 <= r.1 <= lines@.len(),
{
    match last_marked_before(lines, marker, lines.len()) {
        None => (0, 0),
        Some(k2) => match last_marked_before(lines, marker, k2) {
            Some(k1) => (k1 + 1, k2),
            None => (0, k2),
        },
    }
}

/// Whether two byte strings are equal.
fn same_bytes(a: &[u8], b: &[u8]) -> (r: bool)
    ensures
        r == (a@ == b@),
{
    if a.len() != b.len() {
        return false;
    }
    let mut i: usize = 0;
    while i < a.len()
        invariant
            a@.len() == b@.len(),
            i <= a@.len(),
            forall|k: int| 0 <= k < i ==> a@[k] == b@[k],
        decreases a@.len() - i,
    {
        if a[i] != b[i] {
            return false;
        }
        i = i + 1;
    }
    assert(a@ =~= b@);
    true
}

/// Whether `name` is one of `names`.
pub fn any_named(names: &Vec<Vec<u8>>, name: &[u8]) -> (r: bool)
    ensures
        r == exists|i: int| 0 <= i < names@.len() && (#[trigger] names@[i])@ == name@,
{
    let mut i: usize = 0;
    while i < names.len()
        invariant
            i <= names@.len(),
            forall|k: int| 0 <= k < i ==> (#[trigger] names@[k])@ != name@,
        decreases names@.len() - i,
    {
        if same_bytes(names[i].as_slice(), name) {
            return true;
        }
        i = i + 1;
    }
    false
}

} // verus!
