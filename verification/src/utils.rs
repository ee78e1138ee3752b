//! Window arithmetic for showing a slice of a long list around a cursor.

use vstd::prelude::*;

verus! {

/// Largest list size, window size or cursor that the window arithmetic accepts.
pub const BORDER_LIMIT: isize = 0x0fff_ffff;

/// Largest bound or candidate that a range check accepts.
pub const CHECK_LIMIT: isize = 0x3fff_ffff;

/// A closed integer range `[range.0, range.1]` to check candidates against.
pub struct RangeCkecker {
    pub range: (isize, isize),
}

/// How far `candidate` lies under the range `[low, high]` (0 when it does not).
pub open spec fn under(low: int, candidate: int) -> int {
    if candidate < low {
        low - candidate
    } else {
        0
    }
}

/// How far `candidate` lies over the range `[low, high]` (0 when it does not).
pub open spec fn over(high: int, candidate: int) -> int {
    if candidate > high {
        candidate - high
    } else {
        0
    }
}

/// `candidate` moved into `[low, high]`; the upper bound wins where the range is empty.
pub open spec fn clamped(low: int, high: int, candidate: int) -> int {
    if candidate > high {
        high
    } else if candidate < low {
        low
    } else {
        candidate
    }
}

impl RangeCkecker {
    pub fn new(range: (isize, isize)) -> (checker: Self)
        ensures
            checker.range == range,
    {
        Self { range }
    }

    /// Returns `(missing below, checked candidate, excess above)`.
    pub fn check(&self, candidate: isize) -> (r: (isize, isize, isize))
        requires
            -CHECK_LIMIT <= self.range.0 <= CHECK_LIMIT,
            -CHECK_LIMIT <= self.range.1 <= CHECK_LIMIT,
            -CHECK_LIMIT <= candidate <= CHECK_LIMIT,
        ensures
            r.0 == under(self.range.0 as int, candidate as int),
            r.1 == clamped(self.range.0 as int, self.range.1 as int, candidate as int),
            r.2 == over(self.range.1 as int, candidate as int),
    {
        let mut overflow_low: isize = 0;
        let mut overflow_high: isize = 0;
        let mut checked: isize = candidate;
        if candidate < self.range.0 {
            overflow_high = self.range.0 - candidate;
            checked = self.range.0;
        }
        if candidate > self.range.1 {
            overflow_low = candidate - self.range.1;
            checked = self.range.1;
        }
        (overflow_high, checked, overflow_low)
    }
}

/// The window `(first row, cursor row inside the window, one past the last row)`
/// of a list of `lines_size` rows shown `slice_size - 1` rows at a time around
/// `line_index`.
///
/// The window is centred on the cursor, then pushed back inside the list where
/// it sticks out at the top, and, for a list longer than the window, where it
/// sticks out at the bottom.
pub open spec fn borders(lines_size: int, slice_size: int, line_index: int) -> (int, int, int) {
    let half = slice_size / 2;
    let odd = slice_size % 2;
    let top = line_index - half;
    let bottom = line_index + half - 2 + odd;
    let last = lines_size - 1;
    let missing_above = under(0, top);
    let excess_below = if lines_size > slice_size {
        over(last, bottom)
    } else {
        0
    };
    let first = clamped(0, last, top) - excess_below;
    let end = clamped(0, last, bottom) + missing_above;
    (
        if first > 0 { first } else { 0 },
        half + excess_below - missing_above,
        (if end < last { end } else { last }) + 1,
    )
}

/// Computes the part of a list to draw and the place of the cursor in it.
pub fn get_borders(lines_size: isize, slice_size: isize, line_index: isize) -> (r: (
    isize,
    isize,
    isize,
))
    requires
        -BORDER_LIMIT <= lines_size <= BORDER_LIMIT,
        0 <= slice_size <= BORDER_LIMIT,
        -BORDER_LIMIT <= line_index <= BORDER_LIMIT,
    ensures
        (r.0 as int, r.1 as int, r.2 as int) == borders(
            lines_size as int,
            slice_size as int,
            line_index as int,
        ),
{
    let checker = RangeCkecker::new((0, lines_size - 1));

    let slice_size_half = slice_size / 2;
    let odd = slice_size % 2;

    let candidate_high = line_index - slice_size_half;
    let candidate_low = line_index + slice_size_half - 2 + odd;

    let (overflow_high, mut checked_high, _) = checker.check(candidate_high);
    let (_, mut checked_low, mut overflow_low) = checker.check(candidate_low);

    if lines_size > slice_size {
        let slack: isize = lines_size - slice_size_half + 1;
        overflow_low += if slack < 0 { slack } else { 0 };
    } else {
        overflow_low = 0;
    }

    let lines_index_checked = slice_size_half + overflow_low - overflow_high;

    checked_high -= overflow_low;
    checked_high = if checked_high > 0 { checked_high } else { 0 };
    checked_low += overflow_high;
    checked_low = (if checked_low < lines_size - 1 { checked_low } else { lines_size - 1 }) + 1;

    (checked_high, lines_index_checked, checked_low)
}

/// For a cursor inside the list the window lies within the list and its cursor
/// row is the row of `line_index`. A window of two rows or more shows the
/// cursor, and cut out of a longer list it holds exactly `slice_size - 1` rows.
pub proof fn lemma_borders_in_list(lines_size: int, slice_size: int, line_index: int)
    requires
        0 <= line_index < lines_size,
        1 <= slice_size,
    ensures
        ({
            let r = borders(lines_size, slice_size, line_index);
            &&& 0 <= r.0 <= r.2 <= lines_size
            &&& r.0 + r.1 == line_index
            &&& 3 <= slice_size ==> r.0 <= line_index < r.2
            &&& 3 <= slice_size < lines_size ==> r.2 - r.0 == slice_size - 1
        }),
{
    let half = slice_size / 2;
    let odd = slice_size % 2;
    assert(2 * half + odd == slice_size);
}

} // verus!
