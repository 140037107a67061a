//! Minimum, average and maximum over a series, and daily rollups of an
//! hourly series in complete windows of 24 entries.

use vstd::prelude::*;

verus! {

/// Number of hourly entries in one rollup window.
pub const WINDOW: usize = 24;

/// Sum of a series.
pub open spec fn total(s: Seq<usize>) -> int
    decreases s.len(),
{
    if s.len() == 0 {
        0
    } else {
        total(s.drop_last()) + s.last()
    }
}

/// Smallest entry of a non-empty series.
pub open spec fn least(s: Seq<usize>) -> int
    decreases s.len(),
{
    if s.len() <= 1 {
        s[0] as int
    } else if (s.last() as int) < least(s.drop_last()) {
        s.last() as int
    } else {
        least(s.drop_last())
    }
}

/// Largest entry of a non-empty series.
pub open spec fn greatest(s: Seq<usize>) -> int
    decreases s.len(),
{
    if s.len() <= 1 {
        s[0] as int
    } else if (s.last() as int) > greatest(s.drop_last()) {
        s.last() as int
    } else {
        greatest(s.drop_last())
    }
}

/// Window `w` (zero based) of an hourly series.
pub open spec fn window(s: Seq<usize>, w: int) -> Seq<usize> {
    s.subrange(WINDOW * w, WINDOW * w + WINDOW)
}

/// `(min, average, max)` of a non-empty series, the average rounded down.
pub open spec fn summary(s: Seq<usize>) -> (int, int, int) {
    (least(s), total(s) / s.len() as int, greatest(s))
}

/// The smallest entry of a non-empty list.
pub fn min_usize(list: &[usize]) -> (r: usize)
    requires
        list.len() > 0,
    ensures
        r as int == least(list@),
{
    let mut best = list[0];
    let mut i: usize = 1;
    while i < list.len()
        invariant
            1 <= i <= list.len(),
            best as int == least(list@.subrange(0, i as int)),
        decreases list.len() - i,
    {
        assert(list@.subrange(0, i + 1).drop_last() =~= list@.subrange(0, i as int));
        if list[i] < best {
            best = list[i];
        }
        i = i + 1;
    }
    assert(list@.subrange(0, i as int) =~= list@);
    best
}

/// The largest entry of a non-empty list.
pub fn max_usize(list: &[usize]) -> (r: usize)
    requires
        list.len() > 0,
    ensures
        r as int == greatest(list@),
{
    let mut best = list[0];
    let mut i: usize = 1;
    while i < list.len()
        invariant
            1 <= i <= list.len(),
            best as int == greatest(list@.subrange(0, i as int)),
        decreases list.len() - i,
    {
        assert(list@.subrange(0, i + 1).drop_last() =~= list@.subrange(0, i as int));
        if list[i] > best {
            best = list[i];
        }
        i = i + 1;
    }
    assert(list@.subrange(0, i as int) =~= list@);
    best
}

/// Partial sums never exceed the whole sum of a list of naturals.
proof fn lemma_total_prefix(s: Seq<usize>, i: int)
    requires
        0 <= i <= s.len(),
    ensures
        0 <= total(s.subrange(0, i)) <= total(s),
    decreases s.len() - i,
{
    if i < s.len() {
        lemma_total_prefix(s, i + 1);
        assert(s.subrange(0, i + 1).drop_last() =~= s.subrange(0, i));
    } else {
        assert(s.subrange(0, i) =~= s);
    }
    lemma_total_nonnegative(s.subrange(0, i));
}

proof fn lemma_total_nonnegative(s: Seq<usize>)
    ensures
        total(s) >= 0,
    decreases s.len(),
{
    if s.len() > 0 {
        lemma_total_nonnegative(s.drop_last());
    }
}

/// The average of a non-empty list, rounded down.
pub fn avg_usize(list: &[usize]) -> (r: usize)
    requires
        list.len() > 0,
        total(list@) <= usize::MAX,
    ensures
        r as int == total(list@) / list.len() as int,
{
    let mut sum: usize = 0;
    let mut i: usize = 0;
    while i < list.len()
        invariant
            0 <= i <= list.len(),
            total(list@) <= usize::MAX,
            sum as int == total(list@.subrange(0, i as int)),
        decreases list.len() - i,
    {
        assert(list@.subrange(0, i + 1).drop_last() =~= list@.subrange(0, i as int));
        proof {
            lemma_total_prefix(list@, i + 1);
        }
        sum = sum + list[i];
        i = i + 1;
    }
    assert(list@.subrange(0, i as int) =~= list@);
    sum / list.len()
}

/// Each entry is at most `usize::MAX`, so a sum is at most the length
/// times that.
proof fn lemma_total_bounded(s: Seq<usize>)
    ensures
        total(s) <= s.len() * (usize::MAX as int),
    decreases s.len(),
{
    if s.len() > 0 {
        lemma_total_bounded(s.drop_last());
    }
}

/// The average of one window, rounded down; the sum is taken in 128 bits,
/// where the sum of a window of `usize` entries cannot overflow.
fn window_average(day: &[usize]) -> (r: usize)
    requires
        day.len() == WINDOW,
    ensures
        r as int == total(day@) / WINDOW as int,
{
    let mut sum: u128 = 0;
    let mut i: usize = 0;
    while i < day.len()
        invariant
            day.len() == WINDOW,
            0 <= i <= day.len(),
            sum as int == total(day@.subrange(0, i as int)),
        decreases day.len() - i,
    {
        assert(day@.subrange(0, i + 1).drop_last() =~= day@.subrange(0, i as int));
        proof {
            lemma_total_bounded(day@.subrange(0, i as int));
        }
        sum = sum + day[i] as u128;
        i = i + 1;
    }
    assert(day@.subrange(0, i as int) =~= day@);
    proof {
        lemma_total_bounded(day@);
        lemma_total_nonnegative(day@);
        let t = total(day@);
        assert(t / 24 <= usize::MAX) by (nonlinear_arith)
            requires
                0 <= t <= 24 * (usize::MAX as int),
        ;
    }
    (sum / (WINDOW as u128)) as usize
}

/// The `[start, end)` index ranges of the complete windows of a series of
/// `len` entries; a trailing partial window is left out.
pub fn day_windows(len: usize) -> (r: Vec<(usize, usize)>)
    ensures
        r.len() == len / WINDOW,
        forall|w: int| 0 <= w < r.len() ==> #[trigger] r[w] == ((WINDOW * w) as usize, (WINDOW * w
            + WINDOW) as usize),
{
    let mut r: Vec<(usize, usize)> = Vec::new();
    let mut start: usize = 0;
    while len - start >= WINDOW
        invariant
            start <= len,
            start == WINDOW * r.len(),
            forall|w: int| 0 <= w < r.len() ==> #[trigger] r[w] == ((WINDOW * w) as usize, (WINDOW * w
                + WINDOW) as usize),
        decreases len - start,
    {
        r.push((start, start + WINDOW));
        start = start + WINDOW;
    }
    r
}

/// `(min, average, max)` of every complete window of 24 entries of an hourly
/// series, in order; a trailing partial window is dropped.
pub fn daily_rollup(values: &[usize]) -> (r: Vec<(usize, usize, usize)>)
    ensures
        r.len() == values.len() / WINDOW,
        forall|w: int| 0 <= w < r.len() ==> {
            let (lo, avg, hi) = #[trigger] r[w];
            (lo as int, avg as int, hi as int) == summary(window(values@, w))
        },
{
    let windows = day_windows(values.len());
    let mut r: Vec<(usize, usize, usize)> = Vec::new();
    let mut w: usize = 0;
    while w < windows.len()
        invariant
            windows.len() == values.len() / WINDOW,
            forall|v: int| 0 <= v < windows.len() ==> #[trigger] windows[v] == ((WINDOW * v) as usize, (
            WINDOW * v + WINDOW) as usize),
            w <= windows.len(),
            r.len() == w,
            forall|v: int| 0 <= v < r.len() ==> {
                let (lo, avg, hi) = #[trigger] r[v];
                (lo as int, avg as int, hi as int) == summary(window(values@, v))
            },
        decreases windows.len() - w,
    {
        let (start, end) = windows[w];
        let day = &values[start..end];
        assert(day@ =~= window(values@, w as int));
        r.push((min_usize(day), window_average(day), max_usize(day)));
        w = w + 1;
    }
    r
}

} // verus!
