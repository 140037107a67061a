//! Missing hourly slots between the earliest and the latest observation.

use std::collections::HashSet;
use vstd::prelude::*;
use crate::calendar::{SimpleDate, Utils, lemma_last_point_is_latest};

verus! {

broadcast use vstd::std_specs::hash::group_hash_axioms;

/// The hour numbers of a sequence of points, in order.
pub open spec fn hour_numbers(dates: Seq<SimpleDate>) -> Seq<int> {
    dates.map_values(|d: SimpleDate| d.hour_number())
}

/// Whether hour `h` lies at or after some observed hour, strictly before
/// another, and is not observed itself.
pub open spec fn is_gap(hours: Seq<int>, h: int) -> bool {
    &&& exists|i: int| 0 <= i < hours.len() && #[trigger] hours[i] <= h
    &&& exists|j: int| 0 <= j < hours.len() && h < #[trigger] hours[j]
    &&& !hours.contains(h)
}

/// Whether `hours` holds at least three distinct values.
pub open spec fn three_distinct(hours: Seq<int>) -> bool {
    exists|i: int, j: int, k: int|
        0 <= i < hours.len() && 0 <= j < hours.len() && 0 <= k < hours.len() && #[trigger] hours[i]
            < #[trigger] hours[j] && hours[j] < #[trigger] hours[k]
}

/// Whether the hour numbers of `dates` strictly increase.
pub open spec fn strictly_ascending(dates: Seq<SimpleDate>) -> bool {
    forall|i: int, j: int| 0 <= i < j < dates.len() ==> dates[i].hour_number() < dates[j].hour_number()
}

/// Lists, in ascending order, the hourly slots from the earliest observed
/// hour up to (not including) the latest one that no observation occupies.
///
/// With fewer than three distinct observed hours there is no interior range
/// to search: the observed hours themselves are returned, once each, in
/// ascending order.
pub fn find_missing_hours(dates: &Vec<SimpleDate>) -> (r: Vec<SimpleDate>)
    requires
        forall|i: int| 0 <= i < dates.len() ==> #[trigger] dates[i].wf(),
    ensures
        forall|i: int| 0 <= i < r.len() ==> #[trigger] r[i].wf(),
        strictly_ascending(r@),
        !three_distinct(hour_numbers(dates@)) ==> forall|h: int| #[trigger] hour_numbers(r@).contains(h)
            <==> hour_numbers(dates@).contains(h),
        three_distinct(hour_numbers(dates@)) ==> forall|h: int| #[trigger] hour_numbers(r@).contains(h)
            <==> is_gap(hour_numbers(dates@), h),
{
    let ghost hs = hour_numbers(dates@);
    let n = dates.len();
    if n == 0 {
        let r: Vec<SimpleDate> = Vec::new();
        proof {
            assert forall|h: int| #[trigger] hour_numbers(r@).contains(h) <==> hs.contains(h) by {
                if hour_numbers(r@).contains(h) {
                    let i = choose|i: int| 0 <= i < hour_numbers(r@).len() && hour_numbers(r@)[i] == h;
                }
            }
        }
        return r;
    }
    let mut observed: HashSet<i64> = HashSet::new();
    let mut first: usize = 0;
    let mut last: usize = 0;
    let mut first_ts = dates[0].timestamp();
    let mut last_ts = first_ts;
    let mut k: usize = 0;
    while k < n
        invariant
            n == dates.len(),
            forall|i: int| 0 <= i < n ==> #[trigger] dates[i].wf(),
            hs == hour_numbers(dates@),
            k <= n,
            first < n,
            last < n,
            first_ts as int == hs[first as int] * 3600,
            last_ts as int == hs[last as int] * 3600,
            forall|i: int| 0 <= i < k ==> hs[first as int] <= #[trigger] hs[i] <= hs[last as int],
            forall|t: i64| #[trigger] observed@.contains(t) <==> exists|i: int|
                0 <= i < k && t as int == #[trigger] hs[i] * 3600,
        decreases n - k,
    {
        let t = dates[k].timestamp();
        observed.insert(t);
        if t < first_ts {
            first = k;
            first_ts = t;
        }
        if t > last_ts {
            last = k;
            last_ts = t;
        }
        k = k + 1;
        proof {
            assert forall|u: i64| #[trigger] observed@.contains(u) <==> exists|i: int|
                0 <= i < k && u as int == #[trigger] hs[i] * 3600 by {
                if u == t {
                    assert(u as int == hs[k - 1] * 3600);
                }
            }
        }
    }
    let ghost lo = hs[first as int];
    let ghost hi = hs[last as int];
    let mut middle = false;
    let mut m: usize = 0;
    while m < n
        invariant
            n == dates.len(),
            forall|i: int| 0 <= i < n ==> #[trigger] dates[i].wf(),
            hs == hour_numbers(dates@),
            first < n,
            last < n,
            lo == hs[first as int],
            hi == hs[last as int],
            first_ts as int == lo * 3600,
            last_ts as int == hi * 3600,
            m <= n,
            middle ==> exists|j: int| 0 <= j < n && lo < #[trigger] hs[j] < hi,
            !middle ==> forall|j: int| 0 <= j < m ==> !(lo < #[trigger] hs[j] < hi),
        decreases n - m,
    {
        let t = dates[m].timestamp();
        if first_ts < t && t < last_ts {
            middle = true;
            assert(lo < hs[m as int] < hi);
        }
        m = m + 1;
    }
    proof {
        if middle {
            let j = choose|j: int| 0 <= j < n && lo < #[trigger] hs[j] < hi;
            assert(hs[first as int] < hs[j] && hs[j] < hs[last as int]);
        } else {
            assert forall|i: int, j: int, k: int|
                0 <= i < hs.len() && 0 <= j < hs.len() && 0 <= k < hs.len() && #[trigger] hs[i]
                    < #[trigger] hs[j] && hs[j] < #[trigger] hs[k] implies false by {
                assert(!(lo < hs[j] < hi));
            }
        }
    }
    if !middle {
        let mut r: Vec<SimpleDate> = Vec::new();
        r.push(dates[first]);
        if first_ts < last_ts {
            r.push(dates[last]);
        }
        proof {
            assert forall|h: int| #[trigger] hour_numbers(r@).contains(h) <==> hs.contains(h) by {
                if hs.contains(h) {
                    let i = choose|i: int| 0 <= i < hs.len() && hs[i] == h;
                    assert(!(lo < hs[i] < hi));
                    if h == lo {
                        assert(hour_numbers(r@)[0] == h);
                    } else {
                        assert(hour_numbers(r@)[1] == h);
                    }
                }
                if hour_numbers(r@).contains(h) {
                    let i = choose|i: int| 0 <= i < hour_numbers(r@).len() && hour_numbers(r@)[i] == h;
                    if i == 0 {
                        assert(hs[first as int] == h);
                    } else {
                        assert(hs[last as int] == h);
                    }
                }
            }
        }
        return r;
    }
    let mut result: Vec<SimpleDate> = Vec::new();
    let mut current = dates[first];
    let mut t = first_ts;
    while t < last_ts
        invariant
            forall|i: int| 0 <= i < n ==> #[trigger] dates[i].wf(),
            n == dates.len(),
            hs == hour_numbers(dates@),
            forall|i: int| 0 <= i < n ==> lo <= #[trigger] hs[i] <= hi,
            hi == hs[last as int],
            last < n,
            last_ts as int == hi * 3600,
            current.wf(),
            t as int == current.hour_number() * 3600,
            lo <= current.hour_number() <= hi,
            forall|u: i64| #[trigger] observed@.contains(u) <==> exists|i: int|
                0 <= i < n && u as int == #[trigger] hs[i] * 3600,
            forall|i: int| 0 <= i < result.len() ==> #[trigger] result[i].wf(),
            strictly_ascending(result@),
            forall|i: int| 0 <= i < result.len() ==> #[trigger] result[i].hour_number() < current.hour_number(),
            forall|h: int| #[trigger] hour_numbers(result@).contains(h) <==> (lo <= h < current.hour_number()
                && !hs.contains(h)),
        decreases hi - current.hour_number(),
    {
        let ghost before = result@;
        let ghost cur_h = current.hour_number();
        let seen = observed.contains(&t);
        proof {
            if seen {
                let i = choose|i: int| 0 <= i < n && t as int == #[trigger] hs[i] * 3600;
                assert(hs[i] == cur_h);
                assert(hs.contains(cur_h));
            } else {
                if hs.contains(cur_h) {
                    let i = choose|i: int| 0 <= i < hs.len() && hs[i] == cur_h;
                    assert(t as int == hs[i] * 3600);
                }
            }
        }
        if !seen {
            result.push(current);
        }
        proof {
            assert forall|h: int| #[trigger] hour_numbers(result@).contains(h) <==> (lo <= h < cur_h + 1
                && !hs.contains(h)) by {
                if !seen {
                    assert(result@ == before.push(current));
                    assert(hour_numbers(result@) =~= hour_numbers(before).push(cur_h));
                    if hour_numbers(before).contains(h) {
                        let i = choose|i: int| 0 <= i < hour_numbers(before).len() && hour_numbers(before)[i] == h;
                        assert(hour_numbers(result@)[i] == h);
                    }
                    if h == cur_h {
                        assert(hour_numbers(result@)[before.len() as int] == h);
                    }
                } else {
                    assert(result@ == before);
                }
            }
        }
        proof {
            assert(cur_h < hi);
            if current.is_last() {
                lemma_last_point_is_latest(dates[last as int], current);
            }
        }
        current = current.plus_one_hour();
        t = t + 3600;
    }
    proof {
        assert forall|h: int| #[trigger] hour_numbers(result@).contains(h) <==> is_gap(hs, h) by {
            if lo <= h < hi && !hs.contains(h) {
                assert(hs[first as int] <= h);
                assert(h < hs[last as int]);
            }
            if is_gap(hs, h) {
                let i = choose|i: int| 0 <= i < hs.len() && #[trigger] hs[i] <= h;
                let j = choose|j: int| 0 <= j < hs.len() && h < #[trigger] hs[j];
                assert(lo <= hs[i]);
                assert(hs[j] <= hi);
            }
        }
    }
    result
}

} // verus!
