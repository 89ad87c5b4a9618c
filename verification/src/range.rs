//! Time-bounded commit-range resolution.
//!
//! The walk hands the resolver the visited commits as (id, timestamp)
//! pairs, newest first.  The "until" bound is the first commit whose
//! timestamp lies at or below the end of the range; the "since" bound
//! is the youngest commit still at or past the start — the commit
//! visited immediately before the first commit strictly older than the
//! start — falling back to the oldest visited commit where the walk
//! never passes the start.

use vstd::prelude::*;

verus! {

/// The first position at or after `from` whose timestamp lies at or
/// below `bound`.
pub open spec fn spec_first_at_most(items: Seq<(String, i64)>, bound: i64, from: int) -> Option<
    int,
>
    decreases items.len() - from when 0 <= from <= items.len()
{
    if from >= items.len() {
        None
    } else if items[from].1 <= bound {
        Some(from)
    } else {
        spec_first_at_most(items, bound, from + 1)
    }
}

/// The position of the "until" bound: the first visited commit at or
/// below the end of the range.
pub open spec fn spec_until_index(items: Seq<(String, i64)>, end_seconds: i64) -> Option<int> {
    spec_first_at_most(items, end_seconds, 0)
}

/// The first position at or after `from` whose timestamp lies strictly
/// below `bound`.
pub open spec fn spec_first_below(items: Seq<(String, i64)>, bound: i64, from: int) -> Option<int>
    decreases items.len() - from when 0 <= from <= items.len()
{
    if from >= items.len() {
        None
    } else if items[from].1 < bound {
        Some(from)
    } else {
        spec_first_below(items, bound, from + 1)
    }
}

/// The position of the "since" bound: the youngest commit still at or
/// past the start of the range — the commit visited immediately before
/// the first commit (past the newest) strictly older than the start —
/// falling back to the oldest visited commit where the walk never
/// passes the start.
pub open spec fn spec_since_index(items: Seq<(String, i64)>, start_seconds: i64) -> Option<int> {
    if items.len() == 0 {
        None
    } else {
        match spec_first_below(items, start_seconds, 1) {
            Some(i) => Some(i - 1),
            None => Some(items.len() - 1),
        }
    }
}

fn find_first_at_most(items: &Vec<(String, i64)>, bound: i64, from: usize) -> (r: Option<usize>)
    requires
        from <= items@.len(),
    ensures
        match r {
            Some(i) => from <= i < items@.len() && spec_first_at_most(items@, bound, from as int)
                == Some(i as int),
            None => spec_first_at_most(items@, bound, from as int) is None,
        },
{
    let mut i: usize = from;
    while i < items.len()
        invariant
            from <= i <= items@.len(),
            spec_first_at_most(items@, bound, from as int) == spec_first_at_most(
                items@,
                bound,
                i as int,
            ),
        decreases items@.len() - i,
    {
        if items[i].1 <= bound {
            return Some(i);
        }
        i = i + 1;
    }
    None
}

fn find_first_below(items: &Vec<(String, i64)>, bound: i64, from: usize) -> (r: Option<usize>)
    requires
        from <= items@.len(),
    ensures
        match r {
            Some(i) => from <= i < items@.len() && spec_first_below(items@, bound, from as int)
                == Some(i as int),
            None => spec_first_below(items@, bound, from as int) is None,
        },
{
    let mut i: usize = from;
    while i < items.len()
        invariant
            from <= i <= items@.len(),
            spec_first_below(items@, bound, from as int) == spec_first_below(
                items@,
                bound,
                i as int,
            ),
        decreases items@.len() - i,
    {
        if items[i].1 < bound {
            return Some(i);
        }
        i = i + 1;
    }
    None
}

/// Resolves a time range against the walked commits: the since and
/// until commit ids, where the walk determines them.
pub fn resolve_time_range(items: &Vec<(String, i64)>, start_seconds: i64, end_seconds: i64) -> (r:
    (Option<String>, Option<String>))
    ensures
        match r.0 {
            Some(s) => spec_since_index(items@, start_seconds) matches Some(i) && s@
                == items@[i].0@,
            None => spec_since_index(items@, start_seconds) is None,
        },
        match r.1 {
            Some(s) => spec_until_index(items@, end_seconds) matches Some(i) && s@
                == items@[i].0@,
            None => spec_until_index(items@, end_seconds) is None,
        },
{
    let until: Option<String> = match find_first_at_most(items, end_seconds, 0) {
        Some(i) => Some(items[i].0.clone()),
        None => None,
    };
    let since: Option<String> = if items.len() == 0 {
        None
    } else {
        match find_first_below(items, start_seconds, 1) {
            Some(i) => Some(items[i - 1].0.clone()),
            None => Some(items[items.len() - 1].0.clone()),
        }
    };
    (since, until)
}

/// The first position whose timestamp lies inside the closed range.
pub open spec fn spec_first_in_range(
    items: Seq<(String, i64)>,
    start_seconds: i64,
    end_seconds: i64,
    from: int,
) -> Option<int>
    decreases items.len() - from when 0 <= from <= items.len()
{
    if from >= items.len() {
        None
    } else if start_seconds <= items[from].1 && items[from].1 <= end_seconds {
        Some(from)
    } else {
        spec_first_in_range(items, start_seconds, end_seconds, from + 1)
    }
}

/// The id of the first walked commit whose timestamp lies inside the
/// closed range, or None where none does.
pub fn pick_in_time_range(items: &Vec<(String, i64)>, start_seconds: i64, end_seconds: i64) -> (r:
    Option<String>)
    ensures
        match r {
            Some(s) => spec_first_in_range(items@, start_seconds, end_seconds, 0) matches Some(i)
                && s@ == items@[i].0@,
            None => spec_first_in_range(items@, start_seconds, end_seconds, 0) is None,
        },
{
    let mut i: usize = 0;
    while i < items.len()
        invariant
            i <= items@.len(),
            spec_first_in_range(items@, start_seconds, end_seconds, 0) == spec_first_in_range(
                items@,
                start_seconds,
                end_seconds,
                i as int,
            ),
        decreases items@.len() - i,
    {
        let ts = items[i].1;
        if start_seconds <= ts && ts <= end_seconds {
            return Some(items[i].0.clone());
        }
        i = i + 1;
    }
    None
}

} // verus!
