//! Board analytics: the day buckets of a query range, the cumulative flow of
//! task statuses (and the burndown drawn from it), cycle times and activity
//! series. Instants are nanoseconds since the Unix epoch, UTC.
use vstd::prelude::*;
use std::collections::HashMap;
use crate::model::{TaskStatus, TaskStatusEvent};
use crate::clock::{instant, instant_of, parse_rfc3339_parts, rfc3339_parts, secs_of, split_instant, subsec_of, time_after, utc_now_parts, NANOS_PER_SEC};
use crate::text::copy_str;

verus! {

broadcast use {vstd::set::group_set_axioms, vstd::std_specs::hash::group_hash_axioms};

/// The bucket size of a series.
#[derive(Debug, Clone, Copy, PartialEq, Eq, Structural)]
pub enum AnalyticsBucket {
    Day,
}

/// How many days a range covers when the query names no start.
pub fn default_days() -> (r: i64)
    ensures
        r == 30,
{
    30
}

/// Nanoseconds in a day.
pub const DAY_NANOS: i128 = 86_400_000_000_000;

/// The earliest instant a UTC date-time can hold (the first day of year
/// -262143).
pub const MIN_INSTANT: i128 = -8_334_601_315_200_000_000_000;

/// The latest instant a UTC date-time can hold (the last nanosecond of year
/// 262142).
pub const MAX_INSTANT: i128 = 8_210_266_876_799_999_999_999;

/// The most days a time span may hold (`i64::MAX` milliseconds).
pub const MAX_SPAN_DAYS: i64 = 106_751_991_167;

/// The index of a status in a snapshot: todo, in progress, in review, done,
/// cancelled.
pub open spec fn status_slot(s: TaskStatus) -> int {
    match s {
        TaskStatus::Todo => 0,
        TaskStatus::InProgress => 1,
        TaskStatus::InReview => 2,
        TaskStatus::Done => 3,
        TaskStatus::Cancelled => 4,
    }
}

/// The status kept at a snapshot index.
pub open spec fn slot_status(i: int) -> TaskStatus {
    if i == 0 {
        TaskStatus::Todo
    } else if i == 1 {
        TaskStatus::InProgress
    } else if i == 2 {
        TaskStatus::InReview
    } else if i == 3 {
        TaskStatus::Done
    } else {
        TaskStatus::Cancelled
    }
}

/// The snapshot index of a status.
pub fn status_idx(status: &TaskStatus) -> (r: usize)
    ensures
        r == status_slot(*status),
        r < 5,
        slot_status(r as int) == *status,
{
    match status {
        TaskStatus::Todo => 0,
        TaskStatus::InProgress => 1,
        TaskStatus::InReview => 2,
        TaskStatus::Done => 3,
        TaskStatus::Cancelled => 4,
    }
}

/// The latest status of each task, after the events in order.
pub open spec fn latest_status(events: Seq<TaskStatusEvent>) -> Map<u128, TaskStatus>
    decreases events.len(),
{
    if events.len() == 0 {
        Map::empty()
    } else {
        latest_status(events.drop_last()).insert(events.last().task_id, events.last().status)
    }
}

/// The tasks whose latest status is `s`.
pub open spec fn tasks_in(m: Map<u128, TaskStatus>, s: TaskStatus) -> Set<u128> {
    m.dom().filter(|t: u128| m[t] == s)
}

/// How many tasks have `s` as their latest status.
pub open spec fn status_count(m: Map<u128, TaskStatus>, s: TaskStatus) -> nat {
    tasks_in(m, s).len()
}

/// The five counts of a status map, in snapshot order.
pub open spec fn count_sum(m: Map<u128, TaskStatus>) -> nat {
    status_count(m, TaskStatus::Todo) + status_count(m, TaskStatus::InProgress) + status_count(m, TaskStatus::InReview)
        + status_count(m, TaskStatus::Done) + status_count(m, TaskStatus::Cancelled)
}

/// Setting one task's status moves it from its old count to its new one.
pub proof fn lemma_count_after_insert(m: Map<u128, TaskStatus>, t: u128, st: TaskStatus, s: TaskStatus)
    requires
        m.dom().finite(),
    ensures
        status_count(m.insert(t, st), s) as int == status_count(m, s) as int
            - (if m.dom().contains(t) && m[t] == s { 1int } else { 0int })
            + (if st == s { 1int } else { 0int }),
{
    let m2 = m.insert(t, st);
    let a = tasks_in(m, s);
    let b = tasks_in(m2, s);
    assert(a.finite()) by {
        assert(a =~= m.dom().intersect(Set::new(|x: u128| m[x] == s)));
    }
    if st == s {
        assert(b =~= a.insert(t));
    } else {
        assert(b =~= a.remove(t));
    }
}

/// The latest-status map is finite, its tasks are those the events name,
/// and its counts add up to its number of tasks.
pub proof fn lemma_latest_status(events: Seq<TaskStatusEvent>)
    ensures
        latest_status(events).dom().finite(),
        latest_status(events).dom().len() <= events.len(),
        count_sum(latest_status(events)) == latest_status(events).dom().len(),
    decreases events.len(),
{
    if events.len() == 0 {
        let m = latest_status(events);
        assert(m.dom() =~= Set::empty());
        assert(tasks_in(m, TaskStatus::Todo) =~= Set::empty());
        assert(tasks_in(m, TaskStatus::InProgress) =~= Set::empty());
        assert(tasks_in(m, TaskStatus::InReview) =~= Set::empty());
        assert(tasks_in(m, TaskStatus::Done) =~= Set::empty());
        assert(tasks_in(m, TaskStatus::Cancelled) =~= Set::empty());
    } else {
        let prev = latest_status(events.drop_last());
        lemma_latest_status(events.drop_last());
        let e = events.last();
        lemma_count_after_insert(prev, e.task_id, e.status, TaskStatus::Todo);
        lemma_count_after_insert(prev, e.task_id, e.status, TaskStatus::InProgress);
        lemma_count_after_insert(prev, e.task_id, e.status, TaskStatus::InReview);
        lemma_count_after_insert(prev, e.task_id, e.status, TaskStatus::Done);
        lemma_count_after_insert(prev, e.task_id, e.status, TaskStatus::Cancelled);
        assert(latest_status(events).dom() == prev.dom().insert(e.task_id));
    }
}

/// Where the consumption of events stops for a bucket: past every event,
/// from `k` on, stamped at or before `ts`.
pub open spec fn advance(events: Seq<TaskStatusEvent>, k: int, ts: i128) -> int
    decreases events.len() - k,
{
    if 0 <= k < events.len() && events[k].created_at <= ts {
        advance(events, k + 1, ts)
    } else {
        k
    }
}

/// How many events have been consumed once the first `n` buckets are done.
pub open spec fn consumed(events: Seq<TaskStatusEvent>, buckets: Seq<i128>, n: nat) -> int
    decreases n,
{
    if n == 0 {
        0
    } else {
        advance(events, consumed(events, buckets, (n - 1) as nat), buckets[n - 1])
    }
}

proof fn lemma_advance_bounds(events: Seq<TaskStatusEvent>, k: int, ts: i128)
    requires
        0 <= k <= events.len(),
    ensures
        k <= advance(events, k, ts) <= events.len(),
    decreases events.len() - k,
{
    if k < events.len() && events[k].created_at <= ts {
        lemma_advance_bounds(events, k + 1, ts);
    }
}

proof fn lemma_consumed_bounds(events: Seq<TaskStatusEvent>, buckets: Seq<i128>, n: nat)
    ensures
        0 <= consumed(events, buckets, n) <= events.len(),
    decreases n,
{
    if n > 0 {
        lemma_consumed_bounds(events, buckets, (n - 1) as nat);
        lemma_advance_bounds(events, consumed(events, buckets, (n - 1) as nat), buckets[n - 1]);
    }
}

/// The status counts of a snapshot: how many tasks have each status as
/// their latest, over the events consumed so far.
pub open spec fn snapshot_matches(snap: [i64; 5], m: Map<u128, TaskStatus>) -> bool {
    forall|i: int| 0 <= i < 5 ==> snap@[i] == status_count(m, slot_status(i)) as int
}

/// The cumulative-flow snapshots: for each bucket, in order, the number of
/// tasks in each status just after the bucket's instant. Events are consumed
/// in order, each bucket taking those stamped at or before its instant; a
/// task counts under its latest status.
pub fn snapshot_cfd_counts(buckets: &Vec<i128>, events: &Vec<TaskStatusEvent>) -> (r: Vec<[i64; 5]>)
    requires
        events@.len() < i64::MAX,
    ensures
        r@.len() == buckets@.len(),
        forall|j: int| 0 <= j < r@.len() ==> #[trigger] snapshot_matches(
            r@[j],
            latest_status(events@.take(consumed(events@, buckets@, (j + 1) as nat))),
        ),
{
    let mut counts: [i64; 5] = [0, 0, 0, 0, 0];
    let mut task_status: HashMap<u128, TaskStatus> = HashMap::new();
    let mut idx: usize = 0;
    let mut snapshots: Vec<[i64; 5]> = Vec::new();
    let mut j: usize = 0;
    proof {
        let m = latest_status(events@.take(0));
        assert(events@.take(0) =~= Seq::<TaskStatusEvent>::empty());
        assert forall|i: int| 0 <= i < 5 implies counts@[i] == status_count(m, slot_status(i)) as int by {
            assert(tasks_in(m, slot_status(i)) =~= Set::empty());
        }
    }
    while j < buckets.len()
        invariant
            j <= buckets.len(),
            events@.len() < i64::MAX,
            idx == consumed(events@, buckets@, j as nat),
            idx <= events@.len(),
            snapshot_matches(counts, latest_status(events@.take(idx as int))),
            task_status@ == latest_status(events@.take(idx as int)),
            snapshots@.len() == j,
            forall|k: int| 0 <= k < j ==> #[trigger] snapshot_matches(
                snapshots@[k],
                latest_status(events@.take(consumed(events@, buckets@, (k + 1) as nat))),
            ),
        decreases buckets.len() - j,
    {
        let bucket_ts = buckets[j];
        let ghost start = idx as int;
        while idx < events.len() && events[idx].created_at <= bucket_ts
            invariant
                start <= idx <= events@.len(),
                events@.len() < i64::MAX,
                advance(events@, idx as int, bucket_ts) == advance(events@, start, bucket_ts),
                snapshot_matches(counts, latest_status(events@.take(idx as int))),
                task_status@ == latest_status(events@.take(idx as int)),
            decreases events.len() - idx,
        {
            let ev = &events[idx];
            let ghost m = latest_status(events@.take(idx as int));
            proof {
                lemma_latest_status(events@.take(idx as int));
                assert(events@.take(idx + 1).drop_last() == events@.take(idx as int));
                assert(events@.take(idx + 1).last() == events@[idx as int]);
                assert forall|i: int| 0 <= i < 5 implies status_count(m, slot_status(i)) <= idx by {
                    assert(tasks_in(m, slot_status(i)).subset_of(m.dom()));
                    vstd::set_lib::lemma_len_subset(tasks_in(m, slot_status(i)), m.dom());
                }
            }
            let s = status_idx(&ev.status);
            proof {
                assert forall|i: int| 0 <= i < 5 implies
                    status_count(m.insert(ev.task_id, ev.status), slot_status(i)) as int == status_count(m, slot_status(i)) as int
                    - (if m.dom().contains(ev.task_id) && m[ev.task_id] == slot_status(i) { 1int } else { 0int })
                    + (if ev.status == slot_status(i) { 1int } else { 0int }) by {
                    lemma_count_after_insert(m, ev.task_id, ev.status, slot_status(i));
                }
            }
            match task_status.insert(ev.task_id, ev.status) {
                Some(prev) => {
                    let p = status_idx(&prev);
                    proof {
                        assert(m.dom().contains(ev.task_id) && m[ev.task_id] == prev);
                        assert(tasks_in(m, prev).contains(ev.task_id));
                        assert(tasks_in(m, prev).finite()) by {
                            assert(tasks_in(m, prev) =~= m.dom().intersect(Set::new(|x: u128| m[x] == prev)));
                        }
                        assert(status_count(m, prev) >= 1);
                    }
                    counts[p] = counts[p] - 1;
                },
                None => {},
            }
            counts[s] = counts[s] + 1;
            idx = idx + 1;
        }
        snapshots.push(counts);
        j = j + 1;
    }
    snapshots
}


/// The start of the UTC day holding instant `t`.
pub open spec fn floor_day(t: int) -> int {
    t - t % (DAY_NANOS as int)
}

/// The start of the UTC day holding instant `t`.
pub fn floor_to_day(t: i128) -> (r: i128)
    requires
        MIN_INSTANT <= t <= MAX_INSTANT,
    ensures
        r == floor_day(t as int),
{
    let m = t % DAY_NANOS;
    if m < 0 {
        t - m - DAY_NANOS
    } else {
        t - m
    }
}

/// A query range normalized to whole days: `from` is the start of the first
/// day, `to` the start of the day after the last one.
#[derive(Debug, Clone, Copy)]
pub struct NormalizedRange {
    pub from: i128,
    pub to: i128,
}

/// The range a query asks for.
#[derive(Debug, Clone)]
pub struct AnalyticsRangeQuery {
    pub project_id: u128,
    /// RFC 3339 text; when left out, `days` before `to`.
    pub from: Option<String>,
    /// RFC 3339 text; when left out, now.
    pub to: Option<String>,
    pub days: i64,
    pub bucket: Option<AnalyticsBucket>,
}

/// Why a query range is refused.
#[derive(Debug, Clone)]
pub enum RangeError {
    /// This text is no RFC 3339 timestamp.
    InvalidTimestamp(String),
    /// The range starts after it ends.
    FromAfterTo,
}

impl RangeError {
    /// The message with which the query is refused.
    pub fn message(&self) -> (r: String)
        ensures
            *self matches RangeError::InvalidTimestamp(s) ==> r@ == "Invalid RFC3339 timestamp: "@ + s@,
            *self matches RangeError::FromAfterTo ==> r@ == "`from` must be <= `to`"@,
    {
        match self {
            RangeError::InvalidTimestamp(s) => {
                let mut r = copy_str("Invalid RFC3339 timestamp: ");
                r.append(s.as_str());
                r
            },
            RangeError::FromAfterTo => copy_str("`from` must be <= `to`"),
        }
    }
}

/// Whether a time lies in the dates a UTC date-time can hold, with
/// nanoseconds below two seconds (a leap second reaches past one).
pub open spec fn time_in_span(t: (i64, u32)) -> bool {
    -8_334_601_315_200 <= t.0 <= 8_210_266_876_799 && t.1 < 2_000_000_000
}

/// The start of the UTC day of the date `chrono` gives a time: the day of
/// its second, so that a leap second stays in the day it closes.
pub open spec fn time_day(t: (i64, u32)) -> int {
    floor_day(t.0 as int * 1_000_000_000)
}

/// Reads an RFC 3339 timestamp as a time in UTC (whole seconds and the
/// nanoseconds past them, a leap second included).
pub fn parse_rfc3339_utc(s: &str) -> (r: Result<(i64, u32), RangeError>)
    ensures
        match r {
            Ok(t) => rfc3339_parts(s@) == Some(t) && time_in_span(t),
            Err(e) => rfc3339_parts(s@) is None && (e matches RangeError::InvalidTimestamp(x) && x@ == s@),
        },
{
    match parse_rfc3339_parts(s) {
        Some(t) => Ok(t),
        None => Err(RangeError::InvalidTimestamp(copy_str(s))),
    }
}

/// The span of days a query asks for when it names no start (at least one).
pub open spec fn span_days(days: i64) -> int {
    if days < 1 {
        1
    } else {
        days as int
    }
}

/// The outcome of normalizing a range whose end is time `to` and whose
/// start is the time named (`Some`), or else `days` before the end. A named
/// start after the end is refused (a start `days` before the end never
/// is); the range runs from the start of the start's day to the start of the
/// day after the end's. `None` where the date arithmetic leaves the dates
/// `chrono` holds (where the normalization panics).
pub open spec fn range_outcome(to: (i64, u32), from: Option<(i64, u32)>, days: i64) -> Option<Result<(int, int), ()>> {
    let from_day: Option<Result<int, ()>> = match from {
        Some(f) => if time_after(f, to) {
            Some(Err(()))
        } else {
            Some(Ok(time_day(f)))
        },
        None => {
            let back = instant(to.0, to.1) - span_days(days) * DAY_NANOS;
            if span_days(days) > MAX_SPAN_DAYS || back < MIN_INSTANT {
                None
            } else {
                Some(Ok(floor_day(back)))
            }
        },
    };
    match from_day {
        None => None,
        Some(Err(())) => Some(Err(())),
        Some(Ok(f)) => if time_day(to) + DAY_NANOS > MAX_INSTANT {
            None
        } else {
            Some(Ok((f, time_day(to) + DAY_NANOS)))
        },
    }
}

/// The start of the UTC day of a time's second.
fn day_of_time(t: (i64, u32)) -> (r: i128)
    requires
        time_in_span(t),
    ensures
        r == time_day(t),
{
    floor_to_day((t.0 as i128) * NANOS_PER_SEC)
}

/// Normalizes a range to whole UTC days, given its end and, if named, its
/// start: the start goes back to the start of its day, the end forward to
/// the start of the next day, so that the last day counts in full.
pub fn normalize_instants(to: (i64, u32), from: Option<(i64, u32)>, days: i64) -> (r: Option<Result<NormalizedRange, RangeError>>)
    requires
        time_in_span(to),
        from matches Some(f) ==> time_in_span(f),
    ensures
        match range_outcome(to, from, days) {
            None => r is None,
            Some(Err(())) => r matches Some(Err(RangeError::FromAfterTo)),
            Some(Ok((f, t))) => r matches Some(Ok(n)) && n.from == f && n.to == t,
        },
{
    let from_day = match from {
        Some(f) => {
            if f.0 > to.0 || (f.0 == to.0 && f.1 > to.1) {
                return Some(Err(RangeError::FromAfterTo));
            }
            day_of_time(f)
        },
        None => {
            let d: i64 = if days < 1 {
                1
            } else {
                days
            };
            if d > MAX_SPAN_DAYS {
                return None;
            }
            let back = instant_of(to.0, to.1) - (d as i128) * DAY_NANOS;
            if back < MIN_INSTANT {
                return None;
            }
            floor_to_day(back)
        },
    };
    let to_day = day_of_time(to);
    if to_day + DAY_NANOS > MAX_INSTANT {
        return None;
    }
    Some(Ok(NormalizedRange { from: from_day, to: to_day + DAY_NANOS }))
}

/// The time of an instant: its whole seconds and nanoseconds.
pub open spec fn time_of(t: int) -> (i64, u32) {
    (secs_of(t) as i64, subsec_of(t) as u32)
}

/// What normalizing `query` at instant `now` gives, with the texts read by
/// `chrono`: the end is read first, then the start. `None` where the dates
/// leave `chrono`'s range.
pub open spec fn query_range_outcome(
    from: Option<Seq<char>>,
    to: Option<Seq<char>>,
    days: i64,
    now: int,
) -> Option<Result<(int, int), Option<Seq<char>>>> {
    let to_time: Option<(i64, u32)> = match to {
        Some(s) => rfc3339_parts(s),
        None => Some(time_of(now)),
    };
    if to_time is None {
        Some(Err(to))
    } else if from matches Some(s) && rfc3339_parts(s) is None {
        Some(Err(from))
    } else {
        let from_time = match from {
            Some(s) => rfc3339_parts(s),
            None => None,
        };
        match range_outcome(to_time->0, from_time, days) {
            None => None,
            Some(Err(())) => Some(Err(None)),
            Some(Ok(p)) => Some(Ok(p)),
        }
    }
}

/// What normalizing a query's range at instant `now` gives: the outcome of
/// `query_range_outcome`.
pub open spec fn normalized_as_queried(
    query: AnalyticsRangeQuery,
    now: i128,
    r: Option<Result<NormalizedRange, RangeError>>,
) -> bool {
    let from = match query.from {
        Some(s) => Some(s@),
        None => None,
    };
    let to = match query.to {
        Some(s) => Some(s@),
        None => None,
    };
    let outcome = query_range_outcome(from, to, query.days, now as int);
    match outcome {
        None => r is None,
        Some(Ok((f, t))) => r matches Some(Ok(n)) && n.from == f && n.to == t,
        Some(Err(Some(s))) => r matches Some(Err(RangeError::InvalidTimestamp(x))) && x@ == s,
        Some(Err(None)) => r matches Some(Err(RangeError::FromAfterTo)),
    }
}

/// Normalizes the range a query asks for, at instant `now`: an unreadable
/// timestamp or a start after the end is refused; `None` where the
/// normalization leaves `chrono`'s dates.
pub fn normalize_range(query: &AnalyticsRangeQuery, now: i128) -> (r: Option<Result<NormalizedRange, RangeError>>)
    requires
        MIN_INSTANT <= now <= MAX_INSTANT,
    ensures
        normalized_as_queried(*query, now, r),
{
    let to = match &query.to {
        Some(s) => match parse_rfc3339_utc(s.as_str()) {
            Ok(t) => t,
            Err(e) => {
                return Some(Err(e));
            },
        },
        None => split_instant(now),
    };
    let from = match &query.from {
        Some(s) => match parse_rfc3339_utc(s.as_str()) {
            Ok(t) => Some(t),
            Err(e) => {
                return Some(Err(e));
            },
        },
        None => None,
    };
    normalize_instants(to, from, days_of(query))
}

/// Normalizes the range a query asks for, at the current time: what
/// `normalize_range` gives at some instant at or after the Unix epoch.
pub fn normalize_query_range(query: &AnalyticsRangeQuery) -> (r: Option<Result<NormalizedRange, RangeError>>)
    ensures
        exists|now: i128| 0 <= now <= MAX_INSTANT && #[trigger] normalized_as_queried(*query, now, r),
{
    let (secs, nanos) = utc_now_parts();
    let now = instant_of(secs, nanos);
    assert(0 <= now <= MAX_INSTANT);
    let r = normalize_range(query, now);
    assert(normalized_as_queried(*query, now, r));
    r
}

fn days_of(query: &AnalyticsRangeQuery) -> (r: i64)
    ensures
        r == query.days,
{
    query.days
}

/// The start of each day of a normalized range, both ends included.
pub open spec fn day_starts(from: int, to: int) -> Seq<int> {
    if from > to {
        Seq::empty()
    } else {
        Seq::new(((to - from) / (DAY_NANOS as int) + 1) as nat, |i: int| from + i * DAY_NANOS)
    }
}

/// The start of each day of a range, from its first through its last
/// instant.
pub fn day_buckets(range: &NormalizedRange) -> (r: Vec<i128>)
    requires
        MIN_INSTANT <= range.from,
        range.to <= MAX_INSTANT,
        range.from <= range.to ==> range.from + ((range.to - range.from) / (DAY_NANOS as int) + 1) * DAY_NANOS <= MAX_INSTANT,
    ensures
        r@.len() == day_starts(range.from as int, range.to as int).len(),
        forall|i: int| 0 <= i < r@.len() ==> r@[i] == day_starts(range.from as int, range.to as int)[i],
{
    let mut out: Vec<i128> = Vec::new();
    let mut ts = range.from;
    let ghost from = range.from as int;
    let ghost to = range.to as int;
    let ghost n: int = if from > to { 0 } else { (to - from) / (DAY_NANOS as int) + 1 };
    proof {
        if from <= to {
            assert(n >= 1);
            assert(from + (n - 1) * DAY_NANOS <= to) by (nonlinear_arith)
                requires n == (to - from) / (DAY_NANOS as int) + 1, from <= to;
            assert(from + n * DAY_NANOS > to) by (nonlinear_arith)
                requires n == (to - from) / (DAY_NANOS as int) + 1, from <= to;
        }
    }
    while ts <= range.to
        invariant
            from == range.from,
            to == range.to,
            range.to <= MAX_INSTANT,
            n == if from > to { 0 } else { (to - from) / (DAY_NANOS as int) + 1 },
            from <= to ==> from + (n - 1) * DAY_NANOS <= to && from + n * DAY_NANOS > to
                && from + n * DAY_NANOS <= MAX_INSTANT,
            out@.len() <= n,
            ts == from + out@.len() * DAY_NANOS,
            forall|i: int| 0 <= i < out@.len() ==> out@[i] == from + i * DAY_NANOS,
        decreases n - out@.len(),
    {
        proof {
            assert(out@.len() < n) by (nonlinear_arith)
                requires ts == from + out@.len() * DAY_NANOS, ts <= to, from + n * DAY_NANOS > to, from <= to;
            assert(ts + DAY_NANOS <= MAX_INSTANT) by (nonlinear_arith)
                requires ts == from + out@.len() * DAY_NANOS, out@.len() < n, from + n * DAY_NANOS <= MAX_INSTANT;
        }
        out.push(ts);
        ts = ts + DAY_NANOS;
    }
    proof {
        if from <= to {
            assert(out@.len() == n) by (nonlinear_arith)
                requires ts == from + out@.len() * DAY_NANOS, ts > to, out@.len() <= n,
                    from + (n - 1) * DAY_NANOS <= to;
        }
    }
    out
}


/// The status map after the events a snapshot has consumed.
pub open spec fn snapshot_map(events: Seq<TaskStatusEvent>, buckets: Seq<i128>, j: int) -> Map<u128, TaskStatus> {
    latest_status(events.take(consumed(events, buckets, (j + 1) as nat)))
}

/// Each snapshot counts every task seen so far exactly once: its five counts
/// add up to the number of distinct tasks among the events it has consumed,
/// which is at most the number of those events.
pub proof fn lemma_snapshot_total(events: Seq<TaskStatusEvent>, buckets: Seq<i128>, j: int)
    requires
        0 <= j < buckets.len(),
    ensures
        count_sum(snapshot_map(events, buckets, j)) == snapshot_map(events, buckets, j).dom().len(),
        snapshot_map(events, buckets, j).dom().len() <= consumed(events, buckets, (j + 1) as nat),
        consumed(events, buckets, (j + 1) as nat) <= events.len(),
{
    lemma_consumed_bounds(events, buckets, (j + 1) as nat);
    let k = consumed(events, buckets, (j + 1) as nat);
    lemma_latest_status(events.take(k));
}

/// One point of a burndown chart.
#[derive(Debug, Clone, Copy)]
pub struct BurndownPoint {
    pub ts: i128,
    pub remaining: i64,
    pub total: i64,
}

/// One point of a cumulative flow diagram.
#[derive(Debug, Clone, Copy)]
pub struct CfdPoint {
    pub ts: i128,
    pub todo: i64,
    pub inprogress: i64,
    pub inreview: i64,
    pub done: i64,
    pub cancelled: i64,
}

/// The work left at a snapshot: tasks to do, in progress or in review, and
/// the cancelled ones when they count.
pub open spec fn remaining_work(m: Map<u128, TaskStatus>, include_cancelled: bool) -> int {
    status_count(m, TaskStatus::Todo) + status_count(m, TaskStatus::InProgress) + status_count(m, TaskStatus::InReview)
        + if include_cancelled { status_count(m, TaskStatus::Cancelled) as int } else { 0 }
}

/// A burndown point is the one owed for bucket `j`.
pub open spec fn burndown_at(p: BurndownPoint, events: Seq<TaskStatusEvent>, buckets: Seq<i128>, j: int, include_cancelled: bool) -> bool {
    let m = snapshot_map(events, buckets, j);
    &&& p.ts == buckets[j]
    &&& p.remaining == remaining_work(m, include_cancelled)
    &&& p.total == m.dom().len()
}

/// A cumulative-flow point is the one owed for bucket `j`.
pub open spec fn cfd_at(p: CfdPoint, events: Seq<TaskStatusEvent>, buckets: Seq<i128>, j: int) -> bool {
    let m = snapshot_map(events, buckets, j);
    &&& p.ts == buckets[j]
    &&& p.todo == status_count(m, TaskStatus::Todo)
    &&& p.inprogress == status_count(m, TaskStatus::InProgress)
    &&& p.inreview == status_count(m, TaskStatus::InReview)
    &&& p.done == status_count(m, TaskStatus::Done)
    &&& p.cancelled == status_count(m, TaskStatus::Cancelled)
}

/// The burndown of a project over day buckets: for each bucket, the work
/// left and the number of tasks seen so far.
pub fn burndown_points(buckets: &Vec<i128>, events: &Vec<TaskStatusEvent>, include_cancelled: bool) -> (r: Vec<BurndownPoint>)
    requires
        events@.len() < i64::MAX,
    ensures
        r@.len() == buckets@.len(),
        forall|j: int| 0 <= j < r@.len() ==> #[trigger] burndown_at(r@[j], events@, buckets@, j, include_cancelled),
{
    let snaps = snapshot_cfd_counts(buckets, events);
    let mut out: Vec<BurndownPoint> = Vec::new();
    let mut j: usize = 0;
    while j < buckets.len()
        invariant
            j <= buckets.len() == snaps@.len(),
            events@.len() < i64::MAX,
            forall|k: int| 0 <= k < snaps@.len() ==> #[trigger] snapshot_matches(snaps@[k], snapshot_map(events@, buckets@, k)),
            out@.len() == j,
            forall|k: int| 0 <= k < j ==> #[trigger] burndown_at(out@[k], events@, buckets@, k, include_cancelled),
        decreases buckets.len() - j,
    {
        let c = snaps[j];
        proof {
            lemma_snapshot_total(events@, buckets@, j as int);
            assert(snapshot_matches(snaps@[j as int], snapshot_map(events@, buckets@, j as int)));
            assert(c@[0] == status_count(snapshot_map(events@, buckets@, j as int), slot_status(0)));
            assert(c@[1] == status_count(snapshot_map(events@, buckets@, j as int), slot_status(1)));
            assert(c@[2] == status_count(snapshot_map(events@, buckets@, j as int), slot_status(2)));
            assert(c@[3] == status_count(snapshot_map(events@, buckets@, j as int), slot_status(3)));
            assert(c@[4] == status_count(snapshot_map(events@, buckets@, j as int), slot_status(4)));
        }
        let remaining = if include_cancelled {
            c[0] + c[1] + c[2] + c[4]
        } else {
            c[0] + c[1] + c[2]
        };
        let total = c[0] + c[1] + c[2] + c[3] + c[4];
        let ghost old_out = out@;
        let p = BurndownPoint { ts: buckets[j], remaining, total };
        assert(burndown_at(p, events@, buckets@, j as int, include_cancelled));
        out.push(p);
        proof {
            assert forall|k: int| 0 <= k < j + 1 implies #[trigger] burndown_at(out@[k], events@, buckets@, k, include_cancelled) by {
                if k < j {
                    assert(out@[k] == old_out[k]);
                }
            }
        }
        j = j + 1;
    }
    out
}

/// The cumulative flow of a project over day buckets: for each bucket, the
/// number of tasks in each status.
pub fn cfd_points(buckets: &Vec<i128>, events: &Vec<TaskStatusEvent>) -> (r: Vec<CfdPoint>)
    requires
        events@.len() < i64::MAX,
    ensures
        r@.len() == buckets@.len(),
        forall|j: int| 0 <= j < r@.len() ==> #[trigger] cfd_at(r@[j], events@, buckets@, j),
{
    let snaps = snapshot_cfd_counts(buckets, events);
    let mut out: Vec<CfdPoint> = Vec::new();
    let mut j: usize = 0;
    while j < buckets.len()
        invariant
            j <= buckets.len() == snaps@.len(),
            forall|k: int| 0 <= k < snaps@.len() ==> #[trigger] snapshot_matches(snaps@[k], snapshot_map(events@, buckets@, k)),
            out@.len() == j,
            forall|k: int| 0 <= k < j ==> #[trigger] cfd_at(out@[k], events@, buckets@, k),
        decreases buckets.len() - j,
    {
        let c = snaps[j];
        proof {
            assert(snapshot_matches(snaps@[j as int], snapshot_map(events@, buckets@, j as int)));
            assert(c@[0] == status_count(snapshot_map(events@, buckets@, j as int), slot_status(0)));
            assert(c@[1] == status_count(snapshot_map(events@, buckets@, j as int), slot_status(1)));
            assert(c@[2] == status_count(snapshot_map(events@, buckets@, j as int), slot_status(2)));
            assert(c@[3] == status_count(snapshot_map(events@, buckets@, j as int), slot_status(3)));
            assert(c@[4] == status_count(snapshot_map(events@, buckets@, j as int), slot_status(4)));
        }
        let ghost old_out = out@;
        let p = CfdPoint { ts: buckets[j], todo: c[0], inprogress: c[1], inreview: c[2], done: c[3], cancelled: c[4] };
        assert(cfd_at(p, events@, buckets@, j as int));
        out.push(p);
        proof {
            assert forall|k: int| 0 <= k < j + 1 implies #[trigger] cfd_at(out@[k], events@, buckets@, k) by {
                if k < j {
                    assert(out@[k] == old_out[k]);
                }
            }
        }
        j = j + 1;
    }
    out
}

/// A burndown query: the range, and whether cancelled tasks count as work
/// left.
#[derive(Debug, Clone)]
pub struct BurndownQuery {
    pub range: AnalyticsRangeQuery,
    pub include_cancelled: bool,
}

/// A burndown chart.
#[derive(Debug, Clone)]
pub struct BurndownResponse {
    pub points: Vec<BurndownPoint>,
}

/// A cumulative flow diagram.
#[derive(Debug, Clone)]
pub struct CfdResponse {
    pub points: Vec<CfdPoint>,
}

/// A normalized range is whole UTC days: both ends fall at midnight, and
/// it holds at least the day of its end's second.
pub proof fn lemma_normalized_whole_days(to: (i64, u32), from: Option<(i64, u32)>, days: i64)
    requires
        range_outcome(to, from, days) matches Some(Ok(_)),
    ensures
        ({
            let (f, t) = range_outcome(to, from, days)->Some_0->Ok_0;
            &&& f % (DAY_NANOS as int) == 0
            &&& t % (DAY_NANOS as int) == 0
            &&& f < t
            &&& f <= to.0 * 1_000_000_000 < t
        }),
{
    let d = DAY_NANOS as int;
    let e = to.0 as int * 1_000_000_000;
    let start: int = match from {
        Some(f) => f.0 as int * 1_000_000_000,
        None => instant(to.0, to.1) - span_days(days) * DAY_NANOS,
    };
    assert(start <= e) by (nonlinear_arith)
        requires
            start == match from {
                Some(f) => f.0 as int * 1_000_000_000,
                None => to.0 as int * 1_000_000_000 + to.1 as int - span_days(days) * 86_400_000_000_000,
            },
            e == to.0 as int * 1_000_000_000,
            span_days(days) >= 1,
            to.1 < 4_294_967_296,
            from matches Some(f) ==> !time_after(f, to);
    assert(floor_day(start) % d == 0) by (nonlinear_arith)
        requires d == 86_400_000_000_000;
    assert((floor_day(e) + d) % d == 0) by (nonlinear_arith)
        requires d == 86_400_000_000_000;
    assert(floor_day(start) <= floor_day(e)) by (nonlinear_arith)
        requires d == 86_400_000_000_000, start <= e;
    assert(floor_day(e) <= e < floor_day(e) + d) by (nonlinear_arith)
        requires d == 86_400_000_000_000;
}

/// Every burndown point leaves at most as much work as it counts tasks.
pub proof fn lemma_burndown_remaining_le_total(
    p: BurndownPoint,
    events: Seq<TaskStatusEvent>,
    buckets: Seq<i128>,
    j: int,
    include_cancelled: bool,
)
    requires
        0 <= j < buckets.len(),
        burndown_at(p, events, buckets, j, include_cancelled),
    ensures
        0 <= p.remaining <= p.total,
{
    lemma_snapshot_total(events, buckets, j);
}

/// The burndown and the cumulative flow of the same events over the same
/// buckets agree: at each bucket the burndown's total is the sum of the five
/// flow counts, and its work left is the to-do, in-progress and in-review
/// counts, plus the cancelled one when cancelled tasks count.
pub proof fn lemma_burndown_from_cfd(
    b: BurndownPoint,
    c: CfdPoint,
    events: Seq<TaskStatusEvent>,
    buckets: Seq<i128>,
    j: int,
    include_cancelled: bool,
)
    requires
        0 <= j < buckets.len(),
        burndown_at(b, events, buckets, j, include_cancelled),
        cfd_at(c, events, buckets, j),
    ensures
        b.ts == c.ts,
        b.total == c.todo + c.inprogress + c.inreview + c.done + c.cancelled,
        b.remaining == c.todo + c.inprogress + c.inreview + if include_cancelled { c.cancelled as int } else { 0 },
{
    lemma_snapshot_total(events, buckets, j);
}

} // verus!
