//! Cycle times: how long each task took from the first time it was picked
//! up (in progress or in review) to the first time it was done after that,
//! and the fixed-width histogram of those times in hours.
use vstd::prelude::*;
use std::collections::HashMap;
use crate::model::{TaskStatus, TaskStatusEvent};
use crate::analytics::{NormalizedRange, MIN_INSTANT, MAX_INSTANT};
use crate::ordering::first_occurrences;
use crate::clock::NANOS_PER_SEC;

verus! {

broadcast use {vstd::std_specs::hash::group_hash_axioms, vstd::seq_lib::group_to_multiset_ensures};

/// When a task was first picked up, and when it was first done after that.
#[derive(Debug, Clone, Copy, PartialEq, Eq, Structural)]
pub struct TaskCycle {
    pub start: Option<i128>,
    pub done: Option<i128>,
}

/// A task no event has touched yet.
pub open spec fn no_cycle() -> TaskCycle {
    TaskCycle { start: None, done: None }
}

/// What one event of a task does to its cycle.
pub open spec fn cycle_step(c: TaskCycle, e: TaskStatusEvent) -> TaskCycle {
    match e.status {
        TaskStatus::InProgress | TaskStatus::InReview => {
            if c.start is None {
                TaskCycle { start: Some(e.created_at), done: c.done }
            } else {
                c
            }
        },
        TaskStatus::Done => {
            if c.start is Some && c.done is None {
                TaskCycle { start: c.start, done: Some(e.created_at) }
            } else {
                c
            }
        },
        _ => c,
    }
}

/// The cycle of `task` after the events, in order.
pub open spec fn task_cycle(events: Seq<TaskStatusEvent>, task: u128) -> TaskCycle
    decreases events.len(),
{
    if events.len() == 0 {
        no_cycle()
    } else {
        let c = task_cycle(events.drop_last(), task);
        if events.last().task_id == task {
            cycle_step(c, events.last())
        } else {
            c
        }
    }
}

/// The task of each event.
pub open spec fn event_tasks(events: Seq<TaskStatusEvent>) -> Seq<u128> {
    events.map_values(|e: TaskStatusEvent| e.task_id)
}

/// Integer division that rounds toward zero.
pub open spec fn trunc_div(a: int, b: int) -> int {
    if a >= 0 {
        a / b
    } else {
        -((-a) / b)
    }
}

/// Whether a cycle is complete and was done inside the range.
pub open spec fn counted(c: TaskCycle, from: int, to: int) -> bool {
    &&& c.start is Some
    &&& c.done is Some
    &&& from <= c.done.unwrap() <= to
}

/// The whole seconds from the start of a cycle to its end.
pub open spec fn cycle_seconds(c: TaskCycle) -> int {
    trunc_div(c.done.unwrap() - c.start.unwrap(), NANOS_PER_SEC as int)
}

/// The cycle times, in seconds, of the listed tasks whose cycle was done
/// inside the range, in the order of `tasks`.
pub open spec fn cycle_samples(events: Seq<TaskStatusEvent>, tasks: Seq<u128>, from: int, to: int) -> Seq<i64>
    decreases tasks.len(),
{
    if tasks.len() == 0 {
        Seq::empty()
    } else {
        let prev = cycle_samples(events, tasks.drop_last(), from, to);
        let c = task_cycle(events, tasks.last());
        if counted(c, from, to) {
            prev.push(cycle_seconds(c) as i64)
        } else {
            prev
        }
    }
}

/// Whether every event lies in the span a UTC date-time can hold.
pub open spec fn events_in_span(events: Seq<TaskStatusEvent>) -> bool {
    forall|i: int| 0 <= i < events.len() ==> MIN_INSTANT <= #[trigger] events[i].created_at <= MAX_INSTANT
}

/// Whether a sequence is in ascending order.
pub open spec fn ascending(s: Seq<i64>) -> bool {
    forall|i: int, j: int| 0 <= i < j < s.len() ==> s[i] <= s[j]
}

/// A cycle after one more event of its task.
fn next_cycle(c: TaskCycle, e: &TaskStatusEvent) -> (r: TaskCycle)
    ensures
        r == cycle_step(c, *e),
{
    match e.status {
        TaskStatus::InProgress | TaskStatus::InReview => {
            if c.start.is_none() {
                TaskCycle { start: Some(e.created_at), done: c.done }
            } else {
                c
            }
        },
        TaskStatus::Done => {
            if c.start.is_some() && c.done.is_none() {
                TaskCycle { start: c.start, done: Some(e.created_at) }
            } else {
                c
            }
        },
        _ => c,
    }
}

/// The tasks of the events in the order they first appear, and the cycle
/// of each.
fn collect_cycles(events: &Vec<TaskStatusEvent>) -> (r: (Vec<u128>, HashMap<u128, TaskCycle>))
    ensures
        r.0@ == first_occurrences(event_tasks(events@)),
        forall|t: u128| #[trigger] r.1@.contains_key(t) <==> r.0@.contains(t),
        forall|t: u128| r.1@.contains_key(t) ==> r.1@[t] == task_cycle(events@, t),
{
    let mut ids: Vec<u128> = Vec::new();
    let mut by_task: HashMap<u128, TaskCycle> = HashMap::new();
    let mut i: usize = 0;
    while i < events.len()
        invariant
            i <= events.len(),
            ids@ == first_occurrences(event_tasks(events@.take(i as int))),
            forall|t: u128| #[trigger] by_task@.contains_key(t) <==> ids@.contains(t),
            forall|t: u128| by_task@.contains_key(t) ==> by_task@[t] == task_cycle(events@.take(i as int), t),
            forall|t: u128| !by_task@.contains_key(t) ==> #[trigger] task_cycle(events@.take(i as int), t) == no_cycle(),
        decreases events.len() - i,
    {
        let ev = &events[i];
        let ghost before = events@.take(i as int);
        let ghost after = events@.take(i + 1);
        let ghost ids_before = ids@;
        let ghost map_before = by_task@;
        assert(after.drop_last() == before);
        assert(after.last() == *ev);
        assert(event_tasks(after).drop_last() == event_tasks(before));
        assert(event_tasks(after).last() == ev.task_id);
        let cur = match by_task.get(&ev.task_id) {
            Some(c) => *c,
            None => {
                ids.push(ev.task_id);
                TaskCycle { start: None, done: None }
            },
        };
        assert(cur == task_cycle(before, ev.task_id));
        assert(ids_before.contains(ev.task_id) == map_before.contains_key(ev.task_id));
        assert(first_occurrences(event_tasks(after)) == if ids_before.contains(ev.task_id) {
            ids_before
        } else {
            ids_before.push(ev.task_id)
        });
        let next = next_cycle(cur, ev);
        by_task.insert(ev.task_id, next);
        proof {
            assert forall|t: u128| !by_task@.contains_key(t) implies #[trigger] task_cycle(after, t) == no_cycle() by {
                assert(t != ev.task_id);
                assert(task_cycle(after, t) == task_cycle(before, t));
            }
            assert forall|t: u128| ids@.contains(t) <==> ids_before.contains(t) || t == ev.task_id by {
                if !map_before.contains_key(ev.task_id) {
                    assert(ids@ == ids_before.push(ev.task_id));
                    if ids_before.contains(t) {
                        let w = choose|w: int| 0 <= w < ids_before.len() && ids_before[w] == t;
                        assert(ids@[w] == t);
                    }
                    if t == ev.task_id {
                        assert(ids@[ids_before.len() as int] == t);
                    }
                    if ids@.contains(t) {
                        let w = choose|w: int| 0 <= w < ids@.len() && ids@[w] == t;
                        if w < ids_before.len() {
                            assert(ids_before[w] == t);
                        }
                    }
                }
            }
        }
        i = i + 1;
    }
    assert(events@.take(events.len() as int) == events@);
    (ids, by_task)
}

/// Every cycle start and end is the instant of one of the events.
proof fn lemma_cycle_in_span(events: Seq<TaskStatusEvent>, t: u128)
    requires
        events_in_span(events),
    ensures
        task_cycle(events, t).start is Some ==> MIN_INSTANT <= task_cycle(events, t).start.unwrap() <= MAX_INSTANT,
        task_cycle(events, t).done is Some ==> MIN_INSTANT <= task_cycle(events, t).done.unwrap() <= MAX_INSTANT,
    decreases events.len(),
{
    if events.len() > 0 {
        let prefix = events.drop_last();
        assert forall|i: int| 0 <= i < prefix.len() implies MIN_INSTANT <= #[trigger] prefix[i].created_at <= MAX_INSTANT by {
            assert(prefix[i] == events[i]);
        }
        lemma_cycle_in_span(prefix, t);
        assert(events.last() == events[events.len() - 1]);
    }
}

/// The whole seconds between two instants of the span, rounded toward zero.
fn seconds_between(start: i128, done: i128) -> (r: i64)
    requires
        MIN_INSTANT <= start <= MAX_INSTANT,
        MIN_INSTANT <= done <= MAX_INSTANT,
    ensures
        r == trunc_div(done - start, NANOS_PER_SEC as int),
{
    let d = done - start;
    if d >= 0 {
        let q = d / NANOS_PER_SEC;
        assert(q <= 20_000_000_000_000) by (nonlinear_arith)
            requires q == d / 1_000_000_000i128, 0 <= d <= 20_000_000_000_000_000_000_000i128;
        q as i64
    } else {
        let nd = -d;
        let q = nd / NANOS_PER_SEC;
        assert(q <= 20_000_000_000_000) by (nonlinear_arith)
            requires q == nd / 1_000_000_000i128, 0 < nd <= 20_000_000_000_000_000_000_000i128;
        -(q as i64)
    }
}

/// The cycle times, in seconds, of the tasks done inside the range, in the
/// order the tasks first appear among the events.
fn range_samples(events: &Vec<TaskStatusEvent>, from: i128, to: i128) -> (r: Vec<i64>)
    requires
        events_in_span(events@),
    ensures
        r@ == cycle_samples(events@, first_occurrences(event_tasks(events@)), from as int, to as int),
{
    let (ids, by_task) = collect_cycles(events);
    let mut out: Vec<i64> = Vec::new();
    let mut k: usize = 0;
    while k < ids.len()
        invariant
            k <= ids@.len(),
            events_in_span(events@),
            ids@ == first_occurrences(event_tasks(events@)),
            forall|t: u128| #[trigger] by_task@.contains_key(t) <==> ids@.contains(t),
            forall|t: u128| by_task@.contains_key(t) ==> by_task@[t] == task_cycle(events@, t),
            out@ == cycle_samples(events@, ids@.take(k as int), from as int, to as int),
        decreases ids@.len() - k,
    {
        let t = ids[k];
        assert(ids@.take(k + 1).drop_last() == ids@.take(k as int));
        assert(ids@.take(k + 1).last() == t);
        assert(ids@.contains(t));
        assert(by_task@.contains_key(t));
        let c = match by_task.get(&t) {
            Some(c) => *c,
            None => TaskCycle { start: None, done: None },
        };
        proof {
            lemma_cycle_in_span(events@, t);
        }
        match (c.start, c.done) {
            (Some(start), Some(done)) => {
                if from <= done && done <= to {
                    let secs = seconds_between(start, done);
                    out.push(secs);
                }
            },
            _ => {},
        }
        k = k + 1;
    }
    assert(ids@.take(ids@.len() as int) == ids@);
    out
}

/// `v` in ascending order: the same values, as often as in `v`.
pub fn sort_ascending(v: &Vec<i64>) -> (r: Vec<i64>)
    ensures
        ascending(r@),
        r@.to_multiset() == v@.to_multiset(),
{
    let mut out: Vec<i64> = Vec::new();
    let mut k: usize = 0;
    while k < v.len()
        invariant
            k <= v.len(),
            ascending(out@),
            out@.to_multiset() == v@.take(k as int).to_multiset(),
        decreases v.len() - k,
    {
        let x = v[k];
        let mut p: usize = 0;
        while p < out.len() && out[p] <= x
            invariant
                p <= out@.len(),
                forall|q: int| 0 <= q < p ==> out@[q] <= x,
            decreases out@.len() - p,
        {
            p = p + 1;
        }
        let ghost old_out = out@;
        out.insert(p, x);
        proof {
            assert(out@ == old_out.insert(p as int, x));
            assert forall|i: int, j: int| 0 <= i < j < out@.len() implies out@[i] <= out@[j] by {
                if j < p {
                    assert(out@[i] == old_out[i] && out@[j] == old_out[j]);
                } else if j == p {
                    assert(out@[i] == old_out[i]);
                } else if i < p {
                    assert(out@[i] == old_out[i] && out@[j] == old_out[j - 1]);
                    assert(old_out[p as int] > x);
                } else if i == p {
                    assert(out@[j] == old_out[j - 1]);
                    assert(old_out[p as int] > x);
                } else {
                    assert(out@[i] == old_out[i - 1] && out@[j] == old_out[j - 1]);
                }
            }
            assert(out@.remove(p as int) == old_out);
            assert(out@.remove(p as int).to_multiset() == out@.to_multiset().remove(x));
            assert(out@.contains(x)) by {
                assert(out@[p as int] == x);
            }
            assert(out@.to_multiset() =~= old_out.to_multiset().insert(x));
            assert(v@.take(k + 1) == v@.take(k as int).push(x));
        }
        k = k + 1;
    }
    assert(v@.take(v.len() as int) == v@);
    out
}

/// The hour edges of the cycle-time histogram: each bucket holds the times
/// from one edge (included) to the next (left out).
pub open spec fn hist_edges() -> Seq<i64> {
    seq![0i64, 2, 6, 12, 24, 48, 72, 96, 168, 336, 672, 10_000]
}

/// The histogram edges.
pub fn bucket_edges() -> (r: Vec<i64>)
    ensures
        r@ == hist_edges(),
{
    vec![0i64, 2, 6, 12, 24, 48, 72, 96, 168, 336, 672, 10_000]
}

/// Whether a time of `secs` seconds falls, by its whole hours rounded down,
/// between `lo` (included) and `hi` (left out).
pub open spec fn in_hours(secs: i64, lo: i64, hi: i64) -> bool {
    lo <= secs / 3600 < hi
}

/// How many of the times fall in the bucket from `lo` to `hi` hours.
pub open spec fn count_in_hours(s: Seq<i64>, lo: i64, hi: i64) -> nat
    decreases s.len(),
{
    if s.len() == 0 {
        0
    } else {
        count_in_hours(s.drop_last(), lo, hi) + if in_hours(s.last(), lo, hi) { 1nat } else { 0nat }
    }
}

/// One bar of the cycle-time histogram.
#[derive(Debug, Clone, Copy, PartialEq, Eq, Structural)]
pub struct CycleTimeHistogramBucket {
    /// Lower bound in hours, included.
    pub from_hours: i64,
    /// Upper bound in hours, left out.
    pub to_hours: i64,
    pub count: i64,
}

proof fn lemma_count_in_hours_le(s: Seq<i64>, lo: i64, hi: i64)
    ensures
        count_in_hours(s, lo, hi) <= s.len(),
    decreases s.len(),
{
    if s.len() > 0 {
        lemma_count_in_hours_le(s.drop_last(), lo, hi);
    }
}

/// How many of the times fall in the bucket from `lo` to `hi` hours.
fn hours_count(samples: &Vec<i64>, lo: i64, hi: i64) -> (r: i64)
    requires
        0 <= lo,
        samples@.len() <= i64::MAX,
    ensures
        r == count_in_hours(samples@, lo, hi),
{
    let mut count: i64 = 0;
    let mut k: usize = 0;
    while k < samples.len()
        invariant
            k <= samples@.len() <= i64::MAX,
            0 <= lo,
            count == count_in_hours(samples@.take(k as int), lo, hi),
        decreases samples@.len() - k,
    {
        let d = samples[k];
        assert(samples@.take(k + 1).drop_last() == samples@.take(k as int));
        assert(samples@.take(k + 1).last() == d);
        proof {
            lemma_count_in_hours_le(samples@.take(k as int), lo, hi);
        }
        if d >= 0 {
            let h = d / 3600;
            if lo <= h && h < hi {
                count = count + 1;
            }
        } else {
            assert(d / 3600 < 0);
        }
        k = k + 1;
    }
    assert(samples@.take(samples@.len() as int) == samples@);
    count
}

/// The cycle-time histogram of the times, one bar between each two edges.
pub fn histogram_of(samples: &Vec<i64>) -> (r: Vec<CycleTimeHistogramBucket>)
    requires
        samples@.len() <= i64::MAX,
    ensures
        r@.len() == hist_edges().len() - 1,
        forall|i: int| 0 <= i < r@.len() ==> {
            &&& (#[trigger] r@[i]).from_hours == hist_edges()[i]
            &&& r@[i].to_hours == hist_edges()[i + 1]
            &&& r@[i].count == count_in_hours(samples@, hist_edges()[i], hist_edges()[i + 1])
        },
{
    let edges = bucket_edges();
    let mut out: Vec<CycleTimeHistogramBucket> = Vec::new();
    let mut w: usize = 0;
    while w + 1 < edges.len()
        invariant
            edges@ == hist_edges(),
            samples@.len() <= i64::MAX,
            w <= edges@.len() - 1,
            out@.len() == w,
            forall|i: int| 0 <= i < w ==> {
                &&& (#[trigger] out@[i]).from_hours == hist_edges()[i]
                &&& out@[i].to_hours == hist_edges()[i + 1]
                &&& out@[i].count == count_in_hours(samples@, hist_edges()[i], hist_edges()[i + 1])
            },
        decreases edges@.len() - w,
    {
        let lo = edges[w];
        let hi = edges[w + 1];
        assert(0 <= lo);
        let count = hours_count(samples, lo, hi);
        out.push(CycleTimeHistogramBucket { from_hours: lo, to_hours: hi, count });
        w = w + 1;
    }
    out
}

proof fn lemma_first_occurrences_len<A>(s: Seq<A>)
    ensures
        first_occurrences(s).len() <= s.len(),
    decreases s.len(),
{
    if s.len() > 0 {
        lemma_first_occurrences_len(s.drop_last());
    }
}

proof fn lemma_cycle_samples_len(events: Seq<TaskStatusEvent>, tasks: Seq<u128>, from: int, to: int)
    ensures
        cycle_samples(events, tasks, from, to).len() <= tasks.len(),
    decreases tasks.len(),
{
    if tasks.len() > 0 {
        lemma_cycle_samples_len(events, tasks.drop_last(), from, to);
    }
}

/// What a cycle-time report counts: the cycle times in ascending order, how
/// many there are, and their histogram.
#[derive(Debug, Clone)]
pub struct CycleTimeSamples {
    pub sample_size: i64,
    /// Whole seconds, ascending.
    pub seconds: Vec<i64>,
    pub histogram: Vec<CycleTimeHistogramBucket>,
}

/// The cycle times of a project's tasks whose cycle was done inside the
/// range, from its status events in the order they happened.
pub fn cycle_time_samples(events: &Vec<TaskStatusEvent>, range: &NormalizedRange) -> (r: CycleTimeSamples)
    requires
        events_in_span(events@),
        events@.len() <= i64::MAX,
    ensures
        ({
            let samples = cycle_samples(events@, first_occurrences(event_tasks(events@)), range.from as int, range.to as int);
            &&& ascending(r.seconds@)
            &&& r.seconds@.to_multiset() == samples.to_multiset()
            &&& r.sample_size == samples.len()
            &&& r.histogram@.len() == hist_edges().len() - 1
            &&& forall|i: int| 0 <= i < r.histogram@.len() ==> {
                &&& (#[trigger] r.histogram@[i]).from_hours == hist_edges()[i]
                &&& r.histogram@[i].to_hours == hist_edges()[i + 1]
                &&& r.histogram@[i].count == count_in_hours(samples, hist_edges()[i], hist_edges()[i + 1])
            }
        }),
{
    let samples = range_samples(events, range.from, range.to);
    proof {
        lemma_first_occurrences_len(event_tasks(events@));
        lemma_cycle_samples_len(events@, first_occurrences(event_tasks(events@)), range.from as int, range.to as int);
    }
    let histogram = histogram_of(&samples);
    let seconds = sort_ascending(&samples);
    let n = samples.len();
    CycleTimeSamples { sample_size: n as i64, seconds, histogram }
}

/// The counts of the bars, added up.
pub open spec fn counts_total(h: Seq<CycleTimeHistogramBucket>) -> int
    decreases h.len(),
{
    if h.len() == 0 {
        0
    } else {
        counts_total(h.drop_last()) + h.last().count
    }
}

proof fn lemma_count_split(s: Seq<i64>, a: i64, b: i64, c: i64)
    requires
        a <= b <= c,
    ensures
        count_in_hours(s, a, b) + count_in_hours(s, b, c) == count_in_hours(s, a, c),
    decreases s.len(),
{
    if s.len() > 0 {
        lemma_count_split(s.drop_last(), a, b, c);
    }
}

proof fn lemma_count_empty(s: Seq<i64>, a: i64)
    ensures
        count_in_hours(s, a, a) == 0,
    decreases s.len(),
{
    if s.len() > 0 {
        lemma_count_empty(s.drop_last(), a);
    }
}

/// The bars of the cycle-time histogram never overlap: together they count
/// each time from 0 up to 10 000 hours once, and so no more times than
/// there are.
pub proof fn lemma_histogram_total(samples: Seq<i64>, h: Seq<CycleTimeHistogramBucket>)
    requires
        h.len() == hist_edges().len() - 1,
        forall|i: int| 0 <= i < h.len() ==> (#[trigger] h[i]).count == count_in_hours(
            samples,
            hist_edges()[i],
            hist_edges()[i + 1],
        ),
    ensures
        counts_total(h) == count_in_hours(samples, 0, 10_000),
        counts_total(h) <= samples.len(),
{
    let e = hist_edges();
    assert forall|k: int| 0 <= k <= h.len() implies #[trigger] counts_total(h.take(k)) == count_in_hours(samples, e[0], e[k]) by {
        lemma_histogram_prefix(samples, h, k);
    }
    assert(h.take(h.len() as int) == h);
    assert(counts_total(h.take(11)) == count_in_hours(samples, e[0], e[11]));
    lemma_count_in_hours_le(samples, 0, 10_000);
}

proof fn lemma_histogram_prefix(samples: Seq<i64>, h: Seq<CycleTimeHistogramBucket>, k: int)
    requires
        h.len() == hist_edges().len() - 1,
        0 <= k <= h.len(),
        forall|i: int| 0 <= i < h.len() ==> (#[trigger] h[i]).count == count_in_hours(
            samples,
            hist_edges()[i],
            hist_edges()[i + 1],
        ),
    ensures
        counts_total(h.take(k)) == count_in_hours(samples, hist_edges()[0], hist_edges()[k]),
    decreases k,
{
    let e = hist_edges();
    if k == 0 {
        lemma_count_empty(samples, e[0]);
    } else {
        lemma_histogram_prefix(samples, h, k - 1);
        assert(h.take(k).drop_last() == h.take(k - 1));
        assert(h.take(k).last() == h[k - 1]);
        assert(e[0] <= e[k - 1] <= e[k]);
        lemma_count_split(samples, e[0], e[k - 1], e[k]);
    }
}

} // verus!
