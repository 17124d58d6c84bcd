//! Developer-experience series: how many agent turns or runs fell on each
//! day of a range, and the files of a repository that change most often.
use vstd::prelude::*;
use crate::analytics::{DAY_NANOS, MIN_INSTANT, MAX_INSTANT};
use crate::cycle_time::trunc_div;
use crate::ordering::{is_stable_order, sorts_before, stable_sort_by_keys};

verus! {

/// The value of a series on one day.
#[derive(Debug, Clone, Copy, PartialEq, Eq, Structural)]
pub struct AnalyticsPoint {
    pub ts: i128,
    pub value: i64,
}

/// The whole days from `from` to `t`, rounded toward zero.
pub open spec fn day_index(t: i128, from: i128) -> int {
    trunc_div(t - from, DAY_NANOS as int)
}

/// How many of the instants fall on day `d` of a range that starts at
/// `from`.
pub open spec fn count_on_day(times: Seq<i128>, from: i128, d: int) -> nat
    decreases times.len(),
{
    if times.len() == 0 {
        0
    } else {
        count_on_day(times.drop_last(), from, d) + if day_index(times.last(), from) == d { 1nat } else { 0nat }
    }
}

/// Whether every instant lies in the span a UTC date-time can hold.
pub open spec fn times_in_span(times: Seq<i128>) -> bool {
    forall|i: int| 0 <= i < times.len() ==> MIN_INSTANT <= #[trigger] times[i] <= MAX_INSTANT
}

proof fn lemma_count_on_day_le(times: Seq<i128>, from: i128, d: int)
    ensures
        count_on_day(times, from, d) <= times.len(),
    decreases times.len(),
{
    if times.len() > 0 {
        lemma_count_on_day_le(times.drop_last(), from, d);
    }
}

/// The whole days from `from` to `t`, rounded toward zero.
fn days_between(from: i128, t: i128) -> (r: i128)
    requires
        MIN_INSTANT <= from <= MAX_INSTANT,
        MIN_INSTANT <= t <= MAX_INSTANT,
    ensures
        r == day_index(t, from),
{
    let d = t - from;
    if d >= 0 {
        d / DAY_NANOS
    } else {
        let nd = -d;
        -(nd / DAY_NANOS)
    }
}

/// A day series over the buckets of a range that starts at `range_from`:
/// bucket `i` counts the instants that lie `i` whole days after the start.
pub fn bucketize(range_from: i128, buckets: &Vec<i128>, times: &Vec<i128>) -> (r: Vec<AnalyticsPoint>)
    requires
        MIN_INSTANT <= range_from <= MAX_INSTANT,
        times_in_span(times@),
        times@.len() <= i64::MAX,
    ensures
        r@.len() == buckets@.len(),
        forall|i: int| 0 <= i < r@.len() ==> (#[trigger] r@[i]).ts == buckets@[i]
            && r@[i].value == count_on_day(times@, range_from, i),
{
    let n = buckets.len();
    let mut counts: Vec<i64> = Vec::new();
    let mut j: usize = 0;
    while j < n
        invariant
            j <= n == buckets@.len(),
            counts@.len() == j,
            forall|i: int| 0 <= i < j ==> counts@[i] == 0,
        decreases n - j,
    {
        counts.push(0);
        j = j + 1;
    }
    let mut k: usize = 0;
    while k < times.len()
        invariant
            k <= times@.len() <= i64::MAX,
            MIN_INSTANT <= range_from <= MAX_INSTANT,
            times_in_span(times@),
            counts@.len() == n,
            forall|i: int| 0 <= i < n ==> #[trigger] counts@[i] == count_on_day(times@.take(k as int), range_from, i),
        decreases times@.len() - k,
    {
        let t = times[k];
        let ghost before = times@.take(k as int);
        assert(times@.take(k + 1).drop_last() == before);
        assert(times@.take(k + 1).last() == t);
        let days = days_between(range_from, t);
        let ghost old_counts = counts@;
        if days >= 0 && days < n as i128 {
            let idx = days as usize;
            proof {
                lemma_count_on_day_le(before, range_from, idx as int);
            }
            let c = counts[idx];
            counts.set(idx, c + 1);
        }
        proof {
            assert forall|i: int| 0 <= i < n implies #[trigger] counts@[i] == count_on_day(times@.take(k + 1), range_from, i) by {
                assert(old_counts[i] == count_on_day(before, range_from, i));
            }
        }
        k = k + 1;
    }
    assert(times@.take(times@.len() as int) == times@);
    let mut out: Vec<AnalyticsPoint> = Vec::new();
    let mut i: usize = 0;
    while i < n
        invariant
            i <= n == buckets@.len() == counts@.len(),
            forall|q: int| 0 <= q < n ==> counts@[q] == count_on_day(times@, range_from, q),
            out@.len() == i,
            forall|q: int| 0 <= q < i ==> (#[trigger] out@[q]).ts == buckets@[q]
                && out@[q].value == count_on_day(times@, range_from, q),
        decreases n - i,
    {
        out.push(AnalyticsPoint { ts: buckets[i], value: counts[i] });
        i = i + 1;
    }
    out
}

/// How often a file of a repository changed, and when it last did.
#[derive(Debug, Clone)]
pub struct FileHotspot {
    pub path: String,
    pub commit_count: i64,
    pub last_modified_at: i128,
}

/// The files of one repository that change most often.
#[derive(Debug, Clone)]
pub struct RepoHotspots {
    pub repo_id: u128,
    pub repo_display_name: String,
    pub files: Vec<FileHotspot>,
}

/// How many files a repository's hotspot list keeps.
pub const HOTSPOT_LIMIT: usize = 20;

/// The sort key of a hotspot: more commits first, then the latest change
/// first (`-1 - x` reverses the order of integers and stays in range).
pub open spec fn hotspot_key(f: FileHotspot) -> (i128, i128) {
    ((-1 - f.commit_count) as i128, (-1 - f.last_modified_at) as i128)
}

/// The sort keys of the files.
pub open spec fn hotspot_keys(files: Seq<FileHotspot>) -> Seq<(i128, i128)> {
    files.map_values(|f: FileHotspot| hotspot_key(f))
}

/// Whether `a` may come before `b` in a hotspot list: it has more commits,
/// or as many and a change at least as late.
pub open spec fn ranks_before(a: FileHotspot, b: FileHotspot) -> bool {
    a.commit_count > b.commit_count || (a.commit_count == b.commit_count && a.last_modified_at >= b.last_modified_at)
}

/// The hotspot list of a repository: its files by commit count, most first,
/// then by last change, latest first (files that tie keep their order), and
/// at most the first twenty of them.
pub fn top_hotspots(files: Vec<FileHotspot>) -> (r: Vec<FileHotspot>)
    ensures
        r@.len() == if files@.len() < HOTSPOT_LIMIT { files@.len() } else { HOTSPOT_LIMIT as nat },
        exists|perm: Seq<usize>| #![trigger is_stable_order(hotspot_keys(files@), perm)]
            is_stable_order(hotspot_keys(files@), perm)
            && r@ == perm.map_values(|i: usize| files@[i as int]).take(r@.len() as int),
        forall|i: int, j: int| 0 <= i < j < r@.len() ==> ranks_before(r@[i], r@[j]),
{
    let ghost orig = files@;
    let mut keys: Vec<(i128, i128)> = Vec::new();
    let mut k: usize = 0;
    while k < files.len()
        invariant
            k <= files@.len(),
            keys@.len() == k,
            forall|i: int| 0 <= i < k ==> keys@[i] == hotspot_key(files@[i]),
        decreases files@.len() - k,
    {
        let c = files[k].commit_count as i128;
        let t = files[k].last_modified_at;
        let key = (-1 - c, -1 - t);
        assert(key == hotspot_key(files@[k as int]));
        keys.push(key);
        k = k + 1;
    }
    assert(keys@ == hotspot_keys(orig));
    let mut sorted = stable_sort_by_keys(files, keys);
    let ghost perm = choose|perm: Seq<usize>| #![trigger is_stable_order(hotspot_keys(orig), perm)]
        is_stable_order(hotspot_keys(orig), perm) && sorted@ == perm.map_values(|i: usize| orig[i as int]);
    proof {
        assert forall|i: int, j: int| 0 <= i < j < sorted@.len() implies ranks_before(sorted@[i], sorted@[j]) by {
            let a = orig[perm[i] as int];
            let b = orig[perm[j] as int];
            assert(sorted@[i] == a && sorted@[j] == b);
            assert(sorts_before(hotspot_keys(orig), perm[i] as int, perm[j] as int));
            assert(hotspot_keys(orig)[perm[i] as int] == hotspot_key(a));
            assert(hotspot_keys(orig)[perm[j] as int] == hotspot_key(b));
        }
    }
    sorted.truncate(HOTSPOT_LIMIT);
    assert(sorted@ == perm.map_values(|i: usize| orig[i as int]).take(sorted@.len() as int));
    sorted
}

/// A project's developer-experience figures over a range.
#[derive(Debug, Clone)]
pub struct DevExResponse {
    pub agent_turns: Vec<AnalyticsPoint>,
    pub agent_runs: Vec<AnalyticsPoint>,
    pub tasks_touched: i64,
    pub hotspots: Vec<RepoHotspots>,
}

} // verus!
