//! Release notes of a sprint: the pull requests and commits of each completed
//! task, gathered from its merges, and the Markdown document that lists
//! them.
use vstd::prelude::*;
use crate::text::{
    seq_lt, trim, views, chars_of, chars_lt, chars_eq, trim_str, lemma_views_push, lemma_seq_lt_asym,
    lemma_seq_lt_total, lemma_seq_lt_trans,
};
use crate::merge::{Merge, PullRequestInfo, merge_commit_of};
use crate::model::{Task, Sprint};

verus! {

/// A completed task with the pull requests and commits that delivered it.
#[derive(Debug, Clone)]
pub struct ReleaseNotesTaskItem {
    pub task: Task,
    pub pull_requests: Vec<PullRequestInfo>,
    pub commits: Vec<String>,
}

/// Whether the sequences are in strictly ascending order.
pub open spec fn strictly_ascending(s: Seq<Seq<char>>) -> bool {
    forall|i: int, j: int| 0 <= i < j < s.len() ==> seq_lt(s[i], s[j])
}

/// The URLs of the pull requests.
pub open spec fn pr_urls(prs: Seq<PullRequestInfo>) -> Seq<Seq<char>> {
    prs.map_values(|p: PullRequestInfo| p.url@)
}

/// The trimmed, non-empty commits of the merges, in order.
pub open spec fn commit_candidates(merges: Seq<Merge>) -> Seq<Seq<char>>
    decreases merges.len(),
{
    if merges.len() == 0 {
        Seq::empty()
    } else {
        let prev = commit_candidates(merges.drop_last());
        match merge_commit_of(merges.last()) {
            Some(c) => if trim(c).len() > 0 { prev.push(trim(c)) } else { prev },
            None => prev,
        }
    }
}

/// The pull requests of the merges, in order.
pub open spec fn merge_prs(merges: Seq<Merge>) -> Seq<PullRequestInfo>
    decreases merges.len(),
{
    if merges.len() == 0 {
        Seq::empty()
    } else {
        let prev = merge_prs(merges.drop_last());
        match merges.last() {
            Merge::Pr(p) => prev.push(p.pr_info),
            Merge::Direct(_) => prev,
        }
    }
}

/// The first pull request with this URL, if there is one.
pub open spec fn first_with_url(prs: Seq<PullRequestInfo>, url: Seq<char>) -> Option<PullRequestInfo>
    decreases prs.len(),
{
    if prs.len() == 0 {
        None
    } else {
        match first_with_url(prs.drop_last(), url) {
            Some(p) => Some(p),
            None => if prs.last().url@ == url { Some(prs.last()) } else { None },
        }
    }
}

proof fn lemma_first_with_url(prs: Seq<PullRequestInfo>, url: Seq<char>)
    ensures
        first_with_url(prs, url) is Some <==> pr_urls(prs).contains(url),
        first_with_url(prs, url) matches Some(p) ==> p.url@ == url,
    decreases prs.len(),
{
    if prs.len() > 0 {
        let prev = prs.drop_last();
        lemma_first_with_url(prev, url);
        assert(pr_urls(prs) == pr_urls(prev).push(prs.last().url@));
        if pr_urls(prev).contains(url) {
            let w = choose|w: int| 0 <= w < pr_urls(prev).len() && pr_urls(prev)[w] == url;
            assert(pr_urls(prs)[w] == url);
        }
        if pr_urls(prs).contains(url) {
            let w = choose|w: int| 0 <= w < pr_urls(prs).len() && pr_urls(prs)[w] == url;
            if w < prev.len() {
                assert(pr_urls(prev)[w] == url);
            }
        }
        if prs.last().url@ == url {
            assert(pr_urls(prs)[prs.len() - 1] == url);
        }
    }
}

/// Adds `s` to a strictly ascending list of strings unless it is already
/// there; the list stays strictly ascending.
fn insert_sorted_unique(set: &mut Vec<String>, s: String)
    requires
        strictly_ascending(views(old(set)@)),
    ensures
        strictly_ascending(views(final(set)@)),
        forall|x: Seq<char>| views(final(set)@).contains(x) <==> (views(old(set)@).contains(x) || x == s@),
{
    let key = chars_of(s.as_str());
    let mut p: usize = 0;
    while p < set.len() && chars_lt(&chars_of(set[p].as_str()), &key)
        invariant
            p <= set@.len(),
            key@ == s@,
            strictly_ascending(views(set@)),
            forall|q: int| 0 <= q < p ==> seq_lt(#[trigger] views(set@)[q], s@),
        decreases set@.len() - p,
    {
        p = p + 1;
    }
    let ghost old_v = views(set@);
    if p < set.len() && chars_eq(&chars_of(set[p].as_str()), &key) {
        assert(old_v[p as int] == s@);
        return;
    }
    proof {
        if p < old_v.len() {
            lemma_seq_lt_total(old_v[p as int], s@);
            assert(seq_lt(s@, old_v[p as int]));
        }
        assert forall|q: int| p <= q < old_v.len() implies seq_lt(s@, #[trigger] old_v[q]) by {
            if q > p {
                lemma_seq_lt_trans(s@, old_v[p as int], old_v[q]);
            }
        }
    }
    let ghost old_set = set@;
    set.insert(p, s);
    proof {
        assert(views(set@) == old_v.insert(p as int, s@)) by {
            assert(set@ == old_set.insert(p as int, s));
            assert(views(set@) =~= old_v.insert(p as int, s@));
        }
        let nv = views(set@);
        assert forall|i: int, j: int| 0 <= i < j < nv.len() implies seq_lt(nv[i], nv[j]) by {
            if j < p {
                assert(nv[i] == old_v[i] && nv[j] == old_v[j]);
            } else if j == p {
                assert(nv[i] == old_v[i]);
            } else if i < p {
                assert(nv[i] == old_v[i] && nv[j] == old_v[j - 1]);
                lemma_seq_lt_trans(old_v[i], s@, old_v[j - 1]);
            } else if i == p {
                assert(nv[j] == old_v[j - 1]);
            } else {
                assert(nv[i] == old_v[i - 1] && nv[j] == old_v[j - 1]);
            }
        }
        assert forall|x: Seq<char>| nv.contains(x) <==> (old_v.contains(x) || x == s@) by {
            if old_v.contains(x) {
                let w = choose|w: int| 0 <= w < old_v.len() && old_v[w] == x;
                if w < p {
                    assert(nv[w] == x);
                } else {
                    assert(nv[w + 1] == x);
                }
            }
            if x == s@ {
                assert(nv[p as int] == x);
            }
            if nv.contains(x) {
                let w = choose|w: int| 0 <= w < nv.len() && nv[w] == x;
                if w < p {
                    assert(old_v[w] == x);
                } else if w > p {
                    assert(old_v[w - 1] == x);
                }
            }
        }
    }
}

/// Adds a pull request to a list strictly ascending by URL, unless one with
/// its URL is already there.
fn insert_pr_first(prs: &mut Vec<PullRequestInfo>, pr: PullRequestInfo)
    requires
        strictly_ascending(pr_urls(old(prs)@)),
    ensures
        strictly_ascending(pr_urls(final(prs)@)),
        pr_urls(old(prs)@).contains(pr.url@) ==> final(prs)@ == old(prs)@,
        !pr_urls(old(prs)@).contains(pr.url@) ==> exists|p: int| 0 <= p <= old(prs)@.len()
            && final(prs)@ == old(prs)@.insert(p, pr),
{
    let key = chars_of(pr.url.as_str());
    let mut p: usize = 0;
    while p < prs.len() && chars_lt(&chars_of(prs[p].url.as_str()), &key)
        invariant
            p <= prs@.len(),
            key@ == pr.url@,
            strictly_ascending(pr_urls(prs@)),
            forall|q: int| 0 <= q < p ==> seq_lt(#[trigger] pr_urls(prs@)[q], pr.url@),
        decreases prs@.len() - p,
    {
        p = p + 1;
    }
    let ghost old_v = pr_urls(prs@);
    let ghost old_prs = prs@;
    if p < prs.len() && chars_eq(&chars_of(prs[p].url.as_str()), &key) {
        assert(old_v[p as int] == pr.url@);
        return;
    }
    let ghost u = pr.url@;
    proof {
        if p < old_v.len() {
            lemma_seq_lt_total(old_v[p as int], u);
            assert(seq_lt(u, old_v[p as int]));
        }
        assert forall|q: int| p <= q < old_v.len() implies seq_lt(u, #[trigger] old_v[q]) by {
            if q > p {
                lemma_seq_lt_trans(u, old_v[p as int], old_v[q]);
            }
        }
        assert(!old_v.contains(u)) by {
            if old_v.contains(u) {
                let w = choose|w: int| 0 <= w < old_v.len() && old_v[w] == u;
                lemma_seq_lt_asym(u, u);
            }
        }
    }
    prs.insert(p, pr);
    proof {
        assert(pr_urls(prs@) =~= old_v.insert(p as int, u));
        let nv = pr_urls(prs@);
        assert forall|i: int, j: int| 0 <= i < j < nv.len() implies seq_lt(nv[i], nv[j]) by {
            if j < p {
                assert(nv[i] == old_v[i] && nv[j] == old_v[j]);
            } else if j == p {
                assert(nv[i] == old_v[i]);
            } else if i < p {
                assert(nv[i] == old_v[i] && nv[j] == old_v[j - 1]);
                lemma_seq_lt_trans(old_v[i], u, old_v[j - 1]);
            } else if i == p {
                assert(nv[j] == old_v[j - 1]);
            } else {
                assert(nv[i] == old_v[i - 1] && nv[j] == old_v[j - 1]);
            }
        }
    }
}

/// The release-notes entry of a completed task: its merges' distinct
/// commits (trimmed, blank ones left out) in ascending order, and their
/// pull requests, one per URL (the first merge that names it), by URL.
///
/// Both are kept as `Vec`s sorted by text with no repeats rather than as a
/// `BTreeSet<String>` and a `BTreeMap<String, _>`: vstd's contracts for
/// those hold only where `key_obeys_cmp_spec::<String>()` is known, and
/// vstd states it for no `String`.
pub fn build_task_item(task: Task, merges: Vec<Merge>) -> (r: ReleaseNotesTaskItem)
    ensures
        r.task == task,
        strictly_ascending(views(r.commits@)),
        forall|c: Seq<char>| views(r.commits@).contains(c) <==> commit_candidates(merges@).contains(c),
        strictly_ascending(pr_urls(r.pull_requests@)),
        forall|u: Seq<char>| pr_urls(r.pull_requests@).contains(u) <==> pr_urls(merge_prs(merges@)).contains(u),
        forall|i: int| 0 <= i < r.pull_requests@.len() ==> first_with_url(merge_prs(merges@), (#[trigger] r.pull_requests@[i]).url@)
            == Some(r.pull_requests@[i]),
{
    let ghost orig = merges@;
    let n = merges.len();
    let mut rest = merges;
    let mut commits: Vec<String> = Vec::new();
    let mut prs: Vec<PullRequestInfo> = Vec::new();
    let mut i: usize = 0;
    while i < n
        invariant
            i <= n == orig.len(),
            rest@ == orig.skip(i as int),
            strictly_ascending(views(commits@)),
            forall|c: Seq<char>| views(commits@).contains(c) <==> commit_candidates(orig.take(i as int)).contains(c),
            strictly_ascending(pr_urls(prs@)),
            forall|u: Seq<char>| pr_urls(prs@).contains(u) <==> pr_urls(merge_prs(orig.take(i as int))).contains(u),
            forall|k: int| 0 <= k < prs@.len() ==> first_with_url(merge_prs(orig.take(i as int)), (#[trigger] prs@[k]).url@)
                == Some(prs@[k]),
        decreases n - i,
    {
        assert(rest@[0] == orig[i as int]);
        let m = rest.remove(0);
        assert(rest@ == orig.skip(i + 1));
        let ghost before = orig.take(i as int);
        let ghost after = orig.take(i + 1);
        assert(after.drop_last() == before);
        assert(after.last() == m);
        let ghost old_cands = commit_candidates(before);
        match m.merge_commit() {
            Some(c) => {
                if !crate::text::is_blank(c.as_str()) {
                    let t = trim_str(c.as_str());
                    insert_sorted_unique(&mut commits, t);
                    proof {
                        assert(commit_candidates(after) == old_cands.push(trim(c@)));
                        assert forall|x: Seq<char>| old_cands.push(trim(c@)).contains(x) <==> (old_cands.contains(x) || x == trim(c@)) by {
                            if old_cands.contains(x) {
                                let w = choose|w: int| 0 <= w < old_cands.len() && old_cands[w] == x;
                                assert(old_cands.push(trim(c@))[w] == x);
                            }
                            if x == trim(c@) {
                                assert(old_cands.push(trim(c@))[old_cands.len() as int] == x);
                            }
                            if old_cands.push(trim(c@)).contains(x) {
                                let w = choose|w: int| 0 <= w < old_cands.len() + 1 && old_cands.push(trim(c@))[w] == x;
                                if w < old_cands.len() {
                                    assert(old_cands[w] == x);
                                }
                            }
                        }
                    }
                } else {
                    assert(commit_candidates(after) == old_cands);
                }
            },
            None => {
                assert(commit_candidates(after) == old_cands);
            },
        }
        let ghost old_prs = prs@;
        let ghost old_all = merge_prs(before);
        match m {
            Merge::Pr(pm) => {
                let x = pm.pr_info;
                let ghost xg = x;
                proof {
                    assert(merge_prs(after) == old_all.push(xg));
                    assert(pr_urls(old_all.push(xg)) == pr_urls(old_all).push(xg.url@));
                    lemma_first_with_url(old_all, xg.url@);
                }
                insert_pr_first(&mut prs, x);
                proof {
                    let all = old_all.push(xg);
                    assert(all.drop_last() == old_all);
                    assert(all.last() == xg);
                    assert forall|u: Seq<char>| pr_urls(all).contains(u) <==> (pr_urls(old_all).contains(u) || u == xg.url@) by {
                        let a = pr_urls(old_all);
                        if a.contains(u) {
                            let w = choose|w: int| 0 <= w < a.len() && a[w] == u;
                            assert(pr_urls(all)[w] == u);
                        }
                        if u == xg.url@ {
                            assert(pr_urls(all)[a.len() as int] == u);
                        }
                        if pr_urls(all).contains(u) {
                            let w = choose|w: int| 0 <= w < a.len() + 1 && pr_urls(all)[w] == u;
                            if w < a.len() {
                                assert(a[w] == u);
                            }
                        }
                    }
                    assert forall|k: int| 0 <= k < old_prs.len() implies first_with_url(all, (#[trigger] old_prs[k]).url@)
                        == Some(old_prs[k]) by {
                        assert(first_with_url(old_all, old_prs[k].url@) == Some(old_prs[k]));
                    }
                    if pr_urls(old_prs).contains(xg.url@) {
                        assert(prs@ == old_prs);
                        assert forall|u: Seq<char>| pr_urls(prs@).contains(u) <==> pr_urls(all).contains(u) by {}
                    } else {
                        let p = choose|p: int| 0 <= p <= old_prs.len() && prs@ == old_prs.insert(p, xg);
                        assert(first_with_url(old_all, xg.url@) is None);
                        assert(first_with_url(all, xg.url@) == Some(xg));
                        assert forall|k: int| 0 <= k < prs@.len() implies first_with_url(all, (#[trigger] prs@[k]).url@)
                            == Some(prs@[k]) by {
                            if k < p {
                                assert(prs@[k] == old_prs[k]);
                            } else if k > p {
                                assert(prs@[k] == old_prs[k - 1]);
                            }
                        }
                        assert(pr_urls(prs@) =~= pr_urls(old_prs).insert(p, xg.url@));
                        assert forall|u: Seq<char>| pr_urls(prs@).contains(u) <==> pr_urls(all).contains(u) by {
                            let a = pr_urls(old_prs);
                            let b = pr_urls(prs@);
                            if a.contains(u) {
                                let w = choose|w: int| 0 <= w < a.len() && a[w] == u;
                                if w < p {
                                    assert(b[w] == u);
                                } else {
                                    assert(b[w + 1] == u);
                                }
                            }
                            if u == xg.url@ {
                                assert(b[p] == u);
                            }
                            if b.contains(u) {
                                let w = choose|w: int| 0 <= w < b.len() && b[w] == u;
                                if w < p {
                                    assert(a[w] == u);
                                } else if w > p {
                                    assert(a[w - 1] == u);
                                }
                            }
                        }
                    }
                }
            },
            Merge::Direct(_) => {
                assert(merge_prs(after) == old_all);
            },
        }
        i = i + 1;
    }
    assert(orig.take(n as int) == orig);
    ReleaseNotesTaskItem { task, pull_requests: prs, commits }
}

/// Whether `v` holds a string with the characters of `s`.
fn contains_text(v: &Vec<String>, s: &str) -> (b: bool)
    ensures
        b == views(v@).contains(s@),
{
    let key = chars_of(s);
    let mut i: usize = 0;
    while i < v.len()
        invariant
            i <= v@.len(),
            key@ == s@,
            forall|k: int| 0 <= k < i ==> views(v@)[k] != s@,
        decreases v@.len() - i,
    {
        if chars_eq(&chars_of(v[i].as_str()), &key) {
            assert(views(v@)[i as int] == s@);
            return true;
        }
        i = i + 1;
    }
    false
}

/// How many different texts the strings hold.
fn count_distinct(strings: &Vec<String>) -> (r: usize)
    ensures
        r == views(strings@).to_set().len(),
{
    let mut seen: Vec<String> = Vec::new();
    let mut i: usize = 0;
    while i < strings.len()
        invariant
            i <= strings@.len(),
            views(seen@).no_duplicates(),
            forall|x: Seq<char>| views(seen@).contains(x) <==> views(strings@).take(i as int).contains(x),
        decreases strings@.len() - i,
    {
        let ghost prefix = views(strings@).take(i as int);
        let ghost next = views(strings@).take(i + 1);
        assert(next == prefix.push(strings@[i as int]@));
        let ghost old_seen = views(seen@);
        let ghost old_raw = seen@;
        if !contains_text(&seen, strings[i].as_str()) {
            let t = crate::text::copy_str(strings[i].as_str());
            seen.push(t);
            proof {
                lemma_views_push(old_raw, t);
            }
        }
        proof {
            let sv = views(seen@);
            assert(sv == old_seen || sv == old_seen.push(strings@[i as int]@));
            assert forall|x: Seq<char>| sv.contains(x) <==> next.contains(x) by {
                if prefix.contains(x) {
                    let w = choose|w: int| 0 <= w < prefix.len() && prefix[w] == x;
                    assert(next[w] == x);
                }
                if next.contains(x) {
                    let w = choose|w: int| 0 <= w < next.len() && next[w] == x;
                    if w < prefix.len() {
                        assert(prefix[w] == x);
                    }
                }
                if x == strings@[i as int]@ {
                    assert(next[i as int] == x);
                }
                if old_seen.contains(x) {
                    let w = choose|w: int| 0 <= w < old_seen.len() && old_seen[w] == x;
                    if sv != old_seen {
                        assert(sv[w] == x);
                    }
                }
                if sv.contains(x) && sv != old_seen {
                    let w = choose|w: int| 0 <= w < sv.len() && sv[w] == x;
                    if w < old_seen.len() {
                        assert(old_seen[w] == x);
                    }
                }
                if sv != old_seen && x == strings@[i as int]@ {
                    assert(sv[old_seen.len() as int] == x);
                }
            }
            if sv != old_seen {
                assert forall|a: int, b: int| 0 <= a < b < sv.len() implies sv[a] != sv[b] by {
                    if b == old_seen.len() {
                        assert(sv[a] == old_seen[a]);
                    }
                }
            }
        }
        i = i + 1;
    }
    proof {
        assert(views(strings@).take(strings@.len() as int) == views(strings@));
        views(seen@).unique_seq_to_set();
        assert(views(seen@).to_set() =~= views(strings@).to_set());
    }
    seen.len()
}

/// The pull-request URLs of all the items, in order.
pub open spec fn all_pr_urls(items: Seq<ReleaseNotesTaskItem>) -> Seq<Seq<char>>
    decreases items.len(),
{
    if items.len() == 0 {
        Seq::empty()
    } else {
        all_pr_urls(items.drop_last()) + pr_urls(items.last().pull_requests@)
    }
}

/// The commits of all the items, in order.
pub open spec fn all_commits(items: Seq<ReleaseNotesTaskItem>) -> Seq<Seq<char>>
    decreases items.len(),
{
    if items.len() == 0 {
        Seq::empty()
    } else {
        all_commits(items.drop_last()) + views(items.last().commits@)
    }
}

/// How many different pull requests (by URL) and different commits the
/// items name in all.
pub fn counts(items: &Vec<ReleaseNotesTaskItem>) -> (r: (usize, usize))
    ensures
        r.0 == all_pr_urls(items@).to_set().len(),
        r.1 == all_commits(items@).to_set().len(),
{
    let mut urls: Vec<String> = Vec::new();
    let mut shas: Vec<String> = Vec::new();
    let mut i: usize = 0;
    while i < items.len()
        invariant
            i <= items@.len(),
            views(urls@) == all_pr_urls(items@.take(i as int)),
            views(shas@) == all_commits(items@.take(i as int)),
        decreases items@.len() - i,
    {
        let item = &items[i];
        assert(items@.take(i + 1).drop_last() == items@.take(i as int));
        assert(items@.take(i + 1).last() == *item);
        let ghost base_urls = views(urls@);
        let ghost base_shas = views(shas@);
        let mut j: usize = 0;
        while j < item.pull_requests.len()
            invariant
                j <= item.pull_requests@.len(),
                views(urls@) == base_urls + pr_urls(item.pull_requests@).take(j as int),
            decreases item.pull_requests@.len() - j,
        {
            let t = crate::text::copy_str(item.pull_requests[j].url.as_str());
            let ghost before = urls@;
            urls.push(t);
            proof {
                lemma_views_push(before, t);
                assert(pr_urls(item.pull_requests@).take(j + 1) == pr_urls(item.pull_requests@).take(j as int).push(t@));
                assert(views(urls@) =~= base_urls + pr_urls(item.pull_requests@).take(j + 1));
            }
            j = j + 1;
        }
        assert(pr_urls(item.pull_requests@).take(item.pull_requests@.len() as int) == pr_urls(item.pull_requests@));
        let mut j: usize = 0;
        while j < item.commits.len()
            invariant
                j <= item.commits@.len(),
                views(shas@) == base_shas + views(item.commits@).take(j as int),
            decreases item.commits@.len() - j,
        {
            let t = crate::text::copy_str(item.commits[j].as_str());
            let ghost before = shas@;
            shas.push(t);
            proof {
                lemma_views_push(before, t);
                assert(views(item.commits@).take(j + 1) == views(item.commits@).take(j as int).push(t@));
                assert(views(shas@) =~= base_shas + views(item.commits@).take(j + 1));
            }
            j = j + 1;
        }
        assert(views(item.commits@).take(item.commits@.len() as int) == views(item.commits@));
        i = i + 1;
    }
    assert(items@.take(items@.len() as int) == items@);
    (count_distinct(&urls), count_distinct(&shas))
}

/// The bytes of a character in UTF-8.
pub open spec fn utf8_width(c: char) -> nat {
    if (c as u32) < 0x80 {
        1
    } else if (c as u32) < 0x800 {
        2
    } else if (c as u32) < 0x10000 {
        3
    } else {
        4
    }
}

/// The bytes of a text in UTF-8.
pub open spec fn utf8_len(s: Seq<char>) -> nat
    decreases s.len(),
{
    if s.len() == 0 {
        0
    } else {
        utf8_len(s.drop_last()) + utf8_width(s.last())
    }
}

/// Whether the first seven bytes of a trimmed commit hash end on a character
/// boundary, or it has no more than seven bytes (else cutting it fails).
pub open spec fn short_sha_defined(sha: Seq<char>) -> bool {
    let t = trim(sha);
    utf8_len(t) <= 7 || exists|k: int| 0 <= k <= t.len() && utf8_len(#[trigger] t.take(k)) == 7
}

/// A commit hash, trimmed, cut to its first seven bytes.
pub open spec fn short_sha_text(sha: Seq<char>) -> Seq<char> {
    let t = trim(sha);
    if utf8_len(t) <= 7 {
        t
    } else {
        t.take(choose|k: int| 0 <= k <= t.len() && utf8_len(#[trigger] t.take(k)) == 7)
    }
}

proof fn lemma_utf8_len_grows(s: Seq<char>, i: int, j: int)
    requires
        0 <= i < j <= s.len(),
    ensures
        utf8_len(s.take(i)) < utf8_len(s.take(j)),
    decreases j - i,
{
    assert(s.take(j).drop_last() == s.take(j - 1));
    if i < j - 1 {
        lemma_utf8_len_grows(s, i, j - 1);
    }
}

/// A shortened commit hash is the start of the trimmed hash, seven bytes at
/// most, and all of it when it has no more.
pub proof fn lemma_short_sha_is_prefix(sha: Seq<char>)
    requires
        short_sha_defined(sha),
    ensures
        short_sha_text(sha).is_prefix_of(trim(sha)),
        utf8_len(short_sha_text(sha)) <= 7,
        utf8_len(trim(sha)) <= 7 ==> short_sha_text(sha) == trim(sha),
{
    let t = trim(sha);
    if utf8_len(t) > 7 {
        let k = choose|k: int| 0 <= k <= t.len() && utf8_len(#[trigger] t.take(k)) == 7;
        assert(t.take(k).is_prefix_of(t));
    } else {
        assert(t.is_prefix_of(t));
    }
}

/// The UTF-8 width of a character, as `char::len_utf8` gives it.
fn utf8_width_of(c: char) -> (r: usize)
    ensures
        r == utf8_width(c),
{
    let u = c as u32;
    if u < 0x80 {
        1
    } else if u < 0x800 {
        2
    } else if u < 0x10000 {
        3
    } else {
        4
    }
}

/// A commit hash as release notes show it: trimmed and cut to seven bytes.
pub fn short_sha(sha: &str) -> (r: String)
    requires
        short_sha_defined(sha@),
    ensures
        r@ == short_sha_text(sha@),
{
    let v = chars_of(sha);
    let (lo, hi) = crate::text::trim_bounds(&v);
    let t = crate::text::string_of_range(&v, lo, hi);
    let tv = chars_of(t.as_str());
    let ghost ts = trim(sha@);
    assert(tv@ == ts);
    let n = tv.len();
    let mut acc: usize = 0;
    let mut k: usize = 0;
    while k < n && acc + utf8_width_of(tv[k]) <= 7
        invariant
            k <= n == ts.len(),
            tv@ == ts,
            acc == utf8_len(ts.take(k as int)),
            acc <= 7,
        decreases n - k,
    {
        assert(ts.take(k + 1).drop_last() == ts.take(k as int));
        acc = acc + utf8_width_of(tv[k]);
        k = k + 1;
    }
    if k == n {
        assert(ts.take(n as int) == ts);
        return t;
    }
    proof {
        assert(ts.take(k + 1).drop_last() == ts.take(k as int));
        assert(utf8_len(ts.take(k + 1)) > 7);
        assert(ts.take(n as int) == ts);
        if k + 1 < n {
            lemma_utf8_len_grows(ts, k + 1, n as int);
        }
        assert(utf8_len(ts) > 7);
        let w = choose|w: int| 0 <= w <= ts.len() && utf8_len(#[trigger] ts.take(w)) == 7;
        if w < k {
            lemma_utf8_len_grows(ts, w, k as int);
        } else if w > k {
            if w > k + 1 {
                lemma_utf8_len_grows(ts, k + 1, w);
            }
        }
        assert(w == k);
    }
    crate::text::string_of_range(&tv, 0, k)
}

/// Whether a commit hash can be shortened: it has at most seven bytes once
/// trimmed, or its seventh byte ends a character.
pub fn short_sha_ok(sha: &str) -> (r: bool)
    ensures
        r == short_sha_defined(sha@),
{
    let v = chars_of(sha);
    let (lo, hi) = crate::text::trim_bounds(&v);
    let ghost ts = trim(sha@);
    assert(v@.subrange(lo as int, hi as int) == ts);
    let mut acc: usize = 0;
    let mut k: usize = lo;
    while k < hi && acc + utf8_width_of(v[k]) <= 7
        invariant
            lo <= k <= hi <= v@.len(),
            v@.subrange(lo as int, hi as int) == ts,
            acc == utf8_len(ts.take(k - lo)),
            acc <= 7,
        decreases hi - k,
    {
        assert(ts.take(k + 1 - lo).drop_last() == ts.take(k - lo));
        assert(ts[k - lo] == v@[k as int]);
        acc = acc + utf8_width_of(v[k]);
        k = k + 1;
    }
    let ghost n = (hi - lo) as int;
    if k == hi {
        assert(ts.take(n) == ts);
        return true;
    }
    proof {
        let j = k - lo;
        assert(ts.take(j + 1).drop_last() == ts.take(j));
        assert(ts[j] == v@[k as int]);
        assert(utf8_len(ts.take(j + 1)) > 7);
        assert(ts.take(n) == ts);
        if j + 1 < n {
            lemma_utf8_len_grows(ts, j + 1, n);
        }
        if acc == 7 {
            assert(utf8_len(ts.take(j)) == 7);
        } else {
            assert forall|w: int| 0 <= w <= ts.len() implies utf8_len(#[trigger] ts.take(w)) != 7 by {
                if w < j {
                    lemma_utf8_len_grows(ts, w, j);
                } else if w > j + 1 {
                    lemma_utf8_len_grows(ts, j + 1, w);
                }
            }
        }
    }
    acc == 7
}

/// The date of an instant, as `%Y-%m-%d`.
pub fn format_date(t: i128) -> (r: String)
    requires
        crate::analytics::MIN_INSTANT <= t <= crate::analytics::MAX_INSTANT,
    ensures
        r@ == crate::clock::ymd_text(crate::clock::secs_of(t as int) as i64, crate::clock::subsec_of(t as int) as u32),
{
    let (secs, nanos) = crate::clock::split_instant(t);
    crate::clock::format_ymd(secs, nanos)
}

/// The list of completed tasks: one line per title.
pub open spec fn completed_lines(items: Seq<ReleaseNotesTaskItem>) -> Seq<char>
    decreases items.len(),
{
    if items.len() == 0 {
        Seq::empty()
    } else {
        completed_lines(items.drop_last()) + "- "@ + items.last().task.title@ + "\n"@
    }
}

/// One line per pull request: its URL and number.
pub open spec fn pr_lines(prs: Seq<PullRequestInfo>) -> Seq<char>
    decreases prs.len(),
{
    if prs.len() == 0 {
        Seq::empty()
    } else {
        pr_lines(prs.drop_last()) + "- "@ + prs.last().url@ + " (#"@ + crate::text::signed_decimal(prs.last().number as int)
            + ")\n"@
    }
}

/// One line per commit: its short hash as code.
pub open spec fn commit_lines(commits: Seq<String>) -> Seq<char>
    decreases commits.len(),
{
    if commits.len() == 0 {
        Seq::empty()
    } else {
        commit_lines(commits.drop_last()) + "- `"@ + short_sha_text(commits.last()@) + "`\n"@
    }
}

/// A task's description, trimmed, as a paragraph; nothing when it is blank
/// or missing.
pub open spec fn description_block(d: Option<String>) -> Seq<char> {
    match d {
        Some(x) => if trim(x@).len() > 0 { trim(x@) + "\n\n"@ } else { Seq::empty() },
        None => Seq::empty(),
    }
}

/// The pull-request block of a task, when it has any.
pub open spec fn pr_block(prs: Seq<PullRequestInfo>) -> Seq<char> {
    if prs.len() > 0 { "**Pull requests**\n"@ + pr_lines(prs) + "\n"@ } else { Seq::empty() }
}

/// The commit block of a task, when it has any.
pub open spec fn commit_block(commits: Seq<String>) -> Seq<char> {
    if commits.len() > 0 { "**Commits**\n"@ + commit_lines(commits) + "\n"@ } else { Seq::empty() }
}

/// The details section of one task.
pub open spec fn item_details(item: ReleaseNotesTaskItem) -> Seq<char> {
    title_line(item) + description_block(item.task.description) + pr_block(item.pull_requests@) + commit_block(item.commits@)
}

/// The details of every task, in order.
pub open spec fn details_lines(items: Seq<ReleaseNotesTaskItem>) -> Seq<char>
    decreases items.len(),
{
    if items.len() == 0 {
        Seq::empty()
    } else {
        details_lines(items.drop_last()) + item_details(items.last())
    }
}

/// Whether every commit of the items can be shortened.
pub open spec fn commits_shortenable(items: Seq<ReleaseNotesTaskItem>) -> bool {
    forall|i: int, j: int| 0 <= i < items.len() && 0 <= j < items[i].commits@.len() ==> short_sha_defined(
        #[trigger] items[i].commits@[j]@)
}

/// The head of the document: title, dates and summary counts.
pub open spec fn notes_head(name: Seq<char>, start: Seq<char>, end: Seq<char>, tasks: nat, prs: nat, commits: nat) -> Seq<char> {
    "# Release Notes — "@ + name + "\n\n"@ + "_"@ + start + " → "@ + end + "_\n\n"@ + "## Summary\n"@
        + "- Completed tasks: "@ + crate::text::decimal(tasks) + "\n"@ + "- Pull requests: "@ + crate::text::decimal(prs)
        + "\n"@ + "- Commits: "@ + crate::text::decimal(commits) + "\n\n"@ + "## Highlights\n"@ + "- \n\n"@
}

/// The completed and details sections.
pub open spec fn notes_body(items: Seq<ReleaseNotesTaskItem>) -> Seq<char> {
    "## Completed\n"@ + (if items.len() == 0 {
        "- _No completed tasks in this sprint._\n\n"@
    } else {
        completed_lines(items) + "\n"@
    }) + "## Details\n"@ + (if items.len() == 0 {
        "_No task details._\n\n"@
    } else {
        details_lines(items)
    })
}

/// The Markdown release notes of a sprint, generated at the instant that
/// `generated` names.
pub open spec fn release_notes_markdown(sprint: Sprint, items: Seq<ReleaseNotesTaskItem>, generated: Seq<char>) -> Seq<char> {
    notes_head(
        sprint.name@,
        crate::clock::ymd_text(crate::clock::secs_of(sprint.start_at as int) as i64, crate::clock::subsec_of(sprint.start_at as int) as u32),
        crate::clock::ymd_text(crate::clock::secs_of(sprint.end_at as int) as i64, crate::clock::subsec_of(sprint.end_at as int) as u32),
        items.len(),
        all_pr_urls(items).to_set().len(),
        all_commits(items).to_set().len(),
    ) + notes_body(items) + "## Metadata\n"@ + "- Generated: "@ + generated + "\n"@
}

/// Whether a sprint's dates lie in the span a UTC date-time can hold.
pub open spec fn sprint_in_span(sprint: Sprint) -> bool {
    &&& crate::analytics::MIN_INSTANT <= sprint.start_at <= crate::analytics::MAX_INSTANT
    &&& crate::analytics::MIN_INSTANT <= sprint.end_at <= crate::analytics::MAX_INSTANT
}

/// Appends the lines of the pull requests.
fn push_pr_lines(out: &mut String, prs: &Vec<PullRequestInfo>)
    ensures
        final(out)@ == old(out)@ + pr_lines(prs@),
{
    let ghost base = out@;
    let mut j: usize = 0;
    while j < prs.len()
        invariant
            j <= prs@.len(),
            out@ == base + pr_lines(prs@.take(j as int)),
        decreases prs@.len() - j,
    {
        let pr = &prs[j];
        assert(prs@.take(j + 1).drop_last() == prs@.take(j as int));
        assert(prs@.take(j + 1).last() == *pr);
        out.append("- ");
        out.append(pr.url.as_str());
        out.append(" (#");
        let num = crate::text::format_i64(pr.number);
        out.append(num.as_str());
        out.append(")\n");
        j = j + 1;
    }
    assert(prs@.take(prs@.len() as int) == prs@);
}

/// Appends the lines of the commits.
fn push_commit_lines(out: &mut String, commits: &Vec<String>)
    requires
        forall|j: int| 0 <= j < commits@.len() ==> short_sha_defined(#[trigger] commits@[j]@),
    ensures
        final(out)@ == old(out)@ + commit_lines(commits@),
{
    let ghost base = out@;
    let mut j: usize = 0;
    while j < commits.len()
        invariant
            j <= commits@.len(),
            forall|q: int| 0 <= q < commits@.len() ==> short_sha_defined(#[trigger] commits@[q]@),
            out@ == base + commit_lines(commits@.take(j as int)),
        decreases commits@.len() - j,
    {
        assert(commits@.take(j + 1).drop_last() == commits@.take(j as int));
        assert(commits@.take(j + 1).last() == commits@[j as int]);
        assert(short_sha_defined(commits@[j as int]@));
        out.append("- `");
        let short = short_sha(commits[j].as_str());
        out.append(short.as_str());
        out.append("`\n");
        j = j + 1;
    }
    assert(commits@.take(commits@.len() as int) == commits@);
}

/// The heading line of a task's details.
pub open spec fn title_line(item: ReleaseNotesTaskItem) -> Seq<char> {
    "### "@ + item.task.title@ + "\n"@
}

/// Appends the details section of one task.
#[verifier::spinoff_prover]
fn push_item_details(out: &mut String, item: &ReleaseNotesTaskItem)
    requires
        forall|j: int| 0 <= j < item.commits@.len() ==> short_sha_defined(#[trigger] item.commits@[j]@),
    ensures
        final(out)@ == old(out)@ + item_details(*item),
{
    let ghost base = out@;
    out.append("### ");
    out.append(item.task.title.as_str());
    out.append("\n");
    let ghost a = title_line(*item);
    assert(out@ =~= base + a);
    let ghost after_title = out@;
    match &item.task.description {
        Some(d) => {
            if !crate::text::is_blank(d.as_str()) {
                let t = trim_str(d.as_str());
                out.append(t.as_str());
                out.append("\n\n");
                assert(out@ =~= after_title + (trim(d@) + "\n\n"@));
            }
        },
        None => {},
    }
    let ghost b = description_block(item.task.description);
    assert(out@ =~= after_title + b);
    let ghost after_desc = out@;
    if item.pull_requests.len() > 0 {
        out.append("**Pull requests**\n");
        push_pr_lines(out, &item.pull_requests);
        out.append("\n");
        assert(out@ =~= after_desc + ("**Pull requests**\n"@ + pr_lines(item.pull_requests@) + "\n"@));
    }
    let ghost c = pr_block(item.pull_requests@);
    assert(out@ =~= after_desc + c);
    let ghost after_prs = out@;
    if item.commits.len() > 0 {
        out.append("**Commits**\n");
        push_commit_lines(out, &item.commits);
        out.append("\n");
        assert(out@ =~= after_prs + ("**Commits**\n"@ + commit_lines(item.commits@) + "\n"@));
    }
    let ghost e = commit_block(item.commits@);
    assert(out@ =~= after_prs + e);
    assert(item_details(*item) == a + b + c + e);
    assert(out@ =~= base + (a + b + c + e));
}

/// Appends the head of the document.
#[verifier::spinoff_prover]
fn push_head(out: &mut String, sprint: &Sprint, tasks: usize, prs: usize, commits: usize)
    requires
        sprint_in_span(*sprint),
    ensures
        final(out)@ == old(out)@ + notes_head(
            sprint.name@,
            crate::clock::ymd_text(crate::clock::secs_of(sprint.start_at as int) as i64, crate::clock::subsec_of(sprint.start_at as int) as u32),
            crate::clock::ymd_text(crate::clock::secs_of(sprint.end_at as int) as i64, crate::clock::subsec_of(sprint.end_at as int) as u32),
            tasks as nat,
            prs as nat,
            commits as nat,
        ),
{
    let ghost base = out@;
    let start = format_date(sprint.start_at);
    let end = format_date(sprint.end_at);
    let t = crate::text::format_usize(tasks);
    let p = crate::text::format_usize(prs);
    let c = crate::text::format_usize(commits);
    out.append("# Release Notes — ");
    out.append(sprint.name.as_str());
    out.append("\n\n");
    out.append("_");
    out.append(start.as_str());
    out.append(" → ");
    out.append(end.as_str());
    out.append("_\n\n");
    out.append("## Summary\n");
    out.append("- Completed tasks: ");
    out.append(t.as_str());
    out.append("\n");
    out.append("- Pull requests: ");
    out.append(p.as_str());
    out.append("\n");
    out.append("- Commits: ");
    out.append(c.as_str());
    out.append("\n\n");
    out.append("## Highlights\n");
    out.append("- \n\n");
    assert(out@ =~= base + notes_head(sprint.name@, start@, end@, tasks as nat, prs as nat, commits as nat));
}

/// Appends the completed and details sections.
#[verifier::spinoff_prover]
fn push_body(out: &mut String, items: &Vec<ReleaseNotesTaskItem>)
    requires
        commits_shortenable(items@),
    ensures
        final(out)@ == old(out)@ + notes_body(items@),
{
    let ghost base = out@;
    out.append("## Completed\n");
    let ghost after_head = out@;
    if items.len() == 0 {
        out.append("- _No completed tasks in this sprint._\n\n");
    } else {
        let mut i: usize = 0;
        while i < items.len()
            invariant
                i <= items@.len(),
                out@ == after_head + completed_lines(items@.take(i as int)),
            decreases items@.len() - i,
        {
            assert(items@.take(i + 1).drop_last() == items@.take(i as int));
            assert(items@.take(i + 1).last() == items@[i as int]);
            out.append("- ");
            out.append(items[i].task.title.as_str());
            out.append("\n");
            i = i + 1;
        }
        assert(items@.take(items@.len() as int) == items@);
        out.append("\n");
    }
    let ghost completed = if items@.len() == 0 {
        "- _No completed tasks in this sprint._\n\n"@
    } else {
        completed_lines(items@) + "\n"@
    };
    assert(out@ =~= after_head + completed);
    let ghost after_completed = out@;
    out.append("## Details\n");
    let ghost after_details_head = out@;
    if items.len() == 0 {
        out.append("_No task details._\n\n");
    } else {
        let mut i: usize = 0;
        while i < items.len()
            invariant
                i <= items@.len(),
                commits_shortenable(items@),
                out@ == after_details_head + details_lines(items@.take(i as int)),
            decreases items@.len() - i,
        {
            assert(items@.take(i + 1).drop_last() == items@.take(i as int));
            assert(items@.take(i + 1).last() == items@[i as int]);
            assert forall|j: int| 0 <= j < items@[i as int].commits@.len() implies short_sha_defined(
                #[trigger] items@[i as int].commits@[j]@) by {
                assert(short_sha_defined(items@[i as int].commits@[j]@));
            }
            push_item_details(out, &items[i]);
            i = i + 1;
        }
        assert(items@.take(items@.len() as int) == items@);
    }
    let ghost details = if items@.len() == 0 { "_No task details._\n\n"@ } else { details_lines(items@) };
    assert(out@ =~= after_details_head + details);
    assert(notes_body(items@) == "## Completed\n"@ + completed + "## Details\n"@ + details);
    assert(out@ =~= base + notes_body(items@));
}

/// The Markdown release notes of a sprint and its completed tasks, stamped
/// with the generation instant `generated`: title and dates, summary counts
/// (tasks, distinct pull requests, distinct commits), a highlights stub, the
/// list of completed tasks, each task's details, and the stamp.
pub fn render_release_notes_at(sprint: &Sprint, items: &Vec<ReleaseNotesTaskItem>, generated: &str) -> (r: String)
    requires
        sprint_in_span(*sprint),
        commits_shortenable(items@),
    ensures
        r@ == release_notes_markdown(*sprint, items@, generated@),
{
    let (pr_count, commit_count) = counts(items);
    let mut out = String::new();
    push_head(&mut out, sprint, items.len(), pr_count, commit_count);
    push_body(&mut out, items);
    out.append("## Metadata\n");
    out.append("- Generated: ");
    out.append(generated);
    out.append("\n");
    assert(out@ =~= release_notes_markdown(*sprint, items@, generated@));
    out
}

/// Whether `markdown` is the release notes stamped with the RFC 3339 text of
/// some instant at or after the Unix epoch: the instant they were made.
pub open spec fn stamped_release_notes(sprint: Sprint, items: Seq<ReleaseNotesTaskItem>, markdown: Seq<char>) -> bool {
    exists|secs: i64, nanos: u32|
        0 <= secs <= 8_210_266_876_799 && nanos < 1_000_000_000
            && markdown == #[trigger] release_notes_markdown(sprint, items, crate::clock::rfc3339_text(secs, nanos))
}

/// The Markdown release notes, stamped with the current time (RFC 3339).
pub fn render_release_notes_markdown(sprint: &Sprint, items: &Vec<ReleaseNotesTaskItem>) -> (r: String)
    requires
        sprint_in_span(*sprint),
        commits_shortenable(items@),
    ensures
        stamped_release_notes(*sprint, items@, r@),
{
    let (secs, nanos) = crate::clock::utc_now_parts();
    let now = crate::clock::format_rfc3339(secs, nanos);
    let r = render_release_notes_at(sprint, items, now.as_str());
    assert(r@ == release_notes_markdown(*sprint, items@, crate::clock::rfc3339_text(secs, nanos)));
    r
}

/// The counts of a release.
#[derive(Debug, Clone, Copy, PartialEq, Eq, Structural)]
pub struct ReleaseNotesStats {
    pub tasks_done: usize,
    pub pull_requests: usize,
    pub commits: usize,
}

/// The release notes of a sprint: the document, its counts and its tasks.
#[derive(Debug, Clone)]
pub struct ReleaseNotesResponse {
    pub sprint: Sprint,
    pub markdown: String,
    pub stats: ReleaseNotesStats,
    pub tasks: Vec<ReleaseNotesTaskItem>,
}

/// The release notes of a sprint and its completed tasks.
pub fn build_release_notes_response(sprint: Sprint, tasks: Vec<ReleaseNotesTaskItem>) -> (r: ReleaseNotesResponse)
    requires
        sprint_in_span(sprint),
        commits_shortenable(tasks@),
    ensures
        r.sprint == sprint,
        r.tasks@ == tasks@,
        r.stats.tasks_done == tasks@.len(),
        r.stats.pull_requests == all_pr_urls(tasks@).to_set().len(),
        r.stats.commits == all_commits(tasks@).to_set().len(),
        stamped_release_notes(sprint, tasks@, r.markdown@),
{
    let (pull_requests, commits) = counts(&tasks);
    let stats = ReleaseNotesStats { tasks_done: tasks.len(), pull_requests, commits };
    let markdown = render_release_notes_markdown(&sprint, &tasks);
    ReleaseNotesResponse { sprint, markdown, stats, tasks }
}

} // verus!
