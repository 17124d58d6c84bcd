//! Stable ordering by integer keys: the order that `sort_by` (a stable sort)
//! gives a list when it compares pairs of integers lexicographically, and
//! lists of ids without repeats. vstd gives `sort_by` no contract, so the
//! order is computed here and proved.
use vstd::prelude::*;

verus! {

/// Lexicographic strict order on key pairs.
pub open spec fn key_lt(a: (i128, i128), b: (i128, i128)) -> bool {
    a.0 < b.0 || (a.0 == b.0 && a.1 < b.1)
}

/// Whether position `x` comes before position `y` in a stable sort by
/// `keys`: a smaller key first, equal keys in their original order.
pub open spec fn sorts_before(keys: Seq<(i128, i128)>, x: int, y: int) -> bool {
    key_lt(keys[x], keys[y]) || (keys[x] == keys[y] && x < y)
}

/// Whether `perm` lists each position of `keys` once, in stable sorted
/// order.
pub open spec fn is_stable_order(keys: Seq<(i128, i128)>, perm: Seq<usize>) -> bool {
    &&& perm.len() == keys.len()
    &&& forall|i: int| 0 <= i < perm.len() ==> perm[i] < keys.len()
    &&& forall|x: usize| x < keys.len() ==> #[trigger] perm.contains(x)
    &&& forall|i: int, j: int| 0 <= i < j < perm.len() ==> sorts_before(keys, perm[i] as int, perm[j] as int)
}

/// Whether `a` is strictly below `b` lexicographically.
pub fn key_lt_exec(a: (i128, i128), b: (i128, i128)) -> (r: bool)
    ensures
        r == key_lt(a, b),
{
    a.0 < b.0 || (a.0 == b.0 && a.1 < b.1)
}


/// The elements of `s` without repeats, each at its first occurrence.
pub open spec fn first_occurrences<A>(s: Seq<A>) -> Seq<A>
    decreases s.len(),
{
    if s.len() == 0 {
        s
    } else {
        let prev = first_occurrences(s.drop_last());
        if prev.contains(s.last()) {
            prev
        } else {
            prev.push(s.last())
        }
    }
}

/// The elements of `first_occurrences(s)` are those of `s`, each once.
pub proof fn lemma_first_occurrences(s: Seq<u128>)
    ensures
        first_occurrences(s).no_duplicates(),
        forall|x: u128| first_occurrences(s).contains(x) <==> s.contains(x),
    decreases s.len(),
{
    if s.len() > 0 {
        lemma_first_occurrences(s.drop_last());
        let prev = first_occurrences(s.drop_last());
        let cur = first_occurrences(s);
        assert forall|x: u128| cur.contains(x) <==> s.contains(x) by {
            if prev.contains(x) {
                let w = choose|w: int| 0 <= w < prev.len() && prev[w] == x;
                assert(cur[w] == x);
            }
            if s.contains(x) {
                let w = choose|w: int| 0 <= w < s.len() && s[w] == x;
                if w < s.len() - 1 {
                    assert(s.drop_last()[w] == x);
                } else if !prev.contains(x) {
                    assert(cur[prev.len() as int] == x);
                }
            }
            if s.drop_last().contains(x) {
                let w = choose|w: int| 0 <= w < s.len() - 1 && s.drop_last()[w] == x;
                assert(s[w] == x);
            }
            if cur.contains(x) && !prev.contains(x) {
                let w = choose|w: int| 0 <= w < cur.len() && cur[w] == x;
                assert(w == prev.len());
                assert(s[s.len() - 1] == x);
            }
        }
    }
}

/// Whether `v` holds `x`.
pub fn contains_id(v: &Vec<u128>, x: u128) -> (b: bool)
    ensures
        b == v@.contains(x),
{
    let mut i: usize = 0;
    while i < v.len()
        invariant
            i <= v.len(),
            forall|k: int| 0 <= k < i ==> v@[k] != x,
        decreases v.len() - i,
    {
        if v[i] == x {
            return true;
        }
        i = i + 1;
    }
    false
}

/// The ids of `ids` without repeats, in the order they first appear.
pub fn dedup_ids(ids: &Vec<u128>) -> (r: Vec<u128>)
    ensures
        r@ == first_occurrences(ids@),
{
    let mut out: Vec<u128> = Vec::new();
    let mut i: usize = 0;
    while i < ids.len()
        invariant
            i <= ids.len(),
            out@ == first_occurrences(ids@.take(i as int)),
        decreases ids.len() - i,
    {
        assert(ids@.take(i + 1).drop_last() == ids@.take(i as int));
        if !contains_id(&out, ids[i]) {
            out.push(ids[i]);
        }
        i = i + 1;
    }
    assert(ids@.take(ids.len() as int) == ids@);
    out
}


/// Bitwise complement reverses the order of integers.
pub proof fn lemma_complement_reverses(a: i128, b: i128)
    ensures
        (a < b) == (!b < !a),
        (a == b) == (!a == !b),
{
    assert((a < b) == (!b < !a)) by (bit_vector);
    assert((a == b) == (!a == !b)) by (bit_vector);
}


/// `items` arranged by a stable sort on `keys` (one key per item): the item
/// at each place is the one that `stable_order` puts there.
pub fn stable_sort_by_keys<T>(items: Vec<T>, keys: Vec<(i128, i128)>) -> (r: Vec<T>)
    requires
        items@.len() == keys@.len(),
    ensures
        exists|perm: Seq<usize>| #![trigger is_stable_order(keys@, perm)]
            is_stable_order(keys@, perm) && r@ == perm.map_values(|i: usize| items@[i as int]),
{
    let ghost orig = items@;
    let n = keys.len();
    let mut rest = items;
    let mut out: Vec<T> = Vec::new();
    let mut out_keys: Vec<(i128, i128)> = Vec::new();
    let ghost mut perm: Seq<usize> = Seq::empty();
    let mut k: usize = 0;
    while k < n
        invariant
            k <= n == keys@.len() == orig.len(),
            rest@ == orig.skip(k as int),
            perm.len() == k,
            out@.len() == k,
            out_keys@.len() == k,
            forall|i: int| 0 <= i < k ==> perm[i] < k,
            forall|x: usize| x < k ==> #[trigger] perm.contains(x),
            forall|i: int, j: int| 0 <= i < j < perm.len() ==> sorts_before(keys@, perm[i] as int, perm[j] as int),
            forall|i: int| 0 <= i < k ==> out@[i] == orig[#[trigger] perm[i] as int] && out_keys@[i] == keys@[perm[i] as int],
        decreases n - k,
    {
        let kk = keys[k];
        let mut p: usize = 0;
        while p < out_keys.len() && !key_lt_exec(kk, out_keys[p])
            invariant
                p <= out_keys@.len() == perm.len(),
                k < n == keys.len(),
                kk == keys@[k as int],
                forall|i: int| 0 <= i < perm.len() ==> out_keys@[i] == keys@[perm[i] as int],
                forall|q: int| 0 <= q < p ==> !key_lt(kk, keys@[perm[q] as int]),
            decreases out_keys@.len() - p,
        {
            p = p + 1;
        }
        let ghost old_perm = perm;
        let ghost old_out = out@;
        let ghost old_keys = out_keys@;
        proof {
            assert forall|q: int| p <= q < old_perm.len() implies key_lt(kk, keys@[old_perm[q] as int]) by {
                if q > p {
                    assert(sorts_before(keys@, old_perm[p as int] as int, old_perm[q] as int));
                }
            }
        }
        assert(rest@.len() > 0);
        assert(rest@[0] == orig[k as int]);
        let item = rest.remove(0);
        assert(rest@ == orig.skip(k + 1));
        out.insert(p, item);
        out_keys.insert(p, kk);
        proof {
            perm = old_perm.insert(p as int, k);
            assert forall|i: int, j: int| 0 <= i < j < perm.len() implies sorts_before(keys@, perm[i] as int, perm[j] as int) by {
                if j < p {
                    assert(perm[i] == old_perm[i] && perm[j] == old_perm[j]);
                } else if j == p {
                    assert(perm[i] == old_perm[i]);
                } else if i < p {
                    assert(perm[i] == old_perm[i] && perm[j] == old_perm[j - 1]);
                } else if i == p {
                    assert(perm[j] == old_perm[j - 1]);
                } else {
                    assert(perm[i] == old_perm[i - 1] && perm[j] == old_perm[j - 1]);
                }
            }
            assert forall|x: usize| x < k + 1 implies #[trigger] perm.contains(x) by {
                if x == k {
                    assert(perm[p as int] == k);
                } else {
                    assert(old_perm.contains(x));
                    let w = choose|w: int| 0 <= w < old_perm.len() && old_perm[w] == x;
                    if w < p {
                        assert(perm[w] == old_perm[w]);
                    } else {
                        assert(perm[w + 1] == old_perm[w]);
                    }
                }
            }
            assert forall|i: int| 0 <= i < k + 1 implies #[trigger] perm[i] < k + 1 && out@[i] == orig[perm[i] as int]
                && out_keys@[i] == keys@[perm[i] as int] by {
                if i < p {
                    assert(perm[i] == old_perm[i]);
                    assert(out@[i] == old_out[i]);
                    assert(out_keys@[i] == old_keys[i]);
                } else if i == p {
                    assert(perm[i] == k);
                    assert(out@[i] == item);
                    assert(out_keys@[i] == kk);
                } else {
                    assert(perm[i] == old_perm[i - 1]);
                    assert(out@[i] == old_out[i - 1]);
                    assert(out_keys@[i] == old_keys[i - 1]);
                }
            }
        }
        k = k + 1;
    }
    let ghost f = |i: usize| orig[i as int];
    assert forall|i: int| 0 <= i < out@.len() implies out@[i] == perm.map_values(f)[i] by {
        assert(out@[i] == orig[perm[i] as int]);
    }
    assert(out@ =~= perm.map_values(f));
    assert(is_stable_order(keys@, perm));
    out
}

} // verus!
