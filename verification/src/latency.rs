//! The latencies of a link's successful probes.

use vstd::prelude::*;

verus! {

/// How many latencies are kept between rounds.
pub const HISTORY_CAP: usize = 500;

/// How many of the values are at most `v`.
pub open spec fn at_most(s: Seq<u128>, v: u128) -> nat
    decreases s.len(),
{
    if s.len() == 0 {
        0
    } else {
        at_most(s.drop_last(), v) + if s.last() <= v {
            1nat
        } else {
            0nat
        }
    }
}

/// At least 95 percent of the values are at most `v`.
pub open spec fn covers_95_percent(s: Seq<u128>, v: u128) -> bool {
    100 * at_most(s, v) >= 95 * s.len()
}

/// The 95th percentile by nearest rank: the least of the values that covers 95 percent of them.
pub open spec fn is_p95(s: Seq<u128>, v: u128) -> bool {
    &&& s.contains(v)
    &&& covers_95_percent(s, v)
    &&& forall|w: u128| #[trigger] s.contains(w) && covers_95_percent(s, w) ==> v <= w
}

/// What the percentile of `s` may be: none exactly when there are no values.
pub open spec fn p95_of(s: Seq<u128>, r: Option<u128>) -> bool {
    match r {
        Some(v) => is_p95(s, v),
        None => s.len() == 0,
    }
}

/// The latest latencies, oldest first, up to the cap.
pub open spec fn kept(history: Seq<u128>) -> Seq<u128> {
    if history.len() <= HISTORY_CAP {
        history
    } else {
        history.skip(history.len() - HISTORY_CAP)
    }
}

pub open spec fn ascending(s: Seq<u128>) -> bool {
    forall|i: int, j: int| 0 <= i <= j < s.len() ==> s[i] <= s[j]
}

proof fn lemma_at_most_insert(s: Seq<u128>, k: int, x: u128, v: u128)
    requires
        0 <= k <= s.len(),
    ensures
        at_most(s.insert(k, x), v) == at_most(s, v) + if x <= v {
            1nat
        } else {
            0nat
        },
    decreases s.len(),
{
    let t = s.insert(k, x);
    if k == s.len() {
        assert(t.drop_last() =~= s);
    } else {
        lemma_at_most_insert(s.drop_last(), k, x, v);
        assert(t.drop_last() =~= s.drop_last().insert(k, x));
        assert(t.last() == s.last());
    }
}

/// In ascending order, a value covers exactly the places up to its last occurrence.
proof fn lemma_at_most_ascending(s: Seq<u128>, v: u128, k: int)
    requires
        ascending(s),
        0 <= k <= s.len(),
        forall|i: int| 0 <= i < k ==> s[i] <= v,
        forall|i: int| k <= i < s.len() ==> s[i] > v,
    ensures
        at_most(s, v) == k,
    decreases s.len(),
{
    if s.len() > 0 {
        let t = s.drop_last();
        if k == s.len() {
            lemma_at_most_ascending(t, v, k - 1);
        } else {
            lemma_at_most_ascending(t, v, k);
        }
    }
}

/// In ascending order, at least `k + 1` values are at most the value at place `k`.
proof fn lemma_at_most_reaches(s: Seq<u128>, k: int)
    requires
        ascending(s),
        0 <= k < s.len(),
    ensures
        at_most(s, s[k]) >= k + 1,
    decreases s.len(),
{
    let t = s.drop_last();
    if k < t.len() {
        lemma_at_most_reaches(t, k);
    } else {
        lemma_at_most_ascending(s, s[k], k + 1);
    }
}

/// In ascending order, at most `k` values are at most `v`, where `v` is below the value at
/// place `k`.
proof fn lemma_at_most_stays_below(s: Seq<u128>, v: u128, k: int)
    requires
        ascending(s),
        0 <= k < s.len(),
        v < s[k],
    ensures
        at_most(s, v) <= k,
    decreases s.len(),
{
    let t = s.drop_last();
    if k < t.len() {
        lemma_at_most_stays_below(t, v, k);
    } else {
        lemma_at_most_at_most_len(t, v);
    }
}

proof fn lemma_at_most_at_most_len(s: Seq<u128>, v: u128)
    ensures
        at_most(s, v) <= s.len(),
    decreases s.len(),
{
    if s.len() > 0 {
        lemma_at_most_at_most_len(s.drop_last(), v);
    }
}

/// A copy of the values in ascending order.
fn sorted(values: &[u128]) -> (r: Vec<u128>)
    ensures
        r@.len() == values@.len(),
        ascending(r@),
        r@.to_multiset() == values@.to_multiset(),
        forall|v: u128| at_most(r@, v) == at_most(values@, v),
{
    let mut out: Vec<u128> = Vec::new();
    let len: usize = values.len();
    proof {
        assert(values@.take(0) =~= out@);
    }
    for i in 0..len
        invariant
            len == values@.len(),
            out@.len() == i,
            ascending(out@),
            out@.to_multiset() == values@.take(i as int).to_multiset(),
            forall|v: u128| at_most(out@, v) == at_most(values@.take(i as int), v),
    {
        let x: u128 = values[i];
        let mut k: usize = i;
        while k > 0 && out[k - 1] > x
            invariant
                0 <= k <= i,
                out@.len() == i,
                forall|j: int| k <= j < i ==> out@[j] > x,
            decreases k,
        {
            k = k - 1;
        }
        let ghost before = out@;
        out.insert(k, x);
        proof {
            let head = values@.take(i as int);
            let next = values@.take(i + 1);
            assert(next =~= head.push(x));
            vstd::seq_lib::to_multiset_build(head, x);
            vstd::seq_lib::to_multiset_insert(before, k as int, x);
            assert forall|v: u128| at_most(out@, v) == at_most(next, v) by {
                lemma_at_most_insert(before, k as int, x, v);
                assert(next.drop_last() =~= head);
            }
        }
    }
    proof {
        assert(values@.take(len as int) =~= values@);
    }
    out
}

/// The 95th percentile of the latencies.
pub fn p95(latencies: &[u128]) -> (r: Option<u128>)
    ensures
        p95_of(latencies@, r),
{
    if latencies.len() == 0 {
        return None;
    }
    let v: Vec<u128> = sorted(latencies);
    let rank: u128 = (v.len() as u128 * 95 + 99) / 100;
    let idx: usize = (rank - 1) as usize;
    proof {
        let x = v@[idx as int];
        vstd::seq_lib::to_multiset_contains(v@, x);
        vstd::seq_lib::to_multiset_contains(latencies@, x);
        lemma_at_most_reaches(v@, idx as int);
        assert forall|w: u128| #[trigger]
            latencies@.contains(w) && covers_95_percent(latencies@, w) implies x <= w by {
            if w < x {
                lemma_at_most_stays_below(v@, w, idx as int);
            }
        }
    }
    Some(v[idx])
}

/// Drops the oldest latencies beyond the cap.
pub fn trim_history(history: &mut Vec<u128>)
    ensures
        final(history)@ == kept(old(history)@),
{
    if history.len() > HISTORY_CAP {
        let drop: usize = history.len() - HISTORY_CAP;
        let tail: Vec<u128> = history.split_off(drop);
        *history = tail;
    }
}

/// Values that are the same up to order cover the same share.
proof fn lemma_at_most_of_permuted(s: Seq<u128>, t: Seq<u128>, v: u128)
    requires
        s.to_multiset() == t.to_multiset(),
    ensures
        at_most(s, v) == at_most(t, v),
        s.len() == t.len(),
    decreases s.len(),
{
    s.to_multiset_ensures();
    t.to_multiset_ensures();
    if s.len() > 0 {
        let x = s.last();
        let head = s.drop_last();
        assert(head =~= s.remove(s.len() - 1));
        assert(s[s.len() - 1] == x);
        assert(s.to_multiset().count(x) > 0);
        let k = choose|k: int| 0 <= k < t.len() && t[k] == x;
        let rest = t.remove(k);
        assert(rest.insert(k, x) =~= t);
        lemma_at_most_insert(rest, k, x, v);
        lemma_at_most_of_permuted(head, rest, v);
    }
}

proof fn lemma_at_most_all(s: Seq<u128>, v: u128)
    requires
        at_most(s, v) == s.len(),
    ensures
        forall|i: int| 0 <= i < s.len() ==> s[i] <= v,
    decreases s.len(),
{
    if s.len() > 0 {
        lemma_at_most_at_most_len(s.drop_last(), v);
        lemma_at_most_all(s.drop_last(), v);
        assert forall|i: int| 0 <= i < s.len() implies s[i] <= v by {
            if i < s.len() - 1 {
                assert(s[i] == s.drop_last()[i]);
            }
        }
    }
}

/// There is only one 95th percentile.
pub proof fn law_p95_is_unique(s: Seq<u128>, a: Option<u128>, b: Option<u128>)
    requires
        p95_of(s, a),
        p95_of(s, b),
    ensures
        a == b,
{
}

/// The order in which the latencies were measured has no influence on the 95th percentile.
pub proof fn law_p95_ignores_order(s: Seq<u128>, t: Seq<u128>, r: Option<u128>)
    requires
        s.to_multiset() == t.to_multiset(),
    ensures
        p95_of(s, r) <==> p95_of(t, r),
{
    s.to_multiset_ensures();
    t.to_multiset_ensures();
    assert forall|v: u128|
        #![trigger s.contains(v)]
        #![trigger t.contains(v)]
        (s.contains(v) <==> t.contains(v)) && (covers_95_percent(s, v) <==> covers_95_percent(
            t,
            v,
        )) by {
        vstd::seq_lib::to_multiset_contains(s, v);
        vstd::seq_lib::to_multiset_contains(t, v);
        lemma_at_most_of_permuted(s, t, v);
    }
}

/// Of fewer than twenty latencies the 95th percentile is the largest.
pub proof fn law_p95_of_few_is_the_largest(s: Seq<u128>, v: u128)
    requires
        s.len() < 20,
        is_p95(s, v),
    ensures
        forall|i: int| 0 <= i < s.len() ==> s[i] <= v,
{
    lemma_at_most_at_most_len(s, v);
    lemma_at_most_all(s, v);
}

/// Trimming after every round keeps the same latencies as trimming once at the end.
pub proof fn law_trimming_early_loses_nothing(history: Seq<u128>, news: Seq<u128>)
    ensures
        kept(kept(history) + news) == kept(history + news),
        kept(history).len() <= HISTORY_CAP,
{
    assert(kept(kept(history) + news) =~= kept(history + news));
}

/// How many of the values are below `v`.
spec fn below(s: Seq<u128>, v: u128) -> nat {
    s.filter(|x: u128| x < v).len()
}

/// The count of the values at most `v` is the number of them that are.
pub proof fn law_at_most_counts(s: Seq<u128>, v: u128)
    ensures
        at_most(s, v) == s.filter(|x: u128| x <= v).len(),
    decreases s.len(),
{
    reveal(Seq::filter);
    if s.len() > 0 {
        law_at_most_counts(s.drop_last(), v);
    }
}

/// Where no value lies above `w` and below `v`, the values below `v` are those at most `w`.
proof fn lemma_below_is_at_most(s: Seq<u128>, v: u128, w: u128)
    requires
        w < v,
        forall|i: int| 0 <= i < s.len() && s[i] < v ==> #[trigger] s[i] <= w,
    ensures
        below(s, v) == at_most(s, w),
    decreases s.len(),
{
    reveal(Seq::filter);
    if s.len() > 0 {
        let t = s.drop_last();
        assert forall|i: int| 0 <= i < t.len() && t[i] < v implies #[trigger] t[i] <= w by {
            assert(s[i] == t[i]);
        }
        lemma_below_is_at_most(t, v, w);
        assert(s[s.len() - 1] == s.last());
    }
}

/// Where some value is below `v`, one of these is the largest.
proof fn lemma_largest_below(s: Seq<u128>, v: u128) -> (w: u128)
    requires
        below(s, v) > 0,
    ensures
        s.contains(w),
        w < v,
        forall|i: int| 0 <= i < s.len() && s[i] < v ==> #[trigger] s[i] <= w,
    decreases s.len(),
{
    reveal(Seq::filter);
    let t = s.drop_last();
    let x = s.last();
    assert(s[s.len() - 1] == x);
    if below(t, v) > 0 {
        let w = lemma_largest_below(t, v);
        let k = choose|k: int| 0 <= k < t.len() && t[k] == w;
        assert(s[k] == w);
        let best = if x < v && x > w {
            x
        } else {
            w
        };
        assert forall|i: int| 0 <= i < s.len() && s[i] < v implies #[trigger] s[i] <= best by {
            if i < t.len() {
                assert(t[i] == s[i]);
            }
        }
        best
    } else {
        assert forall|i: int| 0 <= i < s.len() && s[i] < v implies #[trigger] s[i] <= x by {
            if i < t.len() {
                assert(t[i] < v);
                lemma_below_counts_each(t, v, i);
            }
        }
        x
    }
}

proof fn lemma_below_counts_each(s: Seq<u128>, v: u128, i: int)
    requires
        0 <= i < s.len(),
        s[i] < v,
    ensures
        below(s, v) > 0,
    decreases s.len(),
{
    reveal(Seq::filter);
    if i < s.len() - 1 {
        lemma_below_counts_each(s.drop_last(), v, i);
    }
}

/// There is a percentile exactly where there are latencies. It is one of them, at least 95 percent
/// of them are at most it, and fewer than 95 percent are below it.
pub proof fn law_p95_splits_the_latencies(s: Seq<u128>, r: Option<u128>)
    requires
        p95_of(s, r),
    ensures
        r is Some <==> s.len() > 0,
        r matches Some(v) ==> {
            &&& s.contains(v)
            &&& 100 * s.filter(|x: u128| x <= v).len() >= 95 * s.len()
            &&& 100 * s.filter(|x: u128| x < v).len() < 95 * s.len()
        },
{
    if let Some(v) = r {
        law_at_most_counts(s, v);
        if below(s, v) > 0 {
            let w = lemma_largest_below(s, v);
            lemma_below_is_at_most(s, v, w);
        }
        assert(below(s, v) == s.filter(|x: u128| x < v).len());
    }
}

/// Of latencies in ascending order the percentile is the one at 95 percent of their number, rounded
/// up, counted from one.
pub proof fn law_p95_is_the_nearest_rank(s: Seq<u128>, v: u128)
    requires
        is_p95(s, v),
        forall|i: int, j: int| 0 <= i <= j < s.len() ==> s[i] <= s[j],
    ensures
        s.len() > 0,
        v == s[(95 * s.len() + 99) / 100 - 1],
{
    let k = choose|k: int| 0 <= k < s.len() && s[k] == v;
    let idx = (95 * s.len() + 99) / 100 - 1;
    let x = s[idx];
    assert(s.contains(x));
    lemma_at_most_reaches(s, idx);
    if v < x {
        lemma_at_most_stays_below(s, v, idx);
    }
}

/// What is kept of a history is its end, in order: all of it up to 500 latencies, and the latest 500
/// of more.
pub proof fn law_kept_is_the_end_of_the_history(history: Seq<u128>)
    ensures
        history.len() <= 500 ==> kept(history).len() == history.len(),
        history.len() > 500 ==> kept(history).len() == 500,
        forall|i: int|
            0 <= i < kept(history).len() ==> #[trigger] kept(history)[i] == history[history.len()
                - kept(history).len() + i],
{
}

} // verus!
