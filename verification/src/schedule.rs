//! The execution order of a frame graph: passes are taken one at a time,
//! always the smallest pass id among those whose predecessors have all run.
use vstd::prelude::*;

use crate::domain::PassId;
use crate::frame::BarrierEdge;

verus! {

/// Pass `v` can run once the passes in `done` have: it is a pass, it has not
/// run, and every barrier into it comes from a pass that has.
pub open spec fn ready(ids: Seq<PassId>, bs: Seq<BarrierEdge>, done: Seq<PassId>, v: PassId) -> bool {
    &&& ids.contains(v)
    &&& !done.contains(v)
    &&& forall|k: int| 0 <= k < bs.len() && (#[trigger] bs[k]).to_pass == v ==> done.contains(bs[k].from_pass)
}

/// `v` is the smallest ready pass id.
pub open spec fn is_next(ids: Seq<PassId>, bs: Seq<BarrierEdge>, done: Seq<PassId>, v: PassId) -> bool {
    ready(ids, bs, done, v) && forall|w: PassId| #[trigger] ready(ids, bs, done, w) ==> v <= w
}

/// The pass that runs after those in `done`, if any is ready.
pub open spec fn next_pass(ids: Seq<PassId>, bs: Seq<BarrierEdge>, done: Seq<PassId>) -> Option<PassId> {
    if exists|v: PassId| is_next(ids, bs, done, v) {
        Some(choose|v: PassId| is_next(ids, bs, done, v))
    } else {
        None
    }
}

/// The order after `k` selection steps; it stops growing once no pass is ready.
pub open spec fn schedule_prefix(ids: Seq<PassId>, bs: Seq<BarrierEdge>, k: nat) -> Seq<PassId>
    decreases k,
{
    if k == 0 {
        Seq::empty()
    } else {
        let prev = schedule_prefix(ids, bs, (k - 1) as nat);
        match next_pass(ids, bs, prev) {
            Some(v) => prev.push(v),
            None => prev,
        }
    }
}

/// The execution order of passes `ids` under barriers `bs`.
pub open spec fn schedule(ids: Seq<PassId>, bs: Seq<BarrierEdge>) -> Seq<PassId> {
    schedule_prefix(ids, bs, ids.len())
}

/// Number of barriers into `v` whose source is not in `done`.
pub open spec fn pending(bs: Seq<BarrierEdge>, v: PassId, done: Seq<PassId>) -> nat
    decreases bs.len(),
{
    if bs.len() == 0 {
        0
    } else {
        pending(bs.drop_last(), v, done) + if bs.last().to_pass == v && !done.contains(bs.last().from_pass) {
            1nat
        } else {
            0nat
        }
    }
}

/// Number of barriers from `u` into `v`.
pub open spec fn incoming(bs: Seq<BarrierEdge>, u: PassId, v: PassId) -> nat
    decreases bs.len(),
{
    if bs.len() == 0 {
        0
    } else {
        incoming(bs.drop_last(), u, v) + if bs.last().from_pass == u && bs.last().to_pass == v {
            1nat
        } else {
            0nat
        }
    }
}

proof fn lemma_pending_zero(bs: Seq<BarrierEdge>, v: PassId, done: Seq<PassId>)
    ensures
        pending(bs, v, done) == 0 <==> forall|k: int|
            0 <= k < bs.len() && (#[trigger] bs[k]).to_pass == v ==> done.contains(bs[k].from_pass),
    decreases bs.len(),
{
    if bs.len() > 0 {
        let pre = bs.drop_last();
        lemma_pending_zero(pre, v, done);
        if pending(bs, v, done) == 0 {
            assert forall|k: int| 0 <= k < bs.len() && (#[trigger] bs[k]).to_pass == v implies done.contains(bs[k].from_pass) by {
                if k < pre.len() {
                    assert(pre[k] == bs[k]);
                }
            }
        } else {
            if pending(pre, v, done) > 0 {
                let k = choose|k: int| 0 <= k < pre.len() && (#[trigger] pre[k]).to_pass == v && !done.contains(pre[k].from_pass);
                assert(bs[k] == pre[k]);
            } else {
                assert(bs[bs.len() - 1] == bs.last());
            }
        }
    }
}

proof fn lemma_pending_le(bs: Seq<BarrierEdge>, v: PassId, done: Seq<PassId>)
    ensures
        pending(bs, v, done) <= bs.len(),
    decreases bs.len(),
{
    if bs.len() > 0 {
        lemma_pending_le(bs.drop_last(), v, done);
    }
}

proof fn lemma_pending_push(bs: Seq<BarrierEdge>, v: PassId, done: Seq<PassId>, u: PassId)
    requires
        !done.contains(u),
    ensures
        pending(bs, v, done.push(u)) + incoming(bs, u, v) == pending(bs, v, done),
    decreases bs.len(),
{
    if bs.len() > 0 {
        lemma_pending_push(bs.drop_last(), v, done, u);
        let b = bs.last();
        assert(done.push(u).contains(b.from_pass) <==> done.contains(b.from_pass) || b.from_pass == u) by {
            if done.push(u).contains(b.from_pass) {
                let i = choose|i: int| 0 <= i < done.push(u).len() && done.push(u)[i] == b.from_pass;
                if i < done.len() {
                    assert(done[i] == b.from_pass);
                }
            }
            if done.contains(b.from_pass) {
                let i = choose|i: int| 0 <= i < done.len() && done[i] == b.from_pass;
                assert(done.push(u)[i] == b.from_pass);
            }
            if b.from_pass == u {
                assert(done.push(u)[done.len() as int] == u);
            }
        }
    }
}

proof fn lemma_incoming_take(bs: Seq<BarrierEdge>, u: PassId, v: PassId, k: int)
    requires
        0 <= k < bs.len(),
    ensures
        incoming(bs.take(k + 1), u, v) == incoming(bs.take(k), u, v) + if bs[k].from_pass == u && bs[k].to_pass == v {
            1nat
        } else {
            0nat
        },
{
    assert(bs.take(k + 1).drop_last() == bs.take(k));
}

proof fn lemma_incoming_take_le(bs: Seq<BarrierEdge>, u: PassId, v: PassId, k: int)
    requires
        0 <= k <= bs.len(),
    ensures
        incoming(bs.take(k), u, v) <= incoming(bs, u, v),
    decreases bs.len() - k,
{
    if k < bs.len() {
        lemma_incoming_take(bs, u, v, k);
        lemma_incoming_take_le(bs, u, v, k + 1);
    } else {
        assert(bs.take(k) == bs);
    }
}

proof fn lemma_pending_take(bs: Seq<BarrierEdge>, v: PassId, done: Seq<PassId>, k: int)
    requires
        0 <= k < bs.len(),
    ensures
        pending(bs.take(k + 1), v, done) == pending(bs.take(k), v, done) + if bs[k].to_pass == v && !done.contains(bs[k].from_pass) {
            1nat
        } else {
            0nat
        },
{
    assert(bs.take(k + 1).drop_last() == bs.take(k));
}

/// Once no pass is ready, the order stops growing.
proof fn lemma_stuck(ids: Seq<PassId>, bs: Seq<BarrierEdge>, k: nat, m: nat)
    requires
        next_pass(ids, bs, schedule_prefix(ids, bs, k)) is None,
        k <= m,
    ensures
        schedule_prefix(ids, bs, m) == schedule_prefix(ids, bs, k),
    decreases m - k,
{
    if m > k {
        lemma_stuck(ids, bs, k, (m - 1) as nat);
    }
}

/// Barrier `b` runs from a pass to one listed after it in `ids`.
pub open spec fn runs_forward(ids: Seq<PassId>, b: BarrierEdge) -> bool {
    exists|jf: int, jt: int| 0 <= jf < jt < ids.len() && ids[jf] == b.from_pass && ids[jt] == b.to_pass
}

/// Every barrier runs from a pass to one listed after it in `ids`.
pub open spec fn edges_forward(ids: Seq<PassId>, bs: Seq<BarrierEdge>) -> bool {
    forall|k: int| 0 <= k < bs.len() ==> runs_forward(ids, #[trigger] bs[k])
}

/// Pass `a` comes before pass `b` in the order `s`.
pub open spec fn precedes(s: Seq<PassId>, a: PassId, b: PassId) -> bool {
    exists|i: int, j: int| 0 <= i < j < s.len() && s[i] == a && s[j] == b
}

/// A partial order: distinct passes of `ids`, each preceded by the source of
/// every barrier into it.
pub open spec fn respects(ids: Seq<PassId>, bs: Seq<BarrierEdge>, s: Seq<PassId>) -> bool {
    &&& s.no_duplicates()
    &&& forall|i: int| 0 <= i < s.len() ==> ids.contains(#[trigger] s[i])
    &&& forall|i: int, k: int|
        0 <= i < s.len() && 0 <= k < bs.len() && (#[trigger] bs[k]).to_pass == #[trigger] s[i] ==> exists|q: int|
            0 <= q < i && s[q] == bs[k].from_pass
}

proof fn lemma_min_ready(ids: Seq<PassId>, bs: Seq<BarrierEdge>, done: Seq<PassId>, j: int) -> (v: PassId)
    requires
        0 <= j <= ids.len(),
        exists|i: int| 0 <= i < j && ready(ids, bs, done, #[trigger] ids[i]),
    ensures
        ready(ids, bs, done, v),
        forall|i: int| 0 <= i < j && ready(ids, bs, done, #[trigger] ids[i]) ==> v <= ids[i],
    decreases j,
{
    if exists|i: int| 0 <= i < j - 1 && ready(ids, bs, done, #[trigger] ids[i]) {
        let v0 = lemma_min_ready(ids, bs, done, j - 1);
        if ready(ids, bs, done, ids[j - 1]) && ids[j - 1] < v0 {
            ids[j - 1]
        } else {
            v0
        }
    } else {
        ids[j - 1]
    }
}

proof fn lemma_first_missing(ids: Seq<PassId>, s: Seq<PassId>, j: int) -> (p: int)
    requires
        0 <= j <= ids.len(),
        exists|q: int| j <= q < ids.len() && !s.contains(#[trigger] ids[q]),
        forall|q: int| 0 <= q < j ==> s.contains(#[trigger] ids[q]),
    ensures
        j <= p < ids.len(),
        !s.contains(ids[p]),
        forall|q: int| 0 <= q < p ==> s.contains(#[trigger] ids[q]),
    decreases ids.len() - j,
{
    if !s.contains(ids[j]) {
        j
    } else {
        lemma_first_missing(ids, s, j + 1)
    }
}

proof fn lemma_prefix_respects(ids: Seq<PassId>, bs: Seq<BarrierEdge>, k: nat)
    requires
        ids.no_duplicates(),
        edges_forward(ids, bs),
        k <= ids.len(),
    ensures
        schedule_prefix(ids, bs, k).len() == k,
        respects(ids, bs, schedule_prefix(ids, bs, k)),
    decreases k,
{
    if k > 0 {
        lemma_prefix_respects(ids, bs, (k - 1) as nat);
        let s = schedule_prefix(ids, bs, (k - 1) as nat);
        // Some pass of `ids` has not run yet.
        assert(exists|q: int| 0 <= q < ids.len() && !s.contains(#[trigger] ids[q])) by {
            if forall|q: int| 0 <= q < ids.len() ==> s.contains(#[trigger] ids[q]) {
                ids.unique_seq_to_set();
                s.lemma_cardinality_of_set();
                assert(ids.to_set().subset_of(s.to_set())) by {
                    assert forall|v: PassId| ids.to_set().contains(v) implies s.to_set().contains(v) by {
                        let q = choose|q: int| 0 <= q < ids.len() && ids[q] == v;
                        assert(s.contains(ids[q]));
                    }
                }
                vstd::set_lib::lemma_len_subset(ids.to_set(), s.to_set());
            }
        }
        let p = lemma_first_missing(ids, s, 0);
        // The first pass that has not run is ready: its predecessors come before it.
        assert(ready(ids, bs, s, ids[p])) by {
            assert forall|kk: int| 0 <= kk < bs.len() && (#[trigger] bs[kk]).to_pass == ids[p] implies s.contains(bs[kk].from_pass) by {
                assert(runs_forward(ids, bs[kk]));
                let (jf, jt) = choose|jf: int, jt: int|
                    0 <= jf < jt < ids.len() && ids[jf] == bs[kk].from_pass && ids[jt] == bs[kk].to_pass;
                assert(jt == p);
                assert(s.contains(ids[jf]));
            }
        }
        let v = lemma_min_ready(ids, bs, s, ids.len() as int);
        assert(is_next(ids, bs, s, v)) by {
            assert forall|w: PassId| #[trigger] ready(ids, bs, s, w) implies v <= w by {
                let q = choose|q: int| 0 <= q < ids.len() && ids[q] == w;
                assert(ready(ids, bs, s, ids[q]));
            }
        }
        let x = choose|x: PassId| is_next(ids, bs, s, x);
        assert(next_pass(ids, bs, s) == Some(x));
        let s2 = s.push(x);
        assert(schedule_prefix(ids, bs, k) == s2);
        assert forall|i: int, kk: int|
            0 <= i < s2.len() && 0 <= kk < bs.len() && (#[trigger] bs[kk]).to_pass == #[trigger] s2[i] implies exists|q: int|
                0 <= q < i && s2[q] == bs[kk].from_pass by {
            if i < s.len() {
                assert(s2[i] == s[i]);
                let q = choose|q: int| 0 <= q < i && s[q] == bs[kk].from_pass;
                assert(s2[q] == s[q]);
            } else {
                assert(s.contains(bs[kk].from_pass));
                let q = choose|q: int| 0 <= q < s.len() && s[q] == bs[kk].from_pass;
                assert(s2[q] == s[q]);
            }
        }
        assert forall|i: int| 0 <= i < s2.len() implies ids.contains(#[trigger] s2[i]) by {
            if i < s.len() {
                assert(s2[i] == s[i]);
            }
        }
        assert(s2.no_duplicates()) by {
            assert forall|i: int, j: int| 0 <= i < s2.len() && 0 <= j < s2.len() && i != j implies s2[i] != s2[j] by {
                if i < s.len() && j < s.len() {
                    assert(s2[i] == s[i] && s2[j] == s[j]);
                } else if i < s.len() {
                    assert(s2[i] == s[i]);
                    assert(s.contains(s[i]));
                } else {
                    assert(s2[j] == s[j]);
                    assert(s.contains(s[j]));
                }
            }
        }
    }
}

/// On passes with distinct ids whose barriers all run forward, the order
/// holds every pass exactly once, and the source of every barrier runs
/// before its destination.
pub proof fn lemma_schedule_complete(ids: Seq<PassId>, bs: Seq<BarrierEdge>)
    requires
        ids.no_duplicates(),
        edges_forward(ids, bs),
    ensures
        schedule(ids, bs).len() == ids.len(),
        schedule(ids, bs).no_duplicates(),
        forall|v: PassId| schedule(ids, bs).contains(v) <==> ids.contains(v),
        forall|k: int|
            0 <= k < bs.len() ==> precedes(schedule(ids, bs), (#[trigger] bs[k]).from_pass, bs[k].to_pass),
{
    let s = schedule(ids, bs);
    lemma_prefix_respects(ids, bs, ids.len());
    assert forall|v: PassId| s.contains(v) <==> ids.contains(v) by {
        if s.contains(v) {
            let i = choose|i: int| 0 <= i < s.len() && s[i] == v;
            assert(ids.contains(s[i]));
        }
        if ids.contains(v) {
            s.unique_seq_to_set();
            ids.unique_seq_to_set();
            assert(s.to_set().subset_of(ids.to_set())) by {
                assert forall|w: PassId| s.to_set().contains(w) implies ids.to_set().contains(w) by {
                    let i = choose|i: int| 0 <= i < s.len() && s[i] == w;
                    assert(ids.contains(s[i]));
                }
            }
            vstd::set_lib::lemma_subset_equality(s.to_set(), ids.to_set());
            assert(ids.to_set().contains(v));
            assert(s.to_set().contains(v));
        }
    }
    assert forall|k: int| 0 <= k < bs.len() implies precedes(s, (#[trigger] bs[k]).from_pass, bs[k].to_pass) by {
        assert(runs_forward(ids, bs[k]));
        let (jf, jt) = choose|jf: int, jt: int| 0 <= jf < jt < ids.len() && ids[jf] == bs[k].from_pass && ids[jt] == bs[k].to_pass;
        assert(ids.contains(bs[k].to_pass));
        assert(s.contains(bs[k].to_pass));
        let j = choose|j: int| 0 <= j < s.len() && s[j] == bs[k].to_pass;
        let q = choose|q: int| 0 <= q < j && s[q] == bs[k].from_pass;
        assert(0 <= q < j < s.len() && s[q] == bs[k].from_pass && s[j] == bs[k].to_pass);
    }
}

fn index_of(ids: &Vec<PassId>, v: PassId) -> (i: usize)
    requires
        ids@.contains(v),
    ensures
        i < ids@.len(),
        ids@[i as int] == v,
{
    let mut k: usize = 0;
    while k < ids.len()
        invariant
            k <= ids@.len(),
            ids@.contains(v),
            forall|j: int| 0 <= j < k ==> ids@[j] != v,
        decreases ids@.len() - k,
    {
        if ids[k] == v {
            return k;
        }
        k = k + 1;
    }
    proof {
        let j = choose|j: int| 0 <= j < ids@.len() && ids@[j] == v;
    }
    0
}

/// Computes the execution order: repeatedly runs the smallest ready pass id,
/// counting for each pass the barriers from passes that have not run yet.
pub(crate) fn schedule_passes(ids: &Vec<PassId>, bs: &Vec<BarrierEdge>) -> (order: Vec<PassId>)
    requires
        ids@.no_duplicates(),
        forall|k: int| 0 <= k < bs@.len() ==> ids@.contains((#[trigger] bs@[k]).to_pass),
    ensures
        order@ == schedule(ids@, bs@),
{
    let n = ids.len();
    let mut indeg: Vec<usize> = Vec::new();
    let mut done: Vec<bool> = Vec::new();
    while indeg.len() < n
        invariant
            indeg@.len() == done@.len(),
            indeg@.len() <= n,
            n == ids@.len(),
            forall|i: int| 0 <= i < indeg@.len() ==> indeg@[i] == 0 && !done@[i],
        decreases n - indeg@.len(),
    {
        indeg.push(0);
        done.push(false);
    }
    let mut k: usize = 0;
    while k < bs.len()
        invariant
            k <= bs@.len(),
            n == ids@.len(),
            ids@.no_duplicates(),
            indeg@.len() == n,
            forall|j: int| 0 <= j < bs@.len() ==> ids@.contains((#[trigger] bs@[j]).to_pass),
            forall|i: int| 0 <= i < n ==> indeg@[i] == pending(bs@.take(k as int), ids@[i], Seq::empty()),
        decreases bs@.len() - k,
    {
        let i = index_of(ids, bs[k].to_pass);
        proof {
            lemma_pending_le(bs@.take(k as int), ids@[i as int], Seq::empty());
            assert forall|j: int| 0 <= j < n implies pending(bs@.take(k + 1), ids@[j], Seq::empty())
                == pending(bs@.take(k as int), ids@[j], Seq::empty()) + if j == i { 1nat } else { 0nat } by {
                lemma_pending_take(bs@, ids@[j], Seq::empty(), k as int);
                if j != i {
                    assert(ids@[j] != ids@[i as int]);
                }
            }
        }
        let d = indeg[i] + 1;
        indeg.set(i, d);
        k = k + 1;
    }
    proof {
        assert(bs@.take(bs@.len() as int) == bs@);
    }
    let mut order: Vec<PassId> = Vec::new();
    while order.len() < n
        invariant
            n == ids@.len(),
            ids@.no_duplicates(),
            order@.len() <= n,
            indeg@.len() == n,
            done@.len() == n,
            forall|j: int| 0 <= j < bs@.len() ==> ids@.contains((#[trigger] bs@[j]).to_pass),
            order@ == schedule_prefix(ids@, bs@, order@.len() as nat),
            forall|i: int| 0 <= i < n ==> done@[i] == order@.contains(ids@[i]),
            forall|i: int| 0 <= i < n ==> indeg@[i] == pending(bs@, ids@[i], order@),
        ensures
            order@ == schedule(ids@, bs@),
        decreases n - order@.len(),
    {
        let ghost prev = order@;
        let mut found = false;
        let mut best: PassId = 0;
        let mut best_i: usize = 0;
        let mut i: usize = 0;
        while i < n
            invariant
                n == ids@.len(),
                i <= n,
                indeg@.len() == n,
                done@.len() == n,
                order@ == prev,
                forall|j: int| 0 <= j < n ==> done@[j] == prev.contains(ids@[j]),
                forall|j: int| 0 <= j < n ==> indeg@[j] == pending(bs@, ids@[j], prev),
                found ==> best_i < n && ids@[best_i as int] == best && ready(ids@, bs@, prev, best),
                found ==> forall|j: int| 0 <= j < i && ready(ids@, bs@, prev, #[trigger] ids@[j]) ==> best <= ids@[j],
                !found ==> forall|j: int| 0 <= j < i ==> !ready(ids@, bs@, prev, #[trigger] ids@[j]),
            decreases n - i,
        {
            proof {
                lemma_pending_zero(bs@, ids@[i as int], prev);
                assert(ids@.contains(ids@[i as int]));
            }
            if !done[i] && indeg[i] == 0 && (!found || ids[i] < best) {
                found = true;
                best = ids[i];
                best_i = i;
            }
            i = i + 1;
        }
        if !found {
            proof {
                assert forall|v: PassId| !is_next(ids@, bs@, prev, v) by {
                    if ready(ids@, bs@, prev, v) {
                        let j = choose|j: int| 0 <= j < ids@.len() && ids@[j] == v;
                        assert(!ready(ids@, bs@, prev, ids@[j]));
                    }
                }
                assert(next_pass(ids@, bs@, prev) is None);
                lemma_stuck(ids@, bs@, prev.len() as nat, n as nat);
            }
            break;
        }
        proof {
            assert forall|w: PassId| #[trigger] ready(ids@, bs@, prev, w) implies best <= w by {
                let j = choose|j: int| 0 <= j < ids@.len() && ids@[j] == w;
                assert(ready(ids@, bs@, prev, ids@[j]));
            }
            assert(is_next(ids@, bs@, prev, best));
            let c = choose|v: PassId| is_next(ids@, bs@, prev, v);
            assert(c == best);
            assert(next_pass(ids@, bs@, prev) == Some(best));
        }
        order.push(best);
        done.set(best_i, true);
        proof {
            assert forall|j: int| 0 <= j < n implies done@[j] == order@.contains(ids@[j]) by {
                if order@.contains(ids@[j]) {
                    let q = choose|q: int| 0 <= q < order@.len() && order@[q] == ids@[j];
                    if q < prev.len() {
                        assert(prev[q] == ids@[j]);
                    } else {
                        assert(ids@[j] == best);
                        assert(j == best_i);
                    }
                }
                if prev.contains(ids@[j]) {
                    let q = choose|q: int| 0 <= q < prev.len() && prev[q] == ids@[j];
                    assert(order@[q] == ids@[j]);
                }
                if j == best_i {
                    assert(order@[prev.len() as int] == best);
                }
            }
            assert forall|j: int| 0 <= j < n implies indeg@[j] + incoming(bs@.take(0), best, ids@[j]) == pending(bs@, ids@[j], prev) by {
                assert(bs@.take(0).len() == 0);
            }
        }
        let mut k: usize = 0;
        while k < bs.len()
            invariant
                n == ids@.len(),
                ids@.no_duplicates(),
                k <= bs@.len(),
                indeg@.len() == n,
                order@ == prev.push(best),
                !prev.contains(best),
                forall|j: int| 0 <= j < bs@.len() ==> ids@.contains((#[trigger] bs@[j]).to_pass),
                forall|j: int| 0 <= j < n ==> indeg@[j] + incoming(bs@.take(k as int), best, ids@[j]) == pending(bs@, ids@[j], prev),
            decreases bs@.len() - k,
        {
            if bs[k].from_pass == best {
                let i = index_of(ids, bs[k].to_pass);
                proof {
                    lemma_incoming_take(bs@, best, ids@[i as int], k as int);
                    lemma_incoming_take_le(bs@, best, ids@[i as int], k + 1);
                    lemma_pending_push(bs@, ids@[i as int], prev, best);
                    assert forall|j: int| 0 <= j < n && j != i implies incoming(bs@.take(k + 1), best, ids@[j])
                        == incoming(bs@.take(k as int), best, ids@[j]) by {
                        lemma_incoming_take(bs@, best, ids@[j], k as int);
                        assert(ids@[j] != ids@[i as int]);
                    }
                }
                let d = indeg[i] - 1;
                indeg.set(i, d);
            } else {
                proof {
                    assert forall|j: int| 0 <= j < n implies incoming(bs@.take(k + 1), best, ids@[j])
                        == incoming(bs@.take(k as int), best, ids@[j]) by {
                        lemma_incoming_take(bs@, best, ids@[j], k as int);
                    }
                }
            }
            k = k + 1;
        }
        proof {
            assert(bs@.take(bs@.len() as int) == bs@);
            assert forall|j: int| 0 <= j < n implies indeg@[j] == pending(bs@, ids@[j], order@) by {
                lemma_pending_push(bs@, ids@[j], prev, best);
            }
        }
    }
    order
}

} // verus!
