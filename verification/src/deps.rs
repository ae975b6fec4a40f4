//! What the dependency analysis of a frame graph computes, stated over the
//! submitted passes: for every resource the last writer and the readers since
//! that write, and the barriers placed between passes, in placement order.
use vstd::prelude::*;

use crate::domain::{PassDomain, PassId, ResourceId, UsageIntent};
use crate::frame::{BarrierEdge, PassDecl};

verus! {

/// One pass's use of a resource: the pass, its usage intent and its domain.
pub type PassUse = (PassId, UsageIntent, PassDomain);

/// What the analysis knows after some prefix of the passes' accesses.
pub struct DepState {
    /// Per resource, the last pass that wrote it (absent: never written).
    pub writers: Map<ResourceId, PassUse>,
    /// Per resource, the passes that read it since its last write (absent: none).
    pub readers: Map<ResourceId, Seq<PassUse>>,
    /// The barriers placed so far.
    pub barriers: Seq<BarrierEdge>,
}

pub open spec fn initial_state() -> DepState {
    DepState { writers: Map::empty(), readers: Map::empty(), barriers: Seq::empty() }
}

pub open spec fn writer_of(st: DepState, r: ResourceId) -> Option<PassUse> {
    if st.writers.contains_key(r) {
        Some(st.writers[r])
    } else {
        None
    }
}

pub open spec fn readers_of(st: DepState, r: ResourceId) -> Seq<PassUse> {
    if st.readers.contains_key(r) {
        st.readers[r]
    } else {
        Seq::empty()
    }
}

/// Some barrier in `bs` already orders pass `from` before pass `to`.
pub open spec fn has_edge(bs: Seq<BarrierEdge>, from: PassId, to: PassId) -> bool {
    exists|k: int| 0 <= k < bs.len() && bs[k].from_pass == from && bs[k].to_pass == to
}

pub open spec fn barrier_for(res: ResourceId, src: PassUse, dst: PassUse) -> BarrierEdge {
    BarrierEdge {
        resource: res,
        from_pass: src.0,
        to_pass: dst.0,
        src_usage: src.1,
        dst_usage: dst.1,
        src_domain: src.2,
        dst_domain: dst.2,
    }
}

/// Appends a barrier from `src` to `dst` over `res`, unless they are the
/// same pass or the two passes are already ordered by an earlier barrier.
pub open spec fn link_barriers(bs: Seq<BarrierEdge>, res: ResourceId, src: PassUse, dst: PassUse) -> Seq<BarrierEdge> {
    if src.0 != dst.0 && !has_edge(bs, src.0, dst.0) {
        bs.push(barrier_for(res, src, dst))
    } else {
        bs
    }
}

/// Orders `src` before `dst` over `res`.
pub open spec fn link(st: DepState, res: ResourceId, src: PassUse, dst: PassUse) -> DepState {
    DepState {
        writers: st.writers,
        readers: st.readers,
        barriers: link_barriers(st.barriers, res, src, dst),
    }
}

/// Orders the last writer of `res`, if any, before `dst`.
pub open spec fn link_writer(st: DepState, res: ResourceId, dst: PassUse) -> DepState {
    match writer_of(st, res) {
        Some(w) => link(st, res, w, dst),
        None => st,
    }
}

/// Orders each reader in `rs`, in turn, before `dst`.
pub open spec fn link_readers(st: DepState, res: ResourceId, rs: Seq<PassUse>, dst: PassUse) -> DepState
    decreases rs.len(),
{
    if rs.len() == 0 {
        st
    } else {
        link(link_readers(st, res, rs.drop_last(), dst), res, rs.last(), dst)
    }
}

/// Linking readers only places barriers.
pub proof fn lemma_link_readers_frame(st: DepState, res: ResourceId, rs: Seq<PassUse>, dst: PassUse)
    ensures
        link_readers(st, res, rs, dst).writers == st.writers,
        link_readers(st, res, rs, dst).readers == st.readers,
    decreases rs.len(),
{
    if rs.len() > 0 {
        lemma_link_readers_frame(st, res, rs.drop_last(), dst);
    }
}

/// A read of `res`: ordered after its last writer (read after write), then
/// recorded among its readers.
pub open spec fn read_step(st: DepState, res: ResourceId, u: PassUse) -> DepState {
    let s1 = link_writer(st, res, u);
    DepState {
        writers: s1.writers,
        readers: s1.readers.insert(res, readers_of(s1, res).push(u)),
        barriers: s1.barriers,
    }
}

/// A write of `res`: ordered after its last writer (write after write) and
/// after each reader since (write after read); it becomes the last writer
/// and the readers are cleared.
pub open spec fn write_step(st: DepState, res: ResourceId, u: PassUse) -> DepState {
    let s1 = link_writer(st, res, u);
    let s2 = link_readers(s1, res, readers_of(st, res), u);
    DepState {
        writers: s2.writers.insert(res, u),
        readers: s2.readers.insert(res, Seq::empty()),
        barriers: s2.barriers,
    }
}

/// The first `n` reads of pass `p`, applied in order.
pub open spec fn reads_prefix(st: DepState, p: PassDecl, n: int) -> DepState
    decreases n,
{
    if n <= 0 {
        st
    } else {
        let rw = p.reads@[n - 1];
        read_step(reads_prefix(st, p, n - 1), rw.0, (p.id, rw.1, p.domain))
    }
}

/// The first `n` writes of pass `p`, applied in order.
pub open spec fn writes_prefix(st: DepState, p: PassDecl, n: int) -> DepState
    decreases n,
{
    if n <= 0 {
        st
    } else {
        let rw = p.writes@[n - 1];
        write_step(writes_prefix(st, p, n - 1), rw.0, (p.id, rw.1, p.domain))
    }
}

/// A pass: all its reads, then all its writes.
pub open spec fn pass_step(st: DepState, p: PassDecl) -> DepState {
    writes_prefix(reads_prefix(st, p, p.reads@.len() as int), p, p.writes@.len() as int)
}

/// The analysis after the passes of `ps`, in submission order.
pub open spec fn deps(ps: Seq<PassDecl>) -> DepState
    decreases ps.len(),
{
    if ps.len() == 0 {
        initial_state()
    } else {
        pass_step(deps(ps.drop_last()), ps.last())
    }
}

/// The barriers that the dependency analysis places for `ps`.
pub open spec fn dependency_barriers(ps: Seq<PassDecl>) -> Seq<BarrierEdge> {
    deps(ps).barriers
}

/// Pass `id` is among the first `m` passes of `ps`.
pub open spec fn id_among(ps: Seq<PassDecl>, m: int, id: PassId) -> bool {
    exists|j: int| 0 <= j < m && j < ps.len() && (#[trigger] ps[j]).id == id
}

/// Barrier `b` runs from a pass to a later one, both among the first `m`.
pub open spec fn forward_in(ps: Seq<PassDecl>, m: int, b: BarrierEdge) -> bool {
    exists|jf: int, jt: int|
        0 <= jf < jt < m && jt < ps.len() && (#[trigger] ps[jf]).id == b.from_pass
            && (#[trigger] ps[jt]).id == b.to_pass
}

/// No two barriers order the same pair of passes.
pub open spec fn pairs_distinct(bs: Seq<BarrierEdge>) -> bool {
    forall|i: int, j: int|
        0 <= i < j < bs.len() ==> !((#[trigger] bs[i]).from_pass == (#[trigger] bs[j]).from_pass
            && bs[i].to_pass == bs[j].to_pass)
}

/// Everything the state refers to belongs to the first `m` passes, and its
/// barriers run forward and order distinct pairs.
pub open spec fn state_within(ps: Seq<PassDecl>, m: int, st: DepState) -> bool {
    &&& forall|r: ResourceId| #[trigger] st.writers.dom().contains(r) ==> id_among(ps, m, st.writers[r].0)
    &&& forall|r: ResourceId, k: int|
        #[trigger] st.readers.dom().contains(r) && 0 <= k < st.readers[r].len() ==> id_among(
            ps,
            m,
            (#[trigger] st.readers[r][k]).0,
        )
    &&& forall|k: int| 0 <= k < st.barriers.len() ==> forward_in(ps, m, #[trigger] st.barriers[k])
    &&& pairs_distinct(st.barriers)
}

proof fn lemma_within_grow(ps: Seq<PassDecl>, m: int, st: DepState)
    requires
        0 <= m < ps.len(),
        state_within(ps, m, st),
    ensures
        state_within(ps, m + 1, st),
{
    assert forall|r: ResourceId| #[trigger] st.writers.dom().contains(r) implies id_among(ps, m + 1, st.writers[r].0) by {
        let j = choose|j: int| 0 <= j < m && j < ps.len() && (#[trigger] ps[j]).id == st.writers[r].0;
        assert(0 <= j < m + 1 && j < ps.len() && ps[j].id == st.writers[r].0);
    }
    assert forall|r: ResourceId, k: int|
        #[trigger] st.readers.dom().contains(r) && 0 <= k < st.readers[r].len() implies id_among(
            ps,
            m + 1,
            (#[trigger] st.readers[r][k]).0,
        ) by {
        let j = choose|j: int| 0 <= j < m && j < ps.len() && (#[trigger] ps[j]).id == st.readers[r][k].0;
        assert(0 <= j < m + 1 && j < ps.len() && ps[j].id == st.readers[r][k].0);
    }
    assert forall|k: int| 0 <= k < st.barriers.len() implies forward_in(ps, m + 1, #[trigger] st.barriers[k]) by {
        let b = st.barriers[k];
        let (jf, jt) = choose|jf: int, jt: int|
            0 <= jf < jt < m && jt < ps.len() && (#[trigger] ps[jf]).id == b.from_pass
                && (#[trigger] ps[jt]).id == b.to_pass;
        assert(0 <= jf < jt < m + 1 && jt < ps.len() && ps[jf].id == b.from_pass && ps[jt].id == b.to_pass);
    }
}

/// Linking a use of an earlier-or-current pass to a use of pass `m` keeps
/// the barriers forward and distinct.
proof fn lemma_link_within(ps: Seq<PassDecl>, m: int, bs: Seq<BarrierEdge>, res: ResourceId, src: PassUse, dst: PassUse)
    requires
        0 <= m < ps.len(),
        dst.0 == ps[m].id,
        id_among(ps, m + 1, src.0),
        forall|k: int| 0 <= k < bs.len() ==> forward_in(ps, m + 1, #[trigger] bs[k]),
        pairs_distinct(bs),
    ensures
        forall|k: int| 0 <= k < link_barriers(bs, res, src, dst).len() ==> forward_in(ps, m + 1, #[trigger] link_barriers(bs, res, src, dst)[k]),
        pairs_distinct(link_barriers(bs, res, src, dst)),
{
    let nb = link_barriers(bs, res, src, dst);
    if src.0 != dst.0 && !has_edge(bs, src.0, dst.0) {
        let j = choose|j: int| 0 <= j < m + 1 && j < ps.len() && (#[trigger] ps[j]).id == src.0;
        assert(j != m);
        assert forall|k: int| 0 <= k < nb.len() implies forward_in(ps, m + 1, #[trigger] nb[k]) by {
            if k == bs.len() {
                assert(0 <= j < m < m + 1 && m < ps.len() && ps[j].id == nb[k].from_pass && ps[m].id == nb[k].to_pass);
            } else {
                assert(nb[k] == bs[k]);
            }
        }
        assert forall|i: int, k: int|
            0 <= i < k < nb.len() implies !((#[trigger] nb[i]).from_pass == (#[trigger] nb[k]).from_pass
                && nb[i].to_pass == nb[k].to_pass) by {
            if k == bs.len() {
                assert(nb[i] == bs[i]);
                if nb[i].from_pass == nb[k].from_pass && nb[i].to_pass == nb[k].to_pass {
                    assert(has_edge(bs, src.0, dst.0));
                }
            } else {
                assert(nb[i] == bs[i]);
                assert(nb[k] == bs[k]);
            }
        }
    }
}

proof fn lemma_link_readers_within(ps: Seq<PassDecl>, m: int, st: DepState, res: ResourceId, rs: Seq<PassUse>, dst: PassUse)
    requires
        0 <= m < ps.len(),
        dst.0 == ps[m].id,
        forall|k: int| 0 <= k < rs.len() ==> id_among(ps, m + 1, (#[trigger] rs[k]).0),
        forall|k: int| 0 <= k < st.barriers.len() ==> forward_in(ps, m + 1, #[trigger] st.barriers[k]),
        pairs_distinct(st.barriers),
    ensures
        forall|k: int| 0 <= k < link_readers(st, res, rs, dst).barriers.len() ==> forward_in(ps, m + 1, #[trigger] link_readers(st, res, rs, dst).barriers[k]),
        pairs_distinct(link_readers(st, res, rs, dst).barriers),
    decreases rs.len(),
{
    if rs.len() > 0 {
        let prev = rs.drop_last();
        assert forall|k: int| 0 <= k < prev.len() implies id_among(ps, m + 1, (#[trigger] prev[k]).0) by {
            assert(prev[k] == rs[k]);
        }
        lemma_link_readers_within(ps, m, st, res, prev, dst);
        let s = link_readers(st, res, prev, dst);
        assert(rs.last() == rs[rs.len() - 1]);
        lemma_link_within(ps, m, s.barriers, res, rs.last(), dst);
    }
}

proof fn lemma_read_within(ps: Seq<PassDecl>, m: int, st: DepState, res: ResourceId, u: PassUse)
    requires
        0 <= m < ps.len(),
        u.0 == ps[m].id,
        state_within(ps, m + 1, st),
    ensures
        state_within(ps, m + 1, read_step(st, res, u)),
{
    let s1 = link_writer(st, res, u);
    match writer_of(st, res) {
        Some(w) => {
            assert(st.writers.dom().contains(res));
            lemma_link_within(ps, m, st.barriers, res, w, u);
        },
        None => {},
    }
    let nst = read_step(st, res, u);
    assert(id_among(ps, m + 1, u.0)) by {
        assert(0 <= m < m + 1 && m < ps.len() && ps[m].id == u.0);
    }
    assert forall|r: ResourceId, k: int|
        #[trigger] nst.readers.dom().contains(r) && 0 <= k < nst.readers[r].len() implies id_among(
            ps,
            m + 1,
            (#[trigger] nst.readers[r][k]).0,
        ) by {
        if r == res {
            if k < readers_of(s1, res).len() {
                assert(nst.readers[r][k] == st.readers[r][k]);
            }
        } else {
            assert(nst.readers[r] == st.readers[r]);
        }
    }
}

proof fn lemma_write_within(ps: Seq<PassDecl>, m: int, st: DepState, res: ResourceId, u: PassUse)
    requires
        0 <= m < ps.len(),
        u.0 == ps[m].id,
        state_within(ps, m + 1, st),
    ensures
        state_within(ps, m + 1, write_step(st, res, u)),
{
    let s1 = link_writer(st, res, u);
    match writer_of(st, res) {
        Some(w) => {
            assert(st.writers.dom().contains(res));
            lemma_link_within(ps, m, st.barriers, res, w, u);
        },
        None => {},
    }
    let rs = readers_of(st, res);
    assert forall|k: int| 0 <= k < rs.len() implies id_among(ps, m + 1, (#[trigger] rs[k]).0) by {
        assert(st.readers.dom().contains(res));
        assert(rs[k] == st.readers[res][k]);
    }
    lemma_link_readers_within(ps, m, s1, res, rs, u);
    lemma_link_readers_frame(s1, res, rs, u);
    let nst = write_step(st, res, u);
    assert(id_among(ps, m + 1, u.0)) by {
        assert(0 <= m < m + 1 && m < ps.len() && ps[m].id == u.0);
    }
    assert forall|r: ResourceId, k: int|
        #[trigger] nst.readers.dom().contains(r) && 0 <= k < nst.readers[r].len() implies id_among(
            ps,
            m + 1,
            (#[trigger] nst.readers[r][k]).0,
        ) by {
        assert(r != res);
        assert(nst.readers[r] == st.readers[r]);
    }
    assert forall|r: ResourceId| #[trigger] nst.writers.dom().contains(r) implies id_among(ps, m + 1, nst.writers[r].0) by {
        if r != res {
            assert(nst.writers[r] == st.writers[r]);
        }
    }
}

proof fn lemma_reads_within(ps: Seq<PassDecl>, m: int, st: DepState, n: int)
    requires
        0 <= m < ps.len(),
        0 <= n <= ps[m].reads@.len(),
        state_within(ps, m + 1, st),
    ensures
        state_within(ps, m + 1, reads_prefix(st, ps[m], n)),
    decreases n,
{
    if n > 0 {
        let p = ps[m];
        lemma_reads_within(ps, m, st, n - 1);
        let rw = p.reads@[n - 1];
        lemma_read_within(ps, m, reads_prefix(st, p, n - 1), rw.0, (p.id, rw.1, p.domain));
    }
}

proof fn lemma_writes_within(ps: Seq<PassDecl>, m: int, st: DepState, n: int)
    requires
        0 <= m < ps.len(),
        0 <= n <= ps[m].writes@.len(),
        state_within(ps, m + 1, st),
    ensures
        state_within(ps, m + 1, writes_prefix(st, ps[m], n)),
    decreases n,
{
    if n > 0 {
        let p = ps[m];
        lemma_writes_within(ps, m, st, n - 1);
        let rw = p.writes@[n - 1];
        lemma_write_within(ps, m, writes_prefix(st, p, n - 1), rw.0, (p.id, rw.1, p.domain));
    }
}

proof fn lemma_pass_within(ps: Seq<PassDecl>, m: int, st: DepState)
    requires
        0 <= m < ps.len(),
        state_within(ps, m + 1, st),
    ensures
        state_within(ps, m + 1, pass_step(st, ps[m])),
{
    let p = ps[m];
    lemma_reads_within(ps, m, st, p.reads@.len() as int);
    lemma_writes_within(ps, m, reads_prefix(st, p, p.reads@.len() as int), p.writes@.len() as int);
}

/// After the first `k` passes, the analysis refers only to those passes,
/// and its barriers run forward and order distinct pairs.
pub proof fn lemma_deps_within(ps: Seq<PassDecl>, k: int)
    requires
        0 <= k <= ps.len(),
    ensures
        state_within(ps, k, deps(ps.take(k))),
    decreases k,
{
    if k > 0 {
        lemma_deps_within(ps, k - 1);
        lemma_within_grow(ps, k - 1, deps(ps.take(k - 1)));
        assert(ps.take(k).drop_last() == ps.take(k - 1));
        assert(ps.take(k).last() == ps[k - 1]);
        lemma_pass_within(ps, k - 1, deps(ps.take(k - 1)));
    }
}

/// Every barrier the analysis places runs from an earlier pass to a later
/// one, in submission order, and no two barriers order the same pair.
pub proof fn lemma_barriers_forward(ps: Seq<PassDecl>)
    ensures
        forall|k: int| 0 <= k < dependency_barriers(ps).len() ==> forward_in(ps, ps.len() as int, #[trigger] dependency_barriers(ps)[k]),
        pairs_distinct(dependency_barriers(ps)),
{
    lemma_deps_within(ps, ps.len() as int);
    assert(ps.take(ps.len() as int) == ps);
}

// ── Completeness of the analysis ──────────────────────────────────────────

/// Pass `p` reads resource `r`.
pub open spec fn reads_res(p: PassDecl, r: ResourceId) -> bool {
    exists|k: int| 0 <= k < p.reads@.len() && (#[trigger] p.reads@[k]).0 == r
}

/// Pass `p` writes resource `r`.
pub open spec fn writes_res(p: PassDecl, r: ResourceId) -> bool {
    exists|k: int| 0 <= k < p.writes@.len() && (#[trigger] p.writes@[k]).0 == r
}

/// No pass strictly between positions `a` and `b` of `ps` writes `r`.
pub open spec fn no_write_between(ps: Seq<PassDecl>, r: ResourceId, a: int, b: int) -> bool {
    forall|j: int| a < j < b ==> !writes_res(#[trigger] ps[j], r)
}

/// `bs2` starts with the barriers of `bs1`.
pub open spec fn extends(bs1: Seq<BarrierEdge>, bs2: Seq<BarrierEdge>) -> bool {
    bs1.len() <= bs2.len() && forall|i: int| 0 <= i < bs1.len() ==> #[trigger] bs2[i] == bs1[i]
}

proof fn lemma_edge_kept(bs1: Seq<BarrierEdge>, bs2: Seq<BarrierEdge>, from: PassId, to: PassId)
    requires
        extends(bs1, bs2),
        has_edge(bs1, from, to),
    ensures
        has_edge(bs2, from, to),
{
    let k = choose|k: int| 0 <= k < bs1.len() && bs1[k].from_pass == from && bs1[k].to_pass == to;
    assert(bs2[k] == bs1[k]);
}

proof fn lemma_extends_trans(a: Seq<BarrierEdge>, b: Seq<BarrierEdge>, c: Seq<BarrierEdge>)
    requires
        extends(a, b),
        extends(b, c),
    ensures
        extends(a, c),
{
    assert forall|i: int| 0 <= i < a.len() implies #[trigger] c[i] == a[i] by {
        assert(c[i] == b[i]);
    }
}

proof fn lemma_link_edge(bs: Seq<BarrierEdge>, res: ResourceId, src: PassUse, dst: PassUse)
    ensures
        extends(bs, link_barriers(bs, res, src, dst)),
        src.0 != dst.0 ==> has_edge(link_barriers(bs, res, src, dst), src.0, dst.0),
{
    let nb = link_barriers(bs, res, src, dst);
    if src.0 != dst.0 && !has_edge(bs, src.0, dst.0) {
        assert(nb[bs.len() as int] == barrier_for(res, src, dst));
    }
}

proof fn lemma_link_readers_edges(st: DepState, res: ResourceId, rs: Seq<PassUse>, dst: PassUse)
    ensures
        extends(st.barriers, link_readers(st, res, rs, dst).barriers),
        forall|q: int|
            0 <= q < rs.len() && (#[trigger] rs[q]).0 != dst.0 ==> has_edge(
                link_readers(st, res, rs, dst).barriers,
                rs[q].0,
                dst.0,
            ),
    decreases rs.len(),
{
    if rs.len() > 0 {
        let init = rs.drop_last();
        lemma_link_readers_edges(st, res, init, dst);
        let mid = link_readers(st, res, init, dst);
        lemma_link_edge(mid.barriers, res, rs.last(), dst);
        let fin = link_readers(st, res, rs, dst);
        assert(fin.barriers == link_barriers(mid.barriers, res, rs.last(), dst));
        lemma_extends_trans(st.barriers, mid.barriers, fin.barriers);
        assert forall|q: int| 0 <= q < rs.len() && (#[trigger] rs[q]).0 != dst.0 implies has_edge(fin.barriers, rs[q].0, dst.0) by {
            if q < rs.len() - 1 {
                assert(rs[q] == init[q]);
                lemma_edge_kept(mid.barriers, fin.barriers, rs[q].0, dst.0);
            }
        }
    }
}

/// What the reads of pass `p` do to resource `r`.
proof fn lemma_reads_prefix(st: DepState, p: PassDecl, n: int, r: ResourceId)
    requires
        0 <= n <= p.reads@.len(),
    ensures
        reads_prefix(st, p, n).writers == st.writers,
        extends(st.barriers, reads_prefix(st, p, n).barriers),
        readers_of(st, r).len() <= readers_of(reads_prefix(st, p, n), r).len(),
        forall|q: int| 0 <= q < readers_of(st, r).len() ==> #[trigger] readers_of(reads_prefix(st, p, n), r)[q] == readers_of(st, r)[q],
        (forall|k: int| 0 <= k < n ==> (#[trigger] p.reads@[k]).0 != r) ==> readers_of(reads_prefix(st, p, n), r) == readers_of(st, r),
        (exists|k: int| 0 <= k < n && (#[trigger] p.reads@[k]).0 == r) ==> exists|q: int|
            0 <= q < readers_of(reads_prefix(st, p, n), r).len() && (#[trigger] readers_of(reads_prefix(st, p, n), r)[q]).0 == p.id,
        (exists|k: int| 0 <= k < n && (#[trigger] p.reads@[k]).0 == r) && writer_of(st, r) is Some && writer_of(st, r).unwrap().0
            != p.id ==> has_edge(reads_prefix(st, p, n).barriers, writer_of(st, r).unwrap().0, p.id),
    decreases n,
{
    if n > 0 {
        lemma_reads_prefix(st, p, n - 1, r);
        let mid = reads_prefix(st, p, n - 1);
        let rw = p.reads@[n - 1];
        let u = (p.id, rw.1, p.domain);
        let s1 = link_writer(mid, rw.0, u);
        let fin = reads_prefix(st, p, n);
        assert(fin == read_step(mid, rw.0, u));
        match writer_of(mid, rw.0) {
            Some(w) => {
                lemma_link_edge(mid.barriers, rw.0, w, u);
            },
            None => {},
        }
        assert(extends(mid.barriers, s1.barriers));
        lemma_extends_trans(st.barriers, mid.barriers, fin.barriers);
        assert(s1.readers == mid.readers);
        if rw.0 == r {
            assert(readers_of(fin, r) == readers_of(mid, r).push(u));
            assert(readers_of(fin, r)[readers_of(mid, r).len() as int].0 == p.id);
        } else {
            assert(readers_of(fin, r) == readers_of(mid, r));
        }
        assert forall|q: int| 0 <= q < readers_of(st, r).len() implies #[trigger] readers_of(fin, r)[q] == readers_of(st, r)[q] by {
            assert(readers_of(mid, r)[q] == readers_of(st, r)[q]);
        }
        if exists|k: int| 0 <= k < n && (#[trigger] p.reads@[k]).0 == r {
            if rw.0 != r {
                let k = choose|k: int| 0 <= k < n && (#[trigger] p.reads@[k]).0 == r;
                assert(k < n - 1);
                let q = choose|q: int| 0 <= q < readers_of(mid, r).len() && (#[trigger] readers_of(mid, r)[q]).0 == p.id;
                assert(readers_of(fin, r)[q] == readers_of(mid, r)[q]);
            }
            if writer_of(st, r) is Some && writer_of(st, r).unwrap().0 != p.id {
                if rw.0 == r {
                    assert(writer_of(mid, r) == writer_of(st, r));
                    assert(has_edge(s1.barriers, writer_of(st, r).unwrap().0, p.id));
                } else {
                    let k = choose|k: int| 0 <= k < n && (#[trigger] p.reads@[k]).0 == r;
                    assert(k < n - 1);
                    lemma_edge_kept(mid.barriers, fin.barriers, writer_of(st, r).unwrap().0, p.id);
                }
            }
        }
        if forall|k: int| 0 <= k < n ==> (#[trigger] p.reads@[k]).0 != r {
            assert(p.reads@[n - 1].0 != r);
        }
    }
}

/// What the writes of pass `p` do to resource `r`.
proof fn lemma_writes_prefix(st: DepState, p: PassDecl, n: int, r: ResourceId)
    requires
        0 <= n <= p.writes@.len(),
    ensures
        extends(st.barriers, writes_prefix(st, p, n).barriers),
        (forall|k: int| 0 <= k < n ==> (#[trigger] p.writes@[k]).0 != r) ==> writer_of(writes_prefix(st, p, n), r)
            == writer_of(st, r) && readers_of(writes_prefix(st, p, n), r) == readers_of(st, r),
        (exists|k: int| 0 <= k < n && (#[trigger] p.writes@[k]).0 == r) ==> writer_of(writes_prefix(st, p, n), r) is Some
            && writer_of(writes_prefix(st, p, n), r).unwrap().0 == p.id,
        (exists|k: int| 0 <= k < n && (#[trigger] p.writes@[k]).0 == r) && writer_of(st, r) is Some && writer_of(st, r).unwrap().0
            != p.id ==> has_edge(writes_prefix(st, p, n).barriers, writer_of(st, r).unwrap().0, p.id),
        (exists|k: int| 0 <= k < n && (#[trigger] p.writes@[k]).0 == r) ==> forall|q: int|
            0 <= q < readers_of(st, r).len() && (#[trigger] readers_of(st, r)[q]).0 != p.id ==> has_edge(
                writes_prefix(st, p, n).barriers,
                readers_of(st, r)[q].0,
                p.id,
            ),
    decreases n,
{
    if n > 0 {
        lemma_writes_prefix(st, p, n - 1, r);
        let mid = writes_prefix(st, p, n - 1);
        let rw = p.writes@[n - 1];
        let u = (p.id, rw.1, p.domain);
        let s1 = link_writer(mid, rw.0, u);
        let s2 = link_readers(s1, rw.0, readers_of(mid, rw.0), u);
        let fin = writes_prefix(st, p, n);
        assert(fin == write_step(mid, rw.0, u));
        match writer_of(mid, rw.0) {
            Some(w) => {
                lemma_link_edge(mid.barriers, rw.0, w, u);
            },
            None => {},
        }
        lemma_link_readers_edges(s1, rw.0, readers_of(mid, rw.0), u);
        lemma_link_readers_frame(s1, rw.0, readers_of(mid, rw.0), u);
        assert(s1.writers == mid.writers && s1.readers == mid.readers);
        lemma_extends_trans(mid.barriers, s1.barriers, s2.barriers);
        lemma_extends_trans(st.barriers, mid.barriers, fin.barriers);
        let earlier = exists|k: int| 0 <= k < n - 1 && (#[trigger] p.writes@[k]).0 == r;
        if rw.0 == r {
            assert(writer_of(fin, r) == Some(u));
            if !earlier {
                assert forall|k: int| 0 <= k < n - 1 implies (#[trigger] p.writes@[k]).0 != r by {
                    if p.writes@[k].0 == r {
                        assert(earlier);
                    }
                }
                assert(writer_of(mid, r) == writer_of(st, r));
                assert(readers_of(mid, r) == readers_of(st, r));
                if writer_of(st, r) is Some && writer_of(st, r).unwrap().0 != p.id {
                    assert(has_edge(s1.barriers, writer_of(st, r).unwrap().0, p.id));
                    lemma_edge_kept(s1.barriers, s2.barriers, writer_of(st, r).unwrap().0, p.id);
                }
                assert forall|q: int|
                    0 <= q < readers_of(st, r).len() && (#[trigger] readers_of(st, r)[q]).0 != p.id implies has_edge(
                        fin.barriers,
                        readers_of(st, r)[q].0,
                        p.id,
                    ) by {
                    assert(readers_of(mid, r)[q] == readers_of(st, r)[q]);
                }
            } else {
                if writer_of(st, r) is Some && writer_of(st, r).unwrap().0 != p.id {
                    lemma_edge_kept(mid.barriers, fin.barriers, writer_of(st, r).unwrap().0, p.id);
                }
                assert forall|q: int|
                    0 <= q < readers_of(st, r).len() && (#[trigger] readers_of(st, r)[q]).0 != p.id implies has_edge(
                        fin.barriers,
                        readers_of(st, r)[q].0,
                        p.id,
                    ) by {
                    lemma_edge_kept(mid.barriers, fin.barriers, readers_of(st, r)[q].0, p.id);
                }
            }
        } else {
            assert(writer_of(fin, r) == writer_of(mid, r));
            assert(readers_of(fin, r) == readers_of(mid, r));
            if exists|k: int| 0 <= k < n && (#[trigger] p.writes@[k]).0 == r {
                let k = choose|k: int| 0 <= k < n && (#[trigger] p.writes@[k]).0 == r;
                assert(k < n - 1);
                assert(earlier);
                if writer_of(st, r) is Some && writer_of(st, r).unwrap().0 != p.id {
                    lemma_edge_kept(mid.barriers, fin.barriers, writer_of(st, r).unwrap().0, p.id);
                }
                assert forall|q: int|
                    0 <= q < readers_of(st, r).len() && (#[trigger] readers_of(st, r)[q]).0 != p.id implies has_edge(
                        fin.barriers,
                        readers_of(st, r)[q].0,
                        p.id,
                    ) by {
                    lemma_edge_kept(mid.barriers, fin.barriers, readers_of(st, r)[q].0, p.id);
                }
            }
        }
    }
}

/// After the first `m` passes, the last writer of `r` is the last pass
/// among them that writes it, and every pass that read `r` and did not
/// write it, with no write of `r` since, is among its readers.
proof fn lemma_deps_track(ps: Seq<PassDecl>, m: int, r: ResourceId)
    requires
        0 <= m <= ps.len(),
    ensures
        forall|a: int|
            0 <= a < m && writes_res(#[trigger] ps[a], r) && no_write_between(ps, r, a, m) ==> writer_of(
                deps(ps.take(m)),
                r,
            ) is Some && writer_of(deps(ps.take(m)), r).unwrap().0 == ps[a].id,
        forall|a: int|
            0 <= a < m && reads_res(#[trigger] ps[a], r) && !writes_res(ps[a], r) && no_write_between(ps, r, a, m)
                ==> exists|q: int|
                0 <= q < readers_of(deps(ps.take(m)), r).len() && (#[trigger] readers_of(deps(ps.take(m)), r)[q]).0
                    == ps[a].id,
    decreases m,
{
    if m > 0 {
        lemma_deps_track(ps, m - 1, r);
        let st = deps(ps.take(m - 1));
        let p = ps[m - 1];
        assert(ps.take(m).drop_last() == ps.take(m - 1));
        assert(ps.take(m).last() == p);
        let rp = reads_prefix(st, p, p.reads@.len() as int);
        let fin = deps(ps.take(m));
        assert(fin == writes_prefix(rp, p, p.writes@.len() as int));
        lemma_reads_prefix(st, p, p.reads@.len() as int, r);
        lemma_writes_prefix(rp, p, p.writes@.len() as int, r);
        assert(writer_of(rp, r) == writer_of(st, r));
        assert forall|a: int|
            0 <= a < m && writes_res(#[trigger] ps[a], r) && no_write_between(ps, r, a, m) implies writer_of(fin, r) is Some
                && writer_of(fin, r).unwrap().0 == ps[a].id by {
            if a < m - 1 {
                assert(!writes_res(ps[m - 1], r));
                assert(no_write_between(ps, r, a, m - 1));
            }
        }
        assert forall|a: int|
            0 <= a < m && reads_res(#[trigger] ps[a], r) && !writes_res(ps[a], r) && no_write_between(ps, r, a, m) implies exists|q: int|
                0 <= q < readers_of(fin, r).len() && (#[trigger] readers_of(fin, r)[q]).0 == ps[a].id by {
            assert(!writes_res(ps[m - 1], r));
            if a < m - 1 {
                assert(no_write_between(ps, r, a, m - 1));
                let q = choose|q: int| 0 <= q < readers_of(st, r).len() && (#[trigger] readers_of(st, r)[q]).0 == ps[a].id;
                assert(readers_of(rp, r)[q] == readers_of(st, r)[q]);
                assert(readers_of(fin, r)[q] == readers_of(st, r)[q]);
            }
        }
    }
}

/// Barriers placed for the first passes stay in place as more passes come.
proof fn lemma_deps_extends(ps: Seq<PassDecl>, m: int, m2: int)
    requires
        0 <= m <= m2 <= ps.len(),
    ensures
        extends(deps(ps.take(m)).barriers, deps(ps.take(m2)).barriers),
    decreases m2 - m,
{
    if m2 > m {
        lemma_deps_extends(ps, m, m2 - 1);
        let st = deps(ps.take(m2 - 1));
        let p = ps[m2 - 1];
        assert(ps.take(m2).drop_last() == ps.take(m2 - 1));
        assert(ps.take(m2).last() == p);
        let rp = reads_prefix(st, p, p.reads@.len() as int);
        lemma_reads_prefix(st, p, p.reads@.len() as int, 0);
        lemma_writes_prefix(rp, p, p.writes@.len() as int, 0);
        lemma_extends_trans(st.barriers, rp.barriers, deps(ps.take(m2)).barriers);
        lemma_extends_trans(deps(ps.take(m)).barriers, st.barriers, deps(ps.take(m2)).barriers);
    }
}

/// The analysis misses no hazard: whenever a pass writes a resource and a
/// later pass reads or writes it, or a pass reads a resource and a later
/// pass writes it, with no pass in between writing it, some barrier orders
/// the earlier pass before the later one. Every reader since the last write
/// is ordered before the next writer, not only the latest reader.
pub proof fn lemma_hazards_ordered(ps: Seq<PassDecl>, r: ResourceId, a: int, b: int)
    requires
        0 <= a < b < ps.len(),
        ps[a].id != ps[b].id,
        no_write_between(ps, r, a, b),
        (writes_res(ps[a], r) && (reads_res(ps[b], r) || writes_res(ps[b], r))) || (reads_res(ps[a], r) && writes_res(
            ps[b],
            r,
        )),
    ensures
        has_edge(dependency_barriers(ps), ps[a].id, ps[b].id),
{
    lemma_deps_track(ps, b, r);
    let st = deps(ps.take(b));
    let p = ps[b];
    assert(ps.take(b + 1).drop_last() == ps.take(b));
    assert(ps.take(b + 1).last() == p);
    let rp = reads_prefix(st, p, p.reads@.len() as int);
    let fin = deps(ps.take(b + 1));
    assert(fin == writes_prefix(rp, p, p.writes@.len() as int));
    lemma_reads_prefix(st, p, p.reads@.len() as int, r);
    lemma_writes_prefix(rp, p, p.writes@.len() as int, r);
    assert(writer_of(rp, r) == writer_of(st, r));
    if writes_res(ps[a], r) {
        assert(writer_of(st, r) is Some && writer_of(st, r).unwrap().0 == ps[a].id);
        if reads_res(p, r) {
            lemma_edge_kept(rp.barriers, fin.barriers, ps[a].id, p.id);
        }
    } else {
        let q = choose|q: int| 0 <= q < readers_of(st, r).len() && (#[trigger] readers_of(st, r)[q]).0 == ps[a].id;
        assert(readers_of(rp, r)[q] == readers_of(st, r)[q]);
    }
    assert(has_edge(fin.barriers, ps[a].id, p.id));
    lemma_deps_extends(ps, b + 1, ps.len() as int);
    assert(ps.take(ps.len() as int) == ps);
    lemma_edge_kept(fin.barriers, dependency_barriers(ps), ps[a].id, p.id);
}

/// The per-resource record the analysis keeps while it runs.
struct Track {
    res: ResourceId,
    writer: Option<PassUse>,
    readers: Vec<PassUse>,
}

spec fn has_track(ts: Seq<Track>, r: ResourceId) -> bool {
    exists|i: int| 0 <= i < ts.len() && ts[i].res == r
}

/// The tracks hold exactly what the state says of each resource; a resource
/// without a track is neither written nor read.
spec fn tracks_model(ts: Seq<Track>, st: DepState) -> bool {
    &&& forall|i: int, j: int| 0 <= i < j < ts.len() ==> ts[i].res != ts[j].res
    &&& forall|i: int|
        0 <= i < ts.len() ==> writer_of(st, (#[trigger] ts[i]).res) == ts[i].writer
            && readers_of(st, ts[i].res) == ts[i].readers@
    &&& forall|r: ResourceId|
        !has_track(ts, r) ==> (#[trigger] writer_of(st, r)).is_none() && readers_of(st, r).len() == 0
}

/// The index of the track of `res`, created empty when there is none.
fn find_track(tracks: &mut Vec<Track>, res: ResourceId, Ghost(st): Ghost<DepState>) -> (i: usize)
    requires
        tracks_model(old(tracks)@, st),
    ensures
        tracks_model(final(tracks)@, st),
        i < final(tracks)@.len(),
        final(tracks)@[i as int].res == res,
{
    let mut k: usize = 0;
    while k < tracks.len()
        invariant
            k <= tracks@.len(),
            tracks_model(tracks@, st),
            forall|j: int| 0 <= j < k ==> tracks@[j].res != res,
        decreases tracks@.len() - k,
    {
        if tracks[k].res == res {
            return k;
        }
        k = k + 1;
    }
    proof {
        assert(!has_track(tracks@, res));
    }
    let ghost before = tracks@;
    tracks.push(Track { res, writer: None, readers: Vec::new() });
    proof {
        assert forall|r: ResourceId| !has_track(tracks@, r) implies (#[trigger] writer_of(st, r)).is_none()
            && readers_of(st, r).len() == 0 by {
            if has_track(before, r) {
                let j = choose|j: int| 0 <= j < before.len() && before[j].res == r;
                assert(tracks@[j].res == r);
            }
        }
        assert forall|i: int| 0 <= i < tracks@.len() implies writer_of(st, (#[trigger] tracks@[i]).res)
            == tracks@[i].writer && readers_of(st, tracks@[i].res) == tracks@[i].readers@ by {
            if i == before.len() {
                assert(tracks@[i].readers@ == Seq::<PassUse>::empty());
            } else {
                assert(tracks@[i] == before[i]);
            }
        }
    }
    k
}

fn has_edge_exec(barriers: &Vec<BarrierEdge>, from: PassId, to: PassId) -> (b: bool)
    ensures
        b == has_edge(barriers@, from, to),
{
    let mut k: usize = 0;
    while k < barriers.len()
        invariant
            k <= barriers@.len(),
            forall|j: int| 0 <= j < k ==> !(barriers@[j].from_pass == from && barriers@[j].to_pass == to),
        decreases barriers@.len() - k,
    {
        if barriers[k].from_pass == from && barriers[k].to_pass == to {
            return true;
        }
        k = k + 1;
    }
    false
}

fn link_exec(barriers: &mut Vec<BarrierEdge>, res: ResourceId, src: PassUse, dst: PassUse)
    ensures
        final(barriers)@ == link_barriers(old(barriers)@, res, src, dst),
{
    if src.0 != dst.0 && !has_edge_exec(barriers, src.0, dst.0) {
        barriers.push(
            BarrierEdge {
                resource: res,
                from_pass: src.0,
                to_pass: dst.0,
                src_usage: src.1,
                dst_usage: dst.1,
                src_domain: src.2,
                dst_domain: dst.2,
            },
        );
    }
}

fn read_exec(
    tracks: &mut Vec<Track>,
    barriers: &mut Vec<BarrierEdge>,
    res: ResourceId,
    u: PassUse,
    Ghost(st): Ghost<DepState>,
)
    requires
        tracks_model(old(tracks)@, st),
        old(barriers)@ == st.barriers,
    ensures
        tracks_model(final(tracks)@, read_step(st, res, u)),
        final(barriers)@ == read_step(st, res, u).barriers,
{
    let i = find_track(tracks, res, Ghost(st));
    let w = tracks[i].writer;
    if let Some(w) = w {
        link_exec(barriers, res, w, u);
    }
    let ghost mid = tracks@;
    tracks[i].readers.push(u);
    proof {
        let nst = read_step(st, res, u);
        assert forall|r: ResourceId| !has_track(tracks@, r) implies (#[trigger] writer_of(nst, r)).is_none()
            && readers_of(nst, r).len() == 0 by {
            if r == res {
                assert(tracks@[i as int].res == r);
            } else {
                if has_track(mid, r) {
                    let j = choose|j: int| 0 <= j < mid.len() && mid[j].res == r;
                    assert(tracks@[j].res == r);
                }
                assert(writer_of(nst, r) == writer_of(st, r));
                assert(readers_of(nst, r) == readers_of(st, r));
            }
        }
        assert forall|j: int| 0 <= j < tracks@.len() implies writer_of(nst, (#[trigger] tracks@[j]).res)
            == tracks@[j].writer && readers_of(nst, tracks@[j].res) == tracks@[j].readers@ by {
            if j == i {
            } else {
                assert(tracks@[j] == mid[j]);
                assert(mid[j].res != res);
                assert(writer_of(nst, mid[j].res) == writer_of(st, mid[j].res));
                assert(readers_of(nst, mid[j].res) == readers_of(st, mid[j].res));
            }
        }
    }
}

fn write_exec(
    tracks: &mut Vec<Track>,
    barriers: &mut Vec<BarrierEdge>,
    res: ResourceId,
    u: PassUse,
    Ghost(st): Ghost<DepState>,
)
    requires
        tracks_model(old(tracks)@, st),
        old(barriers)@ == st.barriers,
    ensures
        tracks_model(final(tracks)@, write_step(st, res, u)),
        final(barriers)@ == write_step(st, res, u).barriers,
{
    let i = find_track(tracks, res, Ghost(st));
    let w = tracks[i].writer;
    if let Some(w) = w {
        link_exec(barriers, res, w, u);
    }
    let ghost s1 = link_writer(st, res, u);
    let ghost rs = readers_of(st, res);
    assert(barriers@ == s1.barriers);
    assert(tracks@[i as int].readers@ == rs);
    let mut k: usize = 0;
    while k < tracks[i].readers.len()
        invariant
            i < tracks@.len(),
            tracks@[i as int].readers@ == rs,
            k <= rs.len(),
            barriers@ == link_readers(s1, res, rs.take(k as int), u).barriers,
        decreases rs.len() - k,
    {
        let rd = tracks[i].readers[k];
        proof {
            assert(rs.take(k + 1).drop_last() == rs.take(k as int));
        }
        link_exec(barriers, res, rd, u);
        k = k + 1;
    }
    proof {
        assert(rs.take(rs.len() as int) == rs);
    }
    let ghost mid = tracks@;
    tracks[i].writer = Some(u);
    tracks[i].readers.clear();
    proof {
        let nst = write_step(st, res, u);
        lemma_link_readers_frame(s1, res, rs, u);
        assert forall|r: ResourceId| !has_track(tracks@, r) implies (#[trigger] writer_of(nst, r)).is_none()
            && readers_of(nst, r).len() == 0 by {
            if r == res {
                assert(tracks@[i as int].res == r);
            } else {
                if has_track(mid, r) {
                    let j = choose|j: int| 0 <= j < mid.len() && mid[j].res == r;
                    assert(tracks@[j].res == r);
                }
                assert(writer_of(nst, r) == writer_of(st, r));
                assert(readers_of(nst, r) == readers_of(st, r));
            }
        }
        assert forall|j: int| 0 <= j < tracks@.len() implies writer_of(nst, (#[trigger] tracks@[j]).res)
            == tracks@[j].writer && readers_of(nst, tracks@[j].res) == tracks@[j].readers@ by {
            if j == i {
            } else {
                assert(tracks@[j] == mid[j]);
                assert(mid[j].res != res);
                assert(writer_of(nst, mid[j].res) == writer_of(st, mid[j].res));
                assert(readers_of(nst, mid[j].res) == readers_of(st, mid[j].res));
            }
        }
    }
}

/// Runs the dependency analysis over `passes` and returns the barriers it
/// places.
pub(crate) fn analyze_dependencies(passes: &Vec<PassDecl>) -> (bs: Vec<BarrierEdge>)
    ensures
        bs@ == dependency_barriers(passes@),
{
    let mut tracks: Vec<Track> = Vec::new();
    let mut barriers: Vec<BarrierEdge> = Vec::new();
    let mut pi: usize = 0;
    while pi < passes.len()
        invariant
            pi <= passes@.len(),
            tracks_model(tracks@, deps(passes@.take(pi as int))),
            barriers@ == deps(passes@.take(pi as int)).barriers,
        decreases passes@.len() - pi,
    {
        let pass = &passes[pi];
        let ghost st0 = deps(passes@.take(pi as int));
        let mut j: usize = 0;
        while j < pass.reads.len()
            invariant
                pass == passes@[pi as int],
                j <= pass.reads@.len(),
                tracks_model(tracks@, reads_prefix(st0, *pass, j as int)),
                barriers@ == reads_prefix(st0, *pass, j as int).barriers,
            decreases pass.reads@.len() - j,
        {
            let (res, usage) = pass.reads[j];
            read_exec(&mut tracks, &mut barriers, res, (pass.id, usage, pass.domain), Ghost(reads_prefix(st0, *pass, j as int)));
            j = j + 1;
        }
        let ghost st1 = reads_prefix(st0, *pass, pass.reads@.len() as int);
        let mut j: usize = 0;
        while j < pass.writes.len()
            invariant
                pass == passes@[pi as int],
                j <= pass.writes@.len(),
                tracks_model(tracks@, writes_prefix(st1, *pass, j as int)),
                barriers@ == writes_prefix(st1, *pass, j as int).barriers,
            decreases pass.writes@.len() - j,
        {
            let (res, usage) = pass.writes[j];
            write_exec(&mut tracks, &mut barriers, res, (pass.id, usage, pass.domain), Ghost(writes_prefix(st1, *pass, j as int)));
            j = j + 1;
        }
        proof {
            assert(passes@.take(pi + 1).drop_last() == passes@.take(pi as int));
            assert(passes@.take(pi + 1).last() == passes@[pi as int]);
        }
        pi = pi + 1;
    }
    proof {
        assert(passes@.take(passes@.len() as int) == passes@);
    }
    barriers
}

} // verus!
