//! The executor: the work lanes of a device, and the frame-level decisions of
//! running a frame graph on them. `execute` compiles the graph, checks that
//! every pass has a lane, and plans each pass in order: its barriers, the
//! timeline values it waits for, and the submission that signals its lane's
//! next value. The recording and the queue submissions follow the plan.
use vstd::prelude::*;

use crate::deps::{dependency_barriers, forward_in, lemma_barriers_forward};
use crate::domain::{DescriptorSetId, GraphError, PassDomain, PassId, ResourceDecl, Stage};
use crate::executor_plan::{
    add_wait, check_lanes, domain_of, first_wait_on, lane_waits, signal_of, wait_stage, waits_after, first_graphics_in, first_graphics_pass, family_of, is_graphics, lane_available,
    last_graphics_in, last_graphics_pass, pass_planned, plan_pass, resources_indexed, semaphore_of, DomainFamilies,
    DomainSemaphores, PassPlan, PresentSync, SemaphoreSubmit, TimelineWait,
};
use crate::frame::{lemma_compiled_order, lowered, pass_ids, BarrierEdge, CompiledGraph, CompiledPass, FrameGraph};
use crate::lane::{timeline_signal, wait_submits, Submission, WorkLane};
use crate::schedule::{precedes, schedule};
use crate::types::QUEUE_FAMILY_IGNORED;

verus! {

/// The lanes a device runs passes on, and the descriptor sets that passes
/// bind by id.
pub struct Executor {
    graphics: Option<WorkLane>,
    compute: Option<WorkLane>,
    transfer: Option<WorkLane>,
    descriptor_sets: Vec<u64>,
}

/// One pass of the order: where it stands among the compiled passes, its
/// plan, and its submission.
pub struct PassSubmission {
    pub pass_index: usize,
    pub plan: PassPlan,
    pub submission: Submission,
}

/// The plan of a frame: the compiled graph, one submission per pass in
/// execution order, the submission that only clears and presents when the
/// graph has no graphics pass, and the graphics timeline value the frame
/// ends on (0 when nothing ran on graphics).
pub struct FramePlan {
    pub compiled: CompiledGraph,
    pub passes: Vec<PassSubmission>,
    pub present_only: Option<Submission>,
    pub final_graphics_value: u64,
}

/// The value of a domain in a triple ordered graphics, compute, transfer.
pub open spec fn lane_value(init: (u64, u64, u64), d: PassDomain) -> u64 {
    match d {
        PassDomain::Graphics => init.0,
        PassDomain::Compute => init.1,
        PassDomain::Transfer => init.2,
    }
}

/// How many entries of `ds` are `d`.
pub open spec fn count_on(ds: Seq<PassDomain>, d: PassDomain) -> nat
    decreases ds.len(),
{
    if ds.len() == 0 {
        0
    } else {
        count_on(ds.drop_last(), d) + if ds.last() == d {
            1nat
        } else {
            0nat
        }
    }
}

/// The domain of each pass of `order`.
pub open spec fn order_domains(order: Seq<PassId>, passes: Seq<CompiledPass>) -> Seq<PassDomain> {
    order.map_values(|id: PassId| domain_of(passes, id).unwrap())
}

/// The value that the lane of the `i`-th pass last signalled before it: its
/// starting value plus one per earlier pass on the same domain.
pub open spec fn prev_value(init: (u64, u64, u64), ds: Seq<PassDomain>, i: int) -> int {
    lane_value(init, ds[i]) + count_on(ds.take(i), ds[i])
}

/// The value that the `i`-th pass signals on its lane.
pub open spec fn pass_value(init: (u64, u64, u64), ds: Seq<PassDomain>, i: int) -> int {
    lane_value(init, ds[i]) + count_on(ds.take(i + 1), ds[i])
}

/// The signals of the passes before the `i`-th: id, value and domain.
pub open spec fn signals_before(
    order: Seq<PassId>,
    ds: Seq<PassDomain>,
    init: (u64, u64, u64),
    i: int,
) -> Seq<(PassId, u64, PassDomain)> {
    Seq::new(i as nat, |j: int| (order[j], pass_value(init, ds, j) as u64, ds[j]))
}

/// `s` is the submission of the `i`-th pass of the order of `c`, on lanes
/// that started at `init`.
pub open spec fn pass_submitted(
    s: PassSubmission,
    i: int,
    c: CompiledGraph,
    init: (u64, u64, u64),
    fams: DomainFamilies,
    sems: DomainSemaphores,
    present: Option<PresentSync>,
) -> bool {
    let order = c.order.ordered_passes@;
    let cps = c.passes@;
    let ds = order_domains(order, cps);
    &&& s.pass_index < cps.len()
    &&& cps[s.pass_index as int].id == order[i]
    &&& cps[s.pass_index as int].domain == ds[i]
    &&& pass_planned(
        s.plan,
        cps[s.pass_index as int],
        first_graphics_in(order, cps),
        last_graphics_in(order, cps),
        semaphore_of(sems, ds[i]),
        prev_value(init, ds, i) as u64,
        c.order.barriers@,
        c.resources@,
        fams,
        sems,
        signals_before(order, ds, init, i),
        present,
    )
    &&& s.submission.value == pass_value(init, ds, i)
    &&& s.submission.waits@ == wait_submits(s.plan.waits@) + s.plan.binary_waits@
    &&& s.submission.signals@ == seq![timeline_signal(semaphore_of(sems, ds[i]), s.submission.value)]
        + s.plan.binary_signals@
}

/// `c` is what compiling passes `ps` over resources `rs` gives.
pub open spec fn compiled_from(c: CompiledGraph, ps: Seq<crate::frame::PassDecl>, rs: Seq<ResourceDecl>) -> bool {
    &&& c.order.barriers@ == dependency_barriers(ps)
    &&& c.order.ordered_passes@ == schedule(pass_ids(ps), dependency_barriers(ps))
    &&& c.passes@.len() == ps.len()
    &&& forall|i: int| 0 <= i < c.passes@.len() ==> lowered(ps[i], #[trigger] c.passes@[i])
    &&& c.resources@ == rs
}

/// The first pass of `ps` without a lane, as the error it gives.
pub open spec fn first_missing_lane(
    ps: Seq<crate::frame::PassDecl>,
    has_compute: bool,
    has_transfer: bool,
    e: GraphError,
) -> bool {
    exists|i: int|
        0 <= i < ps.len() && !lane_available(ps[i].domain, has_compute, has_transfer) && (forall|j: int|
            0 <= j < i ==> lane_available((#[trigger] ps[j]).domain, has_compute, has_transfer)) && e
            == GraphError::MissingLane(ps[i].domain)
}

/// The graph compiles and every pass has a lane.
pub open spec fn frame_runs(ps: Seq<crate::frame::PassDecl>, has_compute: bool, has_transfer: bool) -> bool {
    &&& pass_ids(ps).no_duplicates()
    &&& forall|i: int| 0 <= i < ps.len() ==> lane_available((#[trigger] ps[i]).domain, has_compute, has_transfer)
}

/// `fp` is the plan of a frame of passes `ps` over resources `rs`, made by
/// executor `e0`, which it left as `e1`.
pub open spec fn frame_planned(
    fp: FramePlan,
    e0: Executor,
    e1: Executor,
    ps: Seq<crate::frame::PassDecl>,
    rs: Seq<ResourceDecl>,
    present: Option<PresentSync>,
) -> bool {
    let order = fp.compiled.order.ordered_passes@;
    let cps = fp.compiled.passes@;
    let ds = order_domains(order, cps);
    let init = e0.lane_values();
    &&& compiled_from(fp.compiled, ps, rs)
    &&& fp.passes@.len() == order.len()
    &&& forall|i: int|
        0 <= i < order.len() ==> pass_submitted(#[trigger] fp.passes@[i], i, fp.compiled, init, e0.families(), e0.semaphores(), present)
    &&& (fp.present_only is Some) == (first_graphics_in(order, cps) is None && present is Some)
    &&& (fp.present_only matches Some(s) ==> present matches Some(sync) && {
        &&& s.value == e0.last_of(PassDomain::Graphics) + 1
        &&& s.waits@ == seq![SemaphoreSubmit { semaphore: sync.wait_acquire, value: 0, stage: Stage::ColorOutput }]
        &&& s.signals@ == seq![
            timeline_signal(e0.timeline_of(PassDomain::Graphics), s.value),
            SemaphoreSubmit { semaphore: sync.signal_render_finished, value: 0, stage: Stage::Bottom },
        ]
    })
    &&& forall|d: PassDomain|
        e0.has_lane(d) ==> #[trigger] e1.last_of(d) == e0.last_of(d) + count_on(ds, d) + if d == PassDomain::Graphics
            && fp.present_only is Some {
            1int
        } else {
            0int
        }
    &&& e1.same_lanes(&e0)
    &&& e1.descriptor_set_list() == e0.descriptor_set_list()
    &&& fp.final_graphics_value == (if count_on(ds, PassDomain::Graphics) > 0 {
        e0.last_of(PassDomain::Graphics) + count_on(ds, PassDomain::Graphics)
    } else if fp.present_only is Some {
        e0.last_of(PassDomain::Graphics) + 1
    } else {
        0
    })
}

pub proof fn lemma_count_take_step(ds: Seq<PassDomain>, i: int, d: PassDomain)
    requires
        0 <= i < ds.len(),
    ensures
        count_on(ds.take(i + 1), d) == count_on(ds.take(i), d) + if ds[i] == d {
            1nat
        } else {
            0nat
        },
{
    assert(ds.take(i + 1).drop_last() =~= ds.take(i));
}

proof fn lemma_count_le(ds: Seq<PassDomain>, d: PassDomain)
    ensures
        count_on(ds, d) <= ds.len(),
    decreases ds.len(),
{
    if ds.len() > 0 {
        lemma_count_le(ds.drop_last(), d);
    }
}

proof fn lemma_count_mono(ds: Seq<PassDomain>, i: int, j: int, d: PassDomain)
    requires
        0 <= i <= j <= ds.len(),
    ensures
        count_on(ds.take(i), d) <= count_on(ds.take(j), d),
    decreases j - i,
{
    if i < j {
        lemma_count_mono(ds, i, j - 1, d);
        lemma_count_take_step(ds, j - 1, d);
    }
}

proof fn lemma_count_none(ds: Seq<PassDomain>, d: PassDomain)
    requires
        forall|j: int| 0 <= j < ds.len() ==> ds[j] != d,
    ensures
        count_on(ds, d) == 0,
    decreases ds.len(),
{
    if ds.len() > 0 {
        lemma_count_none(ds.drop_last(), d);
    }
}

proof fn lemma_domain_found(ps: Seq<CompiledPass>, id: PassId, k: int)
    requires
        0 <= k < ps.len(),
        ps[k].id == id,
    ensures
        domain_of(ps, id) is Some,
    decreases ps.len(),
{
    if ps[0].id != id {
        assert(ps.drop_first()[k - 1] == ps[k]);
        lemma_domain_found(ps.drop_first(), id, k - 1);
    }
}

/// The index of the first pass with id `id`.
fn find_pass(passes: &Vec<CompiledPass>, id: PassId) -> (r: usize)
    requires
        exists|k: int| 0 <= k < passes@.len() && passes@[k].id == id,
    ensures
        r < passes@.len(),
        passes@[r as int].id == id,
        domain_of(passes@, id) == Some(passes@[r as int].domain),
{
    let ghost k0 = choose|k: int| 0 <= k < passes@.len() && passes@[k].id == id;
    let mut k: usize = 0;
    assert(passes@.skip(0) == passes@);
    while k < passes.len()
        invariant
            k <= passes@.len(),
            0 <= k0 < passes@.len() && passes@[k0].id == id,
            forall|j: int| 0 <= j < k ==> passes@[j].id != id,
            domain_of(passes@, id) == domain_of(passes@.skip(k as int), id),
        decreases passes@.len() - k,
    {
        proof {
            assert(passes@.skip(k as int).drop_first() == passes@.skip(k + 1));
        }
        if passes[k].id == id {
            return k;
        }
        k = k + 1;
    }
    proof {
        assert(passes@[k0].id != id);
    }
    0
}

proof fn lemma_first_none(order: Seq<PassId>, cps: Seq<CompiledPass>)
    requires
        first_graphics_in(order, cps) is None,
    ensures
        forall|j: int| 0 <= j < order.len() ==> !is_graphics(cps, #[trigger] order[j]),
    decreases order.len(),
{
    if order.len() > 0 {
        lemma_first_none(order.drop_first(), cps);
        assert forall|j: int| 0 <= j < order.len() implies !is_graphics(cps, #[trigger] order[j]) by {
            if j > 0 {
                assert(order[j] == order.drop_first()[j - 1]);
            }
        }
    }
}

/// Some wait of `ws` is on `sem` for at least `v`.
pub open spec fn waits_for(ws: Seq<TimelineWait>, sem: u64, v: int) -> bool {
    exists|w: int| 0 <= w < ws.len() && ws[w].0 == sem && ws[w].1 >= v
}

proof fn lemma_add_wait_keeps(ws: Seq<TimelineWait>, sem: u64, val: u64, st: Stage, s2: u64, x: int)
    requires
        waits_for(ws, s2, x),
    ensures
        waits_for(add_wait(ws, sem, val, st), s2, x),
{
    let w = choose|w: int| 0 <= w < ws.len() && ws[w].0 == s2 && ws[w].1 >= x;
    let r = add_wait(ws, sem, val, st);
    if exists|i: int| first_wait_on(ws, sem, i) {
        let i = choose|i: int| first_wait_on(ws, sem, i);
        if w == i {
            assert(r[i].0 == s2 && r[i].1 >= x);
        } else {
            assert(r[w] == ws[w]);
        }
    } else {
        assert(r[w] == ws[w]);
    }
}

proof fn lemma_add_wait_has(ws: Seq<TimelineWait>, sem: u64, val: u64, st: Stage)
    ensures
        waits_for(add_wait(ws, sem, val, st), sem, val as int),
{
    let r = add_wait(ws, sem, val, st);
    if exists|i: int| first_wait_on(ws, sem, i) {
        let i = choose|i: int| first_wait_on(ws, sem, i);
        assert(r[i].0 == sem && r[i].1 >= val);
    } else {
        assert(r[ws.len() as int].0 == sem && r[ws.len() as int].1 == val);
    }
}

proof fn lemma_waits_after_keeps(
    ws: Seq<TimelineWait>,
    bs: Seq<BarrierEdge>,
    pass_id: PassId,
    domain: PassDomain,
    sig: Seq<(PassId, u64, PassDomain)>,
    sems: DomainSemaphores,
    s2: u64,
    x: int,
)
    requires
        waits_for(ws, s2, x),
    ensures
        waits_for(waits_after(ws, bs, pass_id, domain, sig, sems), s2, x),
    decreases bs.len(),
{
    if bs.len() > 0 {
        lemma_waits_after_keeps(ws, bs.drop_last(), pass_id, domain, sig, sems, s2, x);
        let w = waits_after(ws, bs.drop_last(), pass_id, domain, sig, sems);
        let b = bs.last();
        if b.to_pass == pass_id {
            if let Some((v, d)) = signal_of(sig, b.from_pass) {
                if d != domain {
                    lemma_add_wait_keeps(w, semaphore_of(sems, d), v, b.dst_usage@.0, s2, x);
                }
            }
        }
    }
}

proof fn lemma_waits_after_covers(
    ws: Seq<TimelineWait>,
    bs: Seq<BarrierEdge>,
    pass_id: PassId,
    domain: PassDomain,
    sig: Seq<(PassId, u64, PassDomain)>,
    sems: DomainSemaphores,
    k: int,
    v: u64,
    d: PassDomain,
)
    requires
        0 <= k < bs.len(),
        bs[k].to_pass == pass_id,
        signal_of(sig, bs[k].from_pass) == Some((v, d)),
        d != domain,
    ensures
        waits_for(waits_after(ws, bs, pass_id, domain, sig, sems), semaphore_of(sems, d), v as int),
    decreases bs.len(),
{
    let w = waits_after(ws, bs.drop_last(), pass_id, domain, sig, sems);
    let b = bs.last();
    if k == bs.len() - 1 {
        lemma_add_wait_has(w, semaphore_of(sems, d), v, b.dst_usage@.0);
    } else {
        assert(bs.drop_last()[k] == bs[k]);
        lemma_waits_after_covers(ws, bs.drop_last(), pass_id, domain, sig, sems, k, v, d);
        if b.to_pass == pass_id {
            if let Some((v2, d2)) = signal_of(sig, b.from_pass) {
                if d2 != domain {
                    lemma_add_wait_keeps(w, semaphore_of(sems, d2), v2, b.dst_usage@.0, semaphore_of(sems, d), v as int);
                }
            }
        }
    }
}

proof fn lemma_signal_of_first(sig: Seq<(PassId, u64, PassDomain)>, p: PassId, j: int)
    requires
        0 <= j < sig.len(),
        sig[j].0 == p,
        forall|m: int| 0 <= m < j ==> (#[trigger] sig[m]).0 != p,
    ensures
        signal_of(sig, p) == Some((sig[j].1, sig[j].2)),
    decreases j,
{
    if j > 0 {
        assert(sig[0].0 != p);
        assert forall|m: int| 0 <= m < j - 1 implies (#[trigger] sig.drop_first()[m]).0 != p by {
            assert(sig.drop_first()[m] == sig[m + 1]);
        }
        lemma_signal_of_first(sig.drop_first(), p, j - 1);
    }
}

/// Every dependency between the passes of a frame is waited for: when a
/// barrier runs from pass `q` to pass `p`, `q` comes first in the order, and
/// the submission of `p` waits, on the timeline of `q`'s lane, for at least
/// the value that `q`'s submission signals.
pub proof fn lemma_dependencies_waited(
    fp: FramePlan,
    e0: Executor,
    e1: Executor,
    ps: Seq<crate::frame::PassDecl>,
    rs: Seq<ResourceDecl>,
    present: Option<PresentSync>,
    k: int,
    i: int,
    j: int,
)
    requires
        frame_planned(fp, e0, e1, ps, rs, present),
        pass_ids(ps).no_duplicates(),
        0 <= k < fp.compiled.order.barriers@.len(),
        0 <= i < fp.passes@.len(),
        0 <= j < fp.passes@.len(),
        fp.compiled.order.ordered_passes@[i] == fp.compiled.order.barriers@[k].to_pass,
        fp.compiled.order.ordered_passes@[j] == fp.compiled.order.barriers@[k].from_pass,
    ensures
        j < i,
        exists|w: int|
            0 <= w < fp.passes@[i].submission.waits@.len() && (#[trigger] fp.passes@[i].submission.waits@[w]).semaphore
                == e0.timeline_of(fp.passes@[j].plan.domain) && fp.passes@[i].submission.waits@[w].value
                >= fp.passes@[j].submission.value,
{
    let c = fp.compiled;
    let order = c.order.ordered_passes@;
    let cps = c.passes@;
    let bs = c.order.barriers@;
    let ds = order_domains(order, cps);
    let init = e0.lane_values();
    let sems = e0.semaphores();
    let si = fp.passes@[i];
    let sj = fp.passes@[j];
    lemma_compiled_order(ps);
    lemma_barriers_forward(ps);
    // The barrier runs forward between distinct passes, so `q` precedes `p`.
    assert(forward_in(ps, ps.len() as int, bs[k]));
    let (jf, jt) = choose|jf: int, jt: int|
        0 <= jf < jt < ps.len() && jt < ps.len() && (#[trigger] ps[jf]).id == bs[k].from_pass
            && (#[trigger] ps[jt]).id == bs[k].to_pass;
    assert(pass_ids(ps)[jf] == ps[jf].id && pass_ids(ps)[jt] == ps[jt].id);
    assert(bs[k].from_pass != bs[k].to_pass);
    assert(precedes(order, bs[k].from_pass, bs[k].to_pass));
    let (a, b) = choose|a: int, b: int| 0 <= a < b < order.len() && order[a] == bs[k].from_pass && order[b] == bs[k].to_pass;
    assert(a == j && b == i);
    // The plans of both passes.
    assert(pass_submitted(si, i, c, init, e0.families(), sems, present));
    assert(pass_submitted(sj, j, c, init, e0.families(), sems, present));
    let di = ds[i];
    let dj = ds[j];
    assert(sj.plan.domain == dj);
    lemma_count_take_step(ds, i, di);
    lemma_count_take_step(ds, j, dj);
    let stage = wait_stage(di, cps[si.pass_index as int].commands@.len() > 0);
    let lw = lane_waits(semaphore_of(sems, di), prev_value(init, ds, i) as u64, stage);
    let sig = signals_before(order, ds, init, i);
    let pw = si.plan.waits@;
    assert(pw == waits_after(lw, bs, order[i], di, sig, sems));
    if di == dj {
        // Same lane: the pass waits on its own lane's previous value, which
        // is at least the value of every earlier pass on that lane.
        lemma_count_mono(ds, j + 1, i, di);
        assert(prev_value(init, ds, i) >= pass_value(init, ds, j));
        assert(lw[0] == (semaphore_of(sems, di), prev_value(init, ds, i) as u64, stage));
        assert(waits_for(lw, semaphore_of(sems, dj), pass_value(init, ds, j)));
        lemma_waits_after_keeps(lw, bs, order[i], di, sig, sems, semaphore_of(sems, dj), pass_value(init, ds, j));
    } else {
        // Another lane: the pass waits on that lane's timeline for the
        // value the earlier pass signalled.
        assert forall|m: int| 0 <= m < j implies (#[trigger] sig[m]).0 != order[j] by {
            assert(order[m] != order[j]);
        }
        lemma_signal_of_first(sig, order[j], j);
        lemma_waits_after_covers(lw, bs, order[i], di, sig, sems, k, pass_value(init, ds, j) as u64, dj);
    }
    assert(waits_for(pw, semaphore_of(sems, dj), sj.submission.value as int));
    let w = choose|w: int| 0 <= w < pw.len() && pw[w].0 == semaphore_of(sems, dj) && pw[w].1 >= sj.submission.value;
    assert(si.submission.waits@[w] == wait_submits(pw)[w]);
}

/// On each lane, the passes of a frame signal increasing timeline values: a
/// later pass on the same lane signals a larger value.
pub proof fn lemma_lane_values_increase(
    fp: FramePlan,
    e0: Executor,
    e1: Executor,
    ps: Seq<crate::frame::PassDecl>,
    rs: Seq<ResourceDecl>,
    present: Option<PresentSync>,
    i: int,
    j: int,
)
    requires
        frame_planned(fp, e0, e1, ps, rs, present),
        0 <= i < j < fp.passes@.len(),
        fp.passes@[i].plan.domain == fp.passes@[j].plan.domain,
    ensures
        fp.passes@[i].submission.value < fp.passes@[j].submission.value,
{
    let c = fp.compiled;
    let ds = order_domains(c.order.ordered_passes@, c.passes@);
    let init = e0.lane_values();
    assert(pass_submitted(fp.passes@[i], i, c, init, e0.families(), e0.semaphores(), present));
    assert(pass_submitted(fp.passes@[j], j, c, init, e0.families(), e0.semaphores(), present));
    let d = ds[i];
    lemma_count_mono(ds, i + 1, j, d);
    lemma_count_take_step(ds, j, d);
}

impl Executor {
    pub closed spec fn lane_of(&self, d: PassDomain) -> Option<WorkLane> {
        match d {
            PassDomain::Graphics => self.graphics,
            PassDomain::Compute => self.compute,
            PassDomain::Transfer => self.transfer,
        }
    }

    pub closed spec fn descriptor_set_list(&self) -> Seq<u64> {
        self.descriptor_sets@
    }

    pub open spec fn has_lane(&self, d: PassDomain) -> bool {
        self.lane_of(d) is Some
    }

    /// The value the lane of `d` last signalled; 0 without a lane.
    pub open spec fn last_of(&self, d: PassDomain) -> u64 {
        match self.lane_of(d) {
            Some(l) => l.last_spec(),
            None => 0,
        }
    }

    pub open spec fn lane_values(&self) -> (u64, u64, u64) {
        (self.last_of(PassDomain::Graphics), self.last_of(PassDomain::Compute), self.last_of(PassDomain::Transfer))
    }

    pub open spec fn timeline_of(&self, d: PassDomain) -> u64 {
        match self.lane_of(d) {
            Some(l) => l.timeline_spec(),
            None => 0,
        }
    }

    pub open spec fn family_of_lane(&self, d: PassDomain) -> u32 {
        match self.lane_of(d) {
            Some(l) => l.family_spec(),
            None => QUEUE_FAMILY_IGNORED,
        }
    }

    /// The timeline of each lane; 0 where there is none.
    pub open spec fn semaphores(&self) -> DomainSemaphores {
        DomainSemaphores {
            graphics: self.timeline_of(PassDomain::Graphics),
            compute: self.timeline_of(PassDomain::Compute),
            transfer: self.timeline_of(PassDomain::Transfer),
        }
    }

    /// The queue family of each lane; ignored where there is none.
    pub open spec fn families(&self) -> DomainFamilies {
        DomainFamilies {
            graphics: self.family_of_lane(PassDomain::Graphics),
            compute: self.family_of_lane(PassDomain::Compute),
            transfer: self.family_of_lane(PassDomain::Transfer),
        }
    }

    /// The lanes keep their queues, families and timelines.
    pub open spec fn same_lanes(&self, other: &Executor) -> bool {
        &&& forall|d: PassDomain| #[trigger] self.has_lane(d) == other.has_lane(d)
        &&& forall|d: PassDomain| #[trigger] self.timeline_of(d) == other.timeline_of(d)
        &&& forall|d: PassDomain| #[trigger] self.family_of_lane(d) == other.family_of_lane(d)
        &&& forall|d: PassDomain|
            self.has_lane(d) ==> (#[trigger] self.lane_of(d)).unwrap().queue_spec() == other.lane_of(
                d,
            ).unwrap().queue_spec()
    }

    /// An executor without lanes or descriptor sets.
    pub fn new() -> (e: Self)
        ensures
            forall|d: PassDomain| !(#[trigger] e.has_lane(d)),
            e.descriptor_set_list().len() == 0,
    {
        Executor { graphics: None, compute: None, transfer: None, descriptor_sets: Vec::new() }
    }

    pub fn attach_graphics(&mut self, lane: WorkLane)
        ensures
            final(self).lane_of(PassDomain::Graphics) == Some(lane),
            final(self).lane_of(PassDomain::Compute) == old(self).lane_of(PassDomain::Compute),
            final(self).lane_of(PassDomain::Transfer) == old(self).lane_of(PassDomain::Transfer),
            final(self).descriptor_set_list() == old(self).descriptor_set_list(),
    {
        self.graphics = Some(lane);
    }

    pub fn attach_compute(&mut self, lane: WorkLane)
        ensures
            final(self).lane_of(PassDomain::Compute) == Some(lane),
            final(self).lane_of(PassDomain::Graphics) == old(self).lane_of(PassDomain::Graphics),
            final(self).lane_of(PassDomain::Transfer) == old(self).lane_of(PassDomain::Transfer),
            final(self).descriptor_set_list() == old(self).descriptor_set_list(),
    {
        self.compute = Some(lane);
    }

    pub fn attach_transfer(&mut self, lane: WorkLane)
        ensures
            final(self).lane_of(PassDomain::Transfer) == Some(lane),
            final(self).lane_of(PassDomain::Graphics) == old(self).lane_of(PassDomain::Graphics),
            final(self).lane_of(PassDomain::Compute) == old(self).lane_of(PassDomain::Compute),
            final(self).descriptor_set_list() == old(self).descriptor_set_list(),
    {
        self.transfer = Some(lane);
    }

    pub fn graphics_lane(&self) -> (l: &WorkLane)
        requires
            self.has_lane(PassDomain::Graphics),
        ensures
            Some(*l) == self.lane_of(PassDomain::Graphics),
    {
        self.graphics.as_ref().unwrap()
    }

    pub fn compute_lane(&self) -> (l: &WorkLane)
        requires
            self.has_lane(PassDomain::Compute),
        ensures
            Some(*l) == self.lane_of(PassDomain::Compute),
    {
        self.compute.as_ref().unwrap()
    }

    pub fn transfer_lane(&self) -> (l: &WorkLane)
        requires
            self.has_lane(PassDomain::Transfer),
        ensures
            Some(*l) == self.lane_of(PassDomain::Transfer),
    {
        self.transfer.as_ref().unwrap()
    }

    /// The graphics lane, to submit on it directly.
    pub fn graphics_lane_mut(&mut self) -> (l: &mut WorkLane)
        requires
            old(self).has_lane(PassDomain::Graphics),
        ensures
            Some(*l) == old(self).lane_of(PassDomain::Graphics),
            final(self).lane_of(PassDomain::Graphics) == Some(*final(l)),
            final(self).lane_of(PassDomain::Compute) == old(self).lane_of(PassDomain::Compute),
            final(self).lane_of(PassDomain::Transfer) == old(self).lane_of(PassDomain::Transfer),
            final(self).descriptor_set_list() == old(self).descriptor_set_list(),
    {
        self.graphics.as_mut().unwrap()
    }

    /// The compute lane, to submit on it directly.
    pub fn compute_lane_mut(&mut self) -> (l: &mut WorkLane)
        requires
            old(self).has_lane(PassDomain::Compute),
        ensures
            Some(*l) == old(self).lane_of(PassDomain::Compute),
            final(self).lane_of(PassDomain::Compute) == Some(*final(l)),
            final(self).lane_of(PassDomain::Graphics) == old(self).lane_of(PassDomain::Graphics),
            final(self).lane_of(PassDomain::Transfer) == old(self).lane_of(PassDomain::Transfer),
            final(self).descriptor_set_list() == old(self).descriptor_set_list(),
    {
        self.compute.as_mut().unwrap()
    }

    /// The transfer lane, to submit on it directly.
    pub fn transfer_lane_mut(&mut self) -> (l: &mut WorkLane)
        requires
            old(self).has_lane(PassDomain::Transfer),
        ensures
            Some(*l) == old(self).lane_of(PassDomain::Transfer),
            final(self).lane_of(PassDomain::Transfer) == Some(*final(l)),
            final(self).lane_of(PassDomain::Graphics) == old(self).lane_of(PassDomain::Graphics),
            final(self).lane_of(PassDomain::Compute) == old(self).lane_of(PassDomain::Compute),
            final(self).descriptor_set_list() == old(self).descriptor_set_list(),
    {
        self.transfer.as_mut().unwrap()
    }

    pub fn has_compute(&self) -> (b: bool)
        ensures
            b == self.has_lane(PassDomain::Compute),
    {
        self.compute.is_some()
    }

    pub fn has_transfer(&self) -> (b: bool)
        ensures
            b == self.has_lane(PassDomain::Transfer),
    {
        self.transfer.is_some()
    }

    pub fn graphics_timeline_handle(&self) -> (h: u64)
        requires
            self.has_lane(PassDomain::Graphics),
        ensures
            h == self.timeline_of(PassDomain::Graphics),
    {
        self.graphics_lane().timeline_handle()
    }

    /// Registers a descriptor set; its id is its position among the
    /// registered sets.
    pub fn register_descriptor_set(&mut self, handle: u64) -> (id: DescriptorSetId)
        ensures
            id.0 == old(self).descriptor_set_list().len() as u32,
            final(self).descriptor_set_list() == old(self).descriptor_set_list().push(handle),
            forall|d: PassDomain| #[trigger] final(self).lane_of(d) == old(self).lane_of(d),
    {
        let id = DescriptorSetId(self.descriptor_sets.len() as u32);
        self.descriptor_sets.push(handle);
        id
    }

    pub fn clear_descriptor_sets(&mut self)
        ensures
            final(self).descriptor_set_list().len() == 0,
            forall|d: PassDomain| #[trigger] final(self).lane_of(d) == old(self).lane_of(d),
    {
        self.descriptor_sets.clear();
    }

    /// The registered descriptor sets, in registration order.
    pub fn descriptor_sets(&self) -> (r: &Vec<u64>)
        ensures
            r@ == self.descriptor_set_list(),
    {
        &self.descriptor_sets
    }

    fn domain_semaphores(&self) -> (r: DomainSemaphores)
        ensures
            r == self.semaphores(),
    {
        DomainSemaphores {
            graphics: match &self.graphics {
                Some(l) => l.timeline_handle(),
                None => 0,
            },
            compute: match &self.compute {
                Some(l) => l.timeline_handle(),
                None => 0,
            },
            transfer: match &self.transfer {
                Some(l) => l.timeline_handle(),
                None => 0,
            },
        }
    }

    fn domain_families(&self) -> (r: DomainFamilies)
        ensures
            r == self.families(),
    {
        DomainFamilies {
            graphics: match &self.graphics {
                Some(l) => l.family(),
                None => QUEUE_FAMILY_IGNORED,
            },
            compute: match &self.compute {
                Some(l) => l.family(),
                None => QUEUE_FAMILY_IGNORED,
            },
            transfer: match &self.transfer {
                Some(l) => l.family(),
                None => QUEUE_FAMILY_IGNORED,
            },
        }
    }

    fn lane_last(&self, d: PassDomain) -> (r: u64)
        requires
            self.has_lane(d),
        ensures
            r == self.last_of(d),
    {
        match d {
            PassDomain::Graphics => self.graphics.as_ref().unwrap().last_signal_value(),
            PassDomain::Compute => self.compute.as_ref().unwrap().last_signal_value(),
            PassDomain::Transfer => self.transfer.as_ref().unwrap().last_signal_value(),
        }
    }

    /// Submits on the lane of `d`.
    fn submit_on(
        &mut self,
        d: PassDomain,
        waits: &Vec<TimelineWait>,
        binary_waits: &Vec<SemaphoreSubmit>,
        binary_signals: &Vec<SemaphoreSubmit>,
    ) -> (s: Submission)
        requires
            old(self).has_lane(d),
            old(self).last_of(d) < u64::MAX,
        ensures
            s.value == old(self).last_of(d) + 1,
            final(self).last_of(d) == s.value,
            final(self).same_lanes(old(self)),
            forall|d2: PassDomain| d2 != d ==> #[trigger] final(self).lane_of(d2) == old(self).lane_of(d2),
            final(self).descriptor_set_list() == old(self).descriptor_set_list(),
            s.waits@ == wait_submits(waits@) + binary_waits@,
            s.signals@ == seq![timeline_signal(old(self).timeline_of(d), s.value)] + binary_signals@,
    {
        match d {
            PassDomain::Graphics => {
                let mut l = self.graphics.take().unwrap();
                let s = l.submit_with_binary(waits, binary_waits, binary_signals);
                self.graphics = Some(l);
                s
            },
            PassDomain::Compute => {
                let mut l = self.compute.take().unwrap();
                let s = l.submit_with_binary(waits, binary_waits, binary_signals);
                self.compute = Some(l);
                s
            },
            PassDomain::Transfer => {
                let mut l = self.transfer.take().unwrap();
                let s = l.submit_with_binary(waits, binary_waits, binary_signals);
                self.transfer = Some(l);
                s
            },
        }
    }


    /// Plans and submits every pass of `c`'s order, in order, on the lanes;
    /// also returns the value of the last graphics submission, 0 if none.
    #[verifier::rlimit(50)]
    fn plan_passes(
        &mut self,
        c: &CompiledGraph,
        first_gfx: Option<PassId>,
        last_gfx: Option<PassId>,
        present_sync: &Option<PresentSync>,
    ) -> (r: (Vec<PassSubmission>, u64))
        requires
            resources_indexed(c.resources@),
            forall|k: int|
                0 <= k < c.order.barriers@.len() ==> (#[trigger] c.order.barriers@[k]).resource < c.resources@.len(),
            first_gfx == first_graphics_in(c.order.ordered_passes@, c.passes@),
            last_gfx == last_graphics_in(c.order.ordered_passes@, c.passes@),
            forall|j: int|
                0 <= j < c.order.ordered_passes@.len() ==> exists|k: int|
                    0 <= k < c.passes@.len() && c.passes@[k].id == #[trigger] c.order.ordered_passes@[j],
            forall|k: int| 0 <= k < c.passes@.len() ==> old(self).has_lane(#[trigger] c.passes@[k].domain),
            forall|d: PassDomain|
                old(self).has_lane(d) ==> #[trigger] old(self).last_of(d) + c.order.ordered_passes@.len() < u64::MAX,
        ensures
            r.0@.len() == c.order.ordered_passes@.len(),
            forall|i: int|
                0 <= i < c.order.ordered_passes@.len() ==> pass_submitted(
                    #[trigger] r.0@[i],
                    i,
                    *c,
                    old(self).lane_values(),
                    old(self).families(),
                    old(self).semaphores(),
                    *present_sync,
                ),
            forall|d: PassDomain|
                old(self).has_lane(d) ==> #[trigger] final(self).last_of(d) == old(self).last_of(d) + count_on(
                    order_domains(c.order.ordered_passes@, c.passes@),
                    d,
                ),
            final(self).same_lanes(old(self)),
            final(self).descriptor_set_list() == old(self).descriptor_set_list(),
            r.1 == (if count_on(order_domains(c.order.ordered_passes@, c.passes@), PassDomain::Graphics) > 0 {
                old(self).last_of(PassDomain::Graphics) + count_on(
                    order_domains(c.order.ordered_passes@, c.passes@),
                    PassDomain::Graphics,
                )
            } else {
                0
            }),
    {
        let ghost order = c.order.ordered_passes@;
        let ghost cps = c.passes@;
        let ghost ds = order_domains(order, cps);
        let ghost init = self.lane_values();
        let ghost start = *self;
        let sems = self.domain_semaphores();
        let fams = self.domain_families();
        let n = c.order.ordered_passes.len();
        let mut sig: Vec<(PassId, u64, PassDomain)> = Vec::new();
        let mut out: Vec<PassSubmission> = Vec::new();
        let mut fin: u64 = 0;
        let mut i: usize = 0;
        proof {
            assert(sig@ =~= signals_before(order, ds, init, 0));
            assert(ds.take(0) =~= Seq::<PassDomain>::empty());
        }
        while i < n
            invariant
                n == c.order.ordered_passes@.len(),
                order == c.order.ordered_passes@,
                cps == c.passes@,
                ds == order_domains(order, cps),
                i <= n,
                init == start.lane_values(),
                sems == start.semaphores(),
                fams == start.families(),
                start == *old(self),
                resources_indexed(c.resources@),
                forall|k: int|
                    0 <= k < c.order.barriers@.len() ==> (#[trigger] c.order.barriers@[k]).resource
                        < c.resources@.len(),
                first_gfx == first_graphics_in(order, cps),
                last_gfx == last_graphics_in(order, cps),
                forall|j: int|
                    0 <= j < order.len() ==> exists|k: int|
                        0 <= k < cps.len() && cps[k].id == #[trigger] order[j],
                forall|k: int| 0 <= k < cps.len() ==> start.has_lane(#[trigger] cps[k].domain),
                forall|d: PassDomain| start.has_lane(d) ==> #[trigger] start.last_of(d) + n < u64::MAX,
                self.same_lanes(&start),
                self.descriptor_set_list() == start.descriptor_set_list(),
                forall|d: PassDomain|
                    start.has_lane(d) ==> #[trigger] self.last_of(d) == start.last_of(d) + count_on(
                        ds.take(i as int),
                        d,
                    ),
                sig@ == signals_before(order, ds, init, i as int),
                out@.len() == i,
                forall|j: int|
                    0 <= j < i ==> pass_submitted(#[trigger] out@[j], j, *c, init, fams, sems, *present_sync),
                fin == (if count_on(ds.take(i as int), PassDomain::Graphics) > 0 {
                    start.last_of(PassDomain::Graphics) + count_on(ds.take(i as int), PassDomain::Graphics)
                } else {
                    0
                }),
            decreases n - i,
        {
            let id = c.order.ordered_passes[i];
            let idx = find_pass(&c.passes, id);
            let pass = &c.passes[idx];
            let d = pass.domain;
            proof {
                assert(ds[i as int] == d);
                assert(start.has_lane(cps[idx as int].domain));
                lemma_count_le(ds.take(i as int), d);
                lemma_count_take_step(ds, i as int, PassDomain::Graphics);
                lemma_count_take_step(ds, i as int, PassDomain::Compute);
                lemma_count_take_step(ds, i as int, PassDomain::Transfer);
            }
            let lane_prev = self.lane_last(d);
            let lane_sem = sems.timeline_handle_for(d);
            let plan = plan_pass(
                pass,
                first_gfx,
                last_gfx,
                lane_sem,
                lane_prev,
                &c.order.barriers,
                &c.resources,
                &fams,
                &sems,
                &sig,
                present_sync,
            );
            let ghost before = *self;
            let s = self.submit_on(d, &plan.waits, &plan.binary_waits, &plan.binary_signals);
            let ghost value = s.value;
            sig.push((id, s.value, d));
            if d == PassDomain::Graphics {
                fin = s.value;
            }
            out.push(PassSubmission { pass_index: idx, plan, submission: s });
            proof {
                assert(value == pass_value(init, ds, i as int));
                assert(sig@ =~= signals_before(order, ds, init, i + 1));
                assert(pass_submitted(out@[i as int], i as int, *c, init, fams, sems, *present_sync));
                assert forall|d2: PassDomain| start.has_lane(d2) implies #[trigger] self.last_of(d2) == start.last_of(
                    d2,
                ) + count_on(ds.take(i + 1), d2) by {
                    lemma_count_take_step(ds, i as int, d2);
                    assert(before.last_of(d2) == start.last_of(d2) + count_on(ds.take(i as int), d2));
                    if d2 != d {
                        assert(self.lane_of(d2) == before.lane_of(d2));
                    }
                }
            }
            i = i + 1;
        }
        proof {
            assert(ds.take(n as int) =~= ds);
        }
        (out, fin)
    }

    /// Plans a frame: compiles `graph`, checks that every pass has a lane,
    /// then plans and submits each pass in execution order. A frame without
    /// a graphics pass that must still present gets one submission on the
    /// graphics lane that waits for the acquired image and signals the
    /// render-finished semaphore.
    #[verifier::rlimit(50)]
    pub fn execute(&mut self, graph: FrameGraph, present_sync: Option<PresentSync>) -> (r: Result<FramePlan, GraphError>)
        requires
            graph.wf(),
            forall|d: PassDomain|
                old(self).has_lane(d) ==> #[trigger] old(self).last_of(d) + graph.pass_list().len() < u64::MAX,
            frame_runs(graph.pass_list(), old(self).has_lane(PassDomain::Compute), old(self).has_lane(PassDomain::Transfer)) ==> {
                &&& old(self).has_lane(PassDomain::Graphics) || ((forall|i: int|
                    0 <= i < graph.pass_list().len() ==> (#[trigger] graph.pass_list()[i]).domain != PassDomain::Graphics)
                    && present_sync is None)
                &&& forall|k: int|
                    0 <= k < dependency_barriers(graph.pass_list()).len() ==> (#[trigger] dependency_barriers(
                        graph.pass_list(),
                    )[k]).resource < graph.resource_list().len()
            },
        ensures
            !pass_ids(graph.pass_list()).no_duplicates() ==> r == Err::<FramePlan, GraphError>(GraphError::CycleDetected)
                && *final(self) == *old(self),
            pass_ids(graph.pass_list()).no_duplicates() && !frame_runs(
                graph.pass_list(),
                old(self).has_lane(PassDomain::Compute),
                old(self).has_lane(PassDomain::Transfer),
            ) ==> *final(self) == *old(self) && (r matches Err(e) && first_missing_lane(
                graph.pass_list(),
                old(self).has_lane(PassDomain::Compute),
                old(self).has_lane(PassDomain::Transfer),
                e,
            )),
            frame_runs(graph.pass_list(), old(self).has_lane(PassDomain::Compute), old(self).has_lane(PassDomain::Transfer))
                ==> (r matches Ok(fp) && frame_planned(fp, *old(self), *final(self), graph.pass_list(), graph.resource_list(), present_sync)),
    {
        let ghost ps = graph.pass_list();
        let ghost rs = graph.resource_list();
        proof {
            graph.lemma_resources_indexed();
        }
        let has_c = self.has_compute();
        let has_t = self.has_transfer();
        let compiled = match graph.compile() {
            Ok(c) => c,
            Err(e) => {
                return Err(e);
            },
        };
        proof {
            assert forall|i: int| 0 <= i < ps.len() implies (#[trigger] ps[i]).domain == compiled.passes@[i].domain by {
                assert(lowered(ps[i], compiled.passes@[i]));
            }
        }
        match check_lanes(&compiled.passes, has_c, has_t) {
            Ok(()) => {},
            Err(e) => {
                proof {
                    let i = choose|i: int|
                        0 <= i < compiled.passes@.len() && !lane_available(compiled.passes@[i].domain, has_c, has_t)
                            && (forall|j: int|
                            0 <= j < i ==> lane_available((#[trigger] compiled.passes@[j]).domain, has_c, has_t))
                            && e == GraphError::MissingLane(compiled.passes@[i].domain);
                    assert(!lane_available(ps[i].domain, has_c, has_t));
                    assert forall|j: int| 0 <= j < i implies lane_available((#[trigger] ps[j]).domain, has_c, has_t) by {
                        assert(lane_available(compiled.passes@[j].domain, has_c, has_t));
                    }
                }
                return Err(e);
            },
        }
        let ghost order = compiled.order.ordered_passes@;
        let ghost cps = compiled.passes@;
        let ghost ds = order_domains(order, cps);
        proof {
            lemma_compiled_order(ps);
            assert forall|i: int| 0 <= i < ps.len() implies lane_available((#[trigger] ps[i]).domain, has_c, has_t) by {
                assert(lane_available(compiled.passes@[i].domain, has_c, has_t));
            }
            assert forall|j: int| 0 <= j < order.len() implies exists|k: int|
                0 <= k < cps.len() && cps[k].id == #[trigger] order[j] by {
                assert(schedule(pass_ids(ps), dependency_barriers(ps)).contains(order[j]));
                assert(pass_ids(ps).contains(order[j]));
                let k = choose|k: int| 0 <= k < pass_ids(ps).len() && pass_ids(ps)[k] == order[j];
                assert(lowered(ps[k], cps[k]));
            }
            assert forall|k: int| 0 <= k < cps.len() implies self.has_lane(#[trigger] cps[k].domain) by {
                assert(lowered(ps[k], cps[k]));
                assert(lane_available(cps[k].domain, has_c, has_t));
                if cps[k].domain == PassDomain::Graphics {
                    assert(ps[k].domain == PassDomain::Graphics);
                }
            }
        }
        let first = first_graphics_pass(&compiled.order.ordered_passes, &compiled.passes);
        let last = last_graphics_pass(&compiled.order.ordered_passes, &compiled.passes);
        let ghost mid0 = *self;
        let (subs, fin0) = self.plan_passes(&compiled, first, last, &present_sync);
        let ghost mid1 = *self;
        let mut fin = fin0;
        let mut present_only: Option<Submission> = None;
        if first.is_none() {
            if let Some(sync) = present_sync {
                proof {
                    lemma_first_none(order, cps);
                    assert forall|j: int| 0 <= j < ds.len() implies ds[j] != PassDomain::Graphics by {
                        let k = choose|k: int| 0 <= k < cps.len() && cps[k].id == #[trigger] order[j];
                        lemma_domain_found(cps, order[j], k);
                        assert(!is_graphics(cps, order[j]));
                    }
                    lemma_count_none(ds, PassDomain::Graphics);
                    assert(mid0.has_lane(PassDomain::Graphics));
                }
                let waits = vec![SemaphoreSubmit { semaphore: sync.wait_acquire, value: 0, stage: Stage::ColorOutput }];
                let signals = vec![
                    SemaphoreSubmit { semaphore: sync.signal_render_finished, value: 0, stage: Stage::Bottom },
                ];
                let no_timeline_waits: Vec<TimelineWait> = Vec::new();
                let s = self.submit_on(PassDomain::Graphics, &no_timeline_waits, &waits, &signals);
                proof {
                    assert(self.last_of(PassDomain::Graphics) == mid1.last_of(PassDomain::Graphics) + 1);
                    assert(self.lane_of(PassDomain::Compute) == mid1.lane_of(PassDomain::Compute));
                    assert(self.lane_of(PassDomain::Transfer) == mid1.lane_of(PassDomain::Transfer));
                    assert(mid1.timeline_of(PassDomain::Graphics) == old(self).timeline_of(PassDomain::Graphics));
                    assert(s.waits@ =~= seq![
                        SemaphoreSubmit { semaphore: sync.wait_acquire, value: 0, stage: Stage::ColorOutput },
                    ]);
                    assert(s.signals@ =~= seq![
                        timeline_signal(old(self).timeline_of(PassDomain::Graphics), s.value),
                        SemaphoreSubmit { semaphore: sync.signal_render_finished, value: 0, stage: Stage::Bottom },
                    ]);
                }
                fin = s.value;
                present_only = Some(s);
            }
        }
        let fp = FramePlan { compiled, passes: subs, present_only, final_graphics_value: fin };
        proof {
            assert(compiled_from(fp.compiled, ps, rs));
            assert(mid0 == *old(self));
            assert forall|i: int| 0 <= i < order.len() implies pass_submitted(
                #[trigger] fp.passes@[i],
                i,
                fp.compiled,
                old(self).lane_values(),
                old(self).families(),
                old(self).semaphores(),
                present_sync,
            ) by {
                assert(pass_submitted(subs@[i], i, compiled, mid0.lane_values(), mid0.families(), mid0.semaphores(), present_sync));
            }
            assert(fp.passes@.len() == order.len());
            assert((fp.present_only is Some) == (first_graphics_in(order, cps) is None && present_sync is Some));
            assert(self.same_lanes(&*old(self)));
            assert(self.descriptor_set_list() == old(self).descriptor_set_list());
            assert(fp.final_graphics_value == (if count_on(ds, PassDomain::Graphics) > 0 {
                old(self).last_of(PassDomain::Graphics) + count_on(ds, PassDomain::Graphics)
            } else if fp.present_only is Some {
                old(self).last_of(PassDomain::Graphics) + 1
            } else {
                0
            }));
            assert forall|d: PassDomain| old(self).has_lane(d) implies #[trigger] self.last_of(d) == old(self).last_of(d) + count_on(ds, d) + if d == PassDomain::Graphics
                && fp.present_only is Some {
                1int
            } else {
                0int
            } by {
                assert(mid0.last_of(d) == old(self).last_of(d));
                assert(mid1.last_of(d) == old(self).last_of(d) + count_on(ds, d));
                if fp.present_only is None {
                    assert(*self == mid1);
                }
            }
        }
        Ok(fp)
    }

    /// Whether `execute` can run `graph` with `present_sync` on these lanes:
    /// every lane has room for one more value per pass, and a graph that
    /// compiles with a lane for every pass has a graphics lane when it draws
    /// or presents, and barriers only on declared resources.
    pub fn can_execute(&self, graph: &FrameGraph, present_sync: &Option<PresentSync>) -> (b: bool)
        requires
            graph.wf(),
        ensures
            b == ((forall|d: PassDomain|
                self.has_lane(d) ==> #[trigger] self.last_of(d) + graph.pass_list().len() < u64::MAX) && (frame_runs(
                graph.pass_list(),
                self.has_lane(PassDomain::Compute),
                self.has_lane(PassDomain::Transfer),
            ) ==> {
                &&& self.has_lane(PassDomain::Graphics) || ((forall|i: int|
                    0 <= i < graph.pass_list().len() ==> (#[trigger] graph.pass_list()[i]).domain
                        != PassDomain::Graphics) && *present_sync is None)
                &&& forall|k: int|
                    0 <= k < dependency_barriers(graph.pass_list()).len() ==> (#[trigger] dependency_barriers(
                        graph.pass_list(),
                    )[k]).resource < graph.resource_list().len()
            })),
    {
        let passes = graph.passes();
        let n = passes.len() as u64;
        let ghost ps = graph.pass_list();
        let ghost headroom = forall|d: PassDomain|
            self.has_lane(d) ==> #[trigger] self.last_of(d) + graph.pass_list().len() < u64::MAX;
        let g_ok = match &self.graphics {
            Some(l) => l.last_signal_value() < u64::MAX - n,
            None => true,
        };
        let c_ok = match &self.compute {
            Some(l) => l.last_signal_value() < u64::MAX - n,
            None => true,
        };
        let t_ok = match &self.transfer {
            Some(l) => l.last_signal_value() < u64::MAX - n,
            None => true,
        };
        proof {
            assert(headroom == (g_ok && c_ok && t_ok)) by {
                if g_ok && c_ok && t_ok {
                    assert forall|d: PassDomain| self.has_lane(d) implies #[trigger] self.last_of(d)
                        + graph.pass_list().len() < u64::MAX by {
                        match d {
                            PassDomain::Graphics => {},
                            PassDomain::Compute => {},
                            PassDomain::Transfer => {},
                        }
                    }
                } else if !g_ok {
                    assert(self.has_lane(PassDomain::Graphics) && !(self.last_of(PassDomain::Graphics)
                        + graph.pass_list().len() < u64::MAX));
                } else if !c_ok {
                    assert(self.has_lane(PassDomain::Compute) && !(self.last_of(PassDomain::Compute)
                        + graph.pass_list().len() < u64::MAX));
                } else {
                    assert(self.has_lane(PassDomain::Transfer) && !(self.last_of(PassDomain::Transfer)
                        + graph.pass_list().len() < u64::MAX));
                }
            }
        }
        if !(g_ok && c_ok && t_ok) {
            return false;
        }
        let order = match graph.compile_dependencies() {
            Ok(o) => o,
            Err(_) => {
                return true;
            },
        };
        let has_c = self.compute.is_some();
        let has_t = self.transfer.is_some();
        let mut any_graphics = false;
        let mut i: usize = 0;
        while i < passes.len()
            invariant
                passes@ == ps,
                ps == graph.pass_list(),
                forall|d: PassDomain|
                    self.has_lane(d) ==> #[trigger] self.last_of(d) + graph.pass_list().len() < u64::MAX,
                i <= ps.len(),
                has_c == self.has_lane(PassDomain::Compute),
                has_t == self.has_lane(PassDomain::Transfer),
                forall|j: int| 0 <= j < i ==> lane_available((#[trigger] ps[j]).domain, has_c, has_t),
                any_graphics == exists|j: int| 0 <= j < i && (#[trigger] ps[j]).domain == PassDomain::Graphics,
            decreases ps.len() - i,
        {
            let d = passes[i].domain;
            let available = match d {
                PassDomain::Graphics => true,
                PassDomain::Compute => has_c,
                PassDomain::Transfer => has_t,
            };
            if !available {
                proof {
                    assert(!lane_available(ps[i as int].domain, has_c, has_t));
                }
                return true;
            }
            if d == PassDomain::Graphics {
                any_graphics = true;
            }
            proof {
                if any_graphics && !(exists|j: int| 0 <= j < i && (#[trigger] ps[j]).domain == PassDomain::Graphics) {
                    assert(ps[i as int].domain == PassDomain::Graphics);
                }
            }
            i = i + 1;
        }
        if self.graphics.is_none() && (any_graphics || present_sync.is_some()) {
            proof {
                if any_graphics {
                    let j = choose|j: int| 0 <= j < ps.len() && (#[trigger] ps[j]).domain == PassDomain::Graphics;
                    assert(ps[j].domain == PassDomain::Graphics);
                }
            }
            return false;
        }
        let resources_len = graph.resources().len();
        let mut k: usize = 0;
        while k < order.barriers.len()
            invariant
                order.barriers@ == dependency_barriers(ps),
                ps == graph.pass_list(),
                forall|d: PassDomain|
                    self.has_lane(d) ==> #[trigger] self.last_of(d) + graph.pass_list().len() < u64::MAX,
                frame_runs(ps, has_c, has_t),
                has_c == self.has_lane(PassDomain::Compute),
                has_t == self.has_lane(PassDomain::Transfer),
                self.has_lane(PassDomain::Graphics) || ((forall|j: int|
                    0 <= j < ps.len() ==> (#[trigger] ps[j]).domain != PassDomain::Graphics)
                    && *present_sync is None),
                resources_len == graph.resource_list().len(),
                k <= order.barriers@.len(),
                forall|j: int| 0 <= j < k ==> (#[trigger] order.barriers@[j]).resource < resources_len,
            decreases order.barriers@.len() - k,
        {
            if order.barriers[k].resource as usize >= resources_len {
                return false;
            }
            k = k + 1;
        }
        true
    }
}

} // verus!
