//! The decisions the executor makes for each pass, as plain values: which
//! lanes a graph needs, which barriers a pass acquires and releases, which
//! timeline values it waits for, and how it joins the present semaphores.
use vstd::prelude::*;

use crate::barrier::{resolve_barrier, resolved, BarrierDesc};
use crate::domain::{
    Access, GraphError, ImageLayout, PassDomain, PassId, ResourceDecl, ResourceHandle, ResourceId,
    Stage,
};
use crate::frame::{BarrierEdge, CompiledPass};
use crate::types::{access_bits, stage_bits, AccessFlags2, Extent3D, ImageAspect, PipelineStageFlags2};

verus! {

/// Queue family of each domain's lane.
#[derive(Debug, Clone, Copy)]
pub struct DomainFamilies {
    pub graphics: u32,
    pub compute: u32,
    pub transfer: u32,
}

pub open spec fn family_of(f: DomainFamilies, d: PassDomain) -> u32 {
    match d {
        PassDomain::Graphics => f.graphics,
        PassDomain::Compute => f.compute,
        PassDomain::Transfer => f.transfer,
    }
}

impl DomainFamilies {
    pub fn family_for(&self, d: PassDomain) -> (r: u32)
        ensures
            r == family_of(*self, d),
    {
        match d {
            PassDomain::Graphics => self.graphics,
            PassDomain::Compute => self.compute,
            PassDomain::Transfer => self.transfer,
        }
    }
}

/// Raw timeline semaphore handle of each domain's lane.
#[derive(Debug, Clone, Copy)]
pub struct DomainSemaphores {
    pub graphics: u64,
    pub compute: u64,
    pub transfer: u64,
}

pub open spec fn semaphore_of(s: DomainSemaphores, d: PassDomain) -> u64 {
    match d {
        PassDomain::Graphics => s.graphics,
        PassDomain::Compute => s.compute,
        PassDomain::Transfer => s.transfer,
    }
}

impl DomainSemaphores {
    pub fn timeline_handle_for(&self, d: PassDomain) -> (r: u64)
        ensures
            r == semaphore_of(*self, d),
    {
        match d {
            PassDomain::Graphics => self.graphics,
            PassDomain::Compute => self.compute,
            PassDomain::Transfer => self.transfer,
        }
    }
}

/// An image memory barrier on a raw image handle.
#[derive(Debug, Clone, Copy)]
pub struct ImageBarrierInfo {
    pub image: u64,
    pub old_layout: ImageLayout,
    pub new_layout: ImageLayout,
    pub src_stage: Stage,
    pub src_access: Access,
    pub dst_stage: Stage,
    pub dst_access: Access,
    pub aspect: ImageAspect,
    pub src_queue_family: u32,
    pub dst_queue_family: u32,
}

/// A buffer memory barrier on a raw buffer handle, in synchronization-2 bits.
#[derive(Debug, Clone, Copy)]
pub struct BufferBarrierInfo2 {
    pub buffer: u64,
    pub src_stage: PipelineStageFlags2,
    pub src_access: AccessFlags2,
    pub dst_stage: PipelineStageFlags2,
    pub dst_access: AccessFlags2,
    pub src_queue_family: u32,
    pub dst_queue_family: u32,
}

/// A semaphore wait or signal of a submission.
#[derive(Debug, Clone, Copy)]
pub struct SemaphoreSubmit {
    pub semaphore: u64,
    pub value: u64,
    pub stage: Stage,
}

/// The binary semaphores that tie a frame to swapchain presentation.
#[derive(Debug, Clone, Copy)]
pub struct PresentSync {
    pub wait_acquire: u64,
    pub signal_render_finished: u64,
}

pub open spec fn image_barrier_of(desc: BarrierDesc, image: u64) -> ImageBarrierInfo {
    ImageBarrierInfo {
        image,
        old_layout: desc.src_usage@.2,
        new_layout: desc.dst_usage@.2,
        src_stage: desc.src_usage@.0,
        src_access: desc.src_usage@.1,
        dst_stage: desc.dst_usage@.0,
        dst_access: desc.dst_usage@.1,
        aspect: ImageAspect::Color,
        src_queue_family: desc.src_queue_family,
        dst_queue_family: desc.dst_queue_family,
    }
}

pub open spec fn buffer_barrier_of(desc: BarrierDesc, buffer: u64) -> BufferBarrierInfo2 {
    BufferBarrierInfo2 {
        buffer,
        src_stage: PipelineStageFlags2(stage_bits(desc.src_usage@.0)),
        src_access: AccessFlags2(access_bits(desc.src_usage@.1)),
        dst_stage: PipelineStageFlags2(stage_bits(desc.dst_usage@.0)),
        dst_access: AccessFlags2(access_bits(desc.dst_usage@.1)),
        src_queue_family: desc.src_queue_family,
        dst_queue_family: desc.dst_queue_family,
    }
}

fn build_image_barrier(desc: &BarrierDesc, image: u64) -> (r: ImageBarrierInfo)
    ensures
        r == image_barrier_of(*desc, image),
{
    ImageBarrierInfo {
        image,
        old_layout: desc.src_usage.layout(),
        new_layout: desc.dst_usage.layout(),
        src_stage: desc.src_usage.stage(),
        src_access: desc.src_usage.access(),
        dst_stage: desc.dst_usage.stage(),
        dst_access: desc.dst_usage.access(),
        aspect: ImageAspect::Color,
        src_queue_family: desc.src_queue_family,
        dst_queue_family: desc.dst_queue_family,
    }
}

fn build_buffer_barrier(desc: &BarrierDesc, buffer: u64) -> (r: BufferBarrierInfo2)
    ensures
        r == buffer_barrier_of(*desc, buffer),
{
    BufferBarrierInfo2 {
        buffer,
        src_stage: PipelineStageFlags2::from(desc.src_usage.stage()),
        src_access: AccessFlags2::from(desc.src_usage.access()),
        dst_stage: PipelineStageFlags2::from(desc.dst_usage.stage()),
        dst_access: AccessFlags2::from(desc.dst_usage.access()),
        src_queue_family: desc.src_queue_family,
        dst_queue_family: desc.dst_queue_family,
    }
}

/// Which half of a queue ownership transfer a pass records.
#[derive(Debug, Clone, Copy, PartialEq, Eq, Structural)]
pub enum BarrierSide {
    /// Barriers into the pass, recorded before its commands.
    Acquire,
    /// Cross-queue barriers out of the pass, recorded after its commands.
    Release,
}

/// `b` with its families resolved through `fam`.
pub open spec fn desc_for(b: BarrierEdge, fam: DomainFamilies) -> BarrierDesc {
    resolved(b, family_of(fam, b.src_domain), family_of(fam, b.dst_domain))
}

pub open spec fn crosses(b: BarrierEdge, fam: DomainFamilies) -> bool {
    desc_for(b, fam).src_queue_family != desc_for(b, fam).dst_queue_family
}

/// Whether pass `pass_id` records barrier `b` on `side`: every barrier into
/// it on acquire; only the cross-queue barriers out of it on release.
pub open spec fn selects(side: BarrierSide, b: BarrierEdge, pass_id: PassId, fam: DomainFamilies) -> bool {
    match side {
        BarrierSide::Acquire => b.to_pass == pass_id,
        BarrierSide::Release => b.from_pass == pass_id && crosses(b, fam),
    }
}

/// The image barrier recorded on `side`: the half of a cross-queue transfer
/// drops the stage and access of the queue that does not run it.
pub open spec fn image_barrier_on(side: BarrierSide, d: BarrierDesc, raw: u64) -> ImageBarrierInfo {
    let base = image_barrier_of(d, raw);
    let cross = d.src_queue_family != d.dst_queue_family;
    match side {
        BarrierSide::Acquire => if cross {
            ImageBarrierInfo { src_stage: Stage::NoStage, src_access: Access::NoAccess, ..base }
        } else {
            base
        },
        BarrierSide::Release => ImageBarrierInfo { dst_stage: Stage::NoStage, dst_access: Access::NoAccess, ..base },
    }
}

pub open spec fn buffer_barrier_on(side: BarrierSide, d: BarrierDesc, raw: u64) -> BufferBarrierInfo2 {
    let base = buffer_barrier_of(d, raw);
    let cross = d.src_queue_family != d.dst_queue_family;
    match side {
        BarrierSide::Acquire => if cross {
            BufferBarrierInfo2 { src_stage: PipelineStageFlags2(0), src_access: AccessFlags2(0), ..base }
        } else {
            base
        },
        BarrierSide::Release => BufferBarrierInfo2 { dst_stage: PipelineStageFlags2(0), dst_access: AccessFlags2(0), ..base },
    }
}

/// Resource ids are their indices, as a frame graph hands them out.
pub open spec fn resources_indexed(resources: Seq<ResourceDecl>) -> bool {
    forall|i: int| 0 <= i < resources.len() ==> (#[trigger] resources[i]).id == i
}

/// The barriers of `side` that pass `pass_id` records, split into image and
/// buffer barriers, in barrier order.
pub open spec fn collected(
    side: BarrierSide,
    bs: Seq<BarrierEdge>,
    pass_id: PassId,
    resources: Seq<ResourceDecl>,
    fam: DomainFamilies,
) -> (Seq<ImageBarrierInfo>, Seq<BufferBarrierInfo2>)
    decreases bs.len(),
{
    if bs.len() == 0 {
        (Seq::empty(), Seq::empty())
    } else {
        let prev = collected(side, bs.drop_last(), pass_id, resources, fam);
        let b = bs.last();
        if !selects(side, b, pass_id, fam) {
            prev
        } else {
            let d = desc_for(b, fam);
            match resources[b.resource as int].handle {
                ResourceHandle::Image { raw, .. } => (prev.0.push(image_barrier_on(side, d, raw)), prev.1),
                ResourceHandle::Buffer { raw, .. } => (prev.0, prev.1.push(buffer_barrier_on(side, d, raw))),
            }
        }
    }
}

fn find_resource(resources: &Vec<ResourceDecl>, id: ResourceId) -> (i: usize)
    requires
        resources_indexed(resources@),
        id < resources@.len(),
    ensures
        i == id,
{
    let mut k: usize = 0;
    while k < resources.len()
        invariant
            resources_indexed(resources@),
            id < resources@.len(),
            k <= id,
        decreases resources@.len() - k,
    {
        if resources[k].id == id {
            return k;
        }
        k = k + 1;
    }
    id as usize
}

/// The barriers that pass `pass_id` records on `side`.
pub fn collect_barriers(
    side: BarrierSide,
    barriers: &Vec<BarrierEdge>,
    pass_id: PassId,
    resources: &Vec<ResourceDecl>,
    families: &DomainFamilies,
) -> (r: (Vec<ImageBarrierInfo>, Vec<BufferBarrierInfo2>))
    requires
        resources_indexed(resources@),
        forall|k: int| 0 <= k < barriers@.len() ==> (#[trigger] barriers@[k]).resource < resources@.len(),
    ensures
        (r.0@, r.1@) == collected(side, barriers@, pass_id, resources@, *families),
{
    let mut imgs: Vec<ImageBarrierInfo> = Vec::new();
    let mut bufs: Vec<BufferBarrierInfo2> = Vec::new();
    let mut k: usize = 0;
    while k < barriers.len()
        invariant
            k <= barriers@.len(),
            resources_indexed(resources@),
            forall|j: int| 0 <= j < barriers@.len() ==> (#[trigger] barriers@[j]).resource < resources@.len(),
            (imgs@, bufs@) == collected(side, barriers@.take(k as int), pass_id, resources@, *families),
        decreases barriers@.len() - k,
    {
        let b = &barriers[k];
        proof {
            assert(barriers@.take(k + 1).drop_last() == barriers@.take(k as int));
            assert(barriers@.take(k + 1).last() == barriers@[k as int]);
        }
        let wanted = match side {
            BarrierSide::Acquire => b.to_pass == pass_id,
            BarrierSide::Release => b.from_pass == pass_id,
        };
        if wanted {
            let fam = *families;
            let family = |d: PassDomain| -> (f: u32) ensures f == family_of(fam, d), { fam.family_for(d) };
            let resolved = resolve_barrier(b, family);
            assert(resolved == desc_for(*b, *families));
            let is_cross = resolved.src_queue_family != resolved.dst_queue_family;
            if side == BarrierSide::Release && !is_cross {
                k = k + 1;
                continue;
            }
            let i = find_resource(resources, resolved.resource);
            match resources[i].handle {
                ResourceHandle::Image { raw, .. } => {
                    let mut bar = build_image_barrier(&resolved, raw);
                    match side {
                        BarrierSide::Acquire => {
                            if is_cross {
                                bar.src_stage = Stage::NoStage;
                                bar.src_access = Access::NoAccess;
                            }
                        },
                        BarrierSide::Release => {
                            bar.dst_stage = Stage::NoStage;
                            bar.dst_access = Access::NoAccess;
                        },
                    }
                    imgs.push(bar);
                },
                ResourceHandle::Buffer { raw, .. } => {
                    let mut bar = build_buffer_barrier(&resolved, raw);
                    match side {
                        BarrierSide::Acquire => {
                            if is_cross {
                                bar.src_stage = PipelineStageFlags2::from(Stage::NoStage);
                                bar.src_access = AccessFlags2::from(Access::NoAccess);
                            }
                        },
                        BarrierSide::Release => {
                            bar.dst_stage = PipelineStageFlags2::from(Stage::NoStage);
                            bar.dst_access = AccessFlags2::from(Access::NoAccess);
                        },
                    }
                    bufs.push(bar);
                },
            }
        }
        k = k + 1;
    }
    proof {
        assert(barriers@.take(barriers@.len() as int) == barriers@);
    }
    (imgs, bufs)
}

/// The binary semaphore waits and signals of a graphics pass: the first
/// graphics pass waits for the swapchain image, the last one signals that
/// rendering finished.
pub fn present_sync_submits(sync: &Option<PresentSync>, is_first: bool, is_last: bool) -> (r: (
    Vec<SemaphoreSubmit>,
    Vec<SemaphoreSubmit>,
))
    ensures
        r.0@ == (match *sync {
            Some(ps) => if is_first {
                seq![SemaphoreSubmit { semaphore: ps.wait_acquire, value: 0, stage: Stage::ColorOutput }]
            } else {
                Seq::empty()
            },
            None => Seq::empty(),
        }),
        r.1@ == (match *sync {
            Some(ps) => if is_last {
                seq![SemaphoreSubmit { semaphore: ps.signal_render_finished, value: 0, stage: Stage::All }]
            } else {
                Seq::empty()
            },
            None => Seq::empty(),
        }),
{
    let mut waits: Vec<SemaphoreSubmit> = Vec::new();
    let mut signals: Vec<SemaphoreSubmit> = Vec::new();
    if let Some(ps) = sync {
        if is_first {
            waits.push(SemaphoreSubmit { semaphore: ps.wait_acquire, value: 0, stage: Stage::ColorOutput });
        }
        if is_last {
            signals.push(SemaphoreSubmit { semaphore: ps.signal_render_finished, value: 0, stage: Stage::All });
        }
    }
    proof {
        assert(waits@ =~= (match *sync {
            Some(ps) => if is_first {
                seq![SemaphoreSubmit { semaphore: ps.wait_acquire, value: 0, stage: Stage::ColorOutput }]
            } else {
                Seq::empty()
            },
            None => Seq::empty(),
        }));
        assert(signals@ =~= (match *sync {
            Some(ps) => if is_last {
                seq![SemaphoreSubmit { semaphore: ps.signal_render_finished, value: 0, stage: Stage::All }]
            } else {
                Seq::empty()
            },
            None => Seq::empty(),
        }));
    }
    (waits, signals)
}

/// The stage kept when two waits on one semaphore merge: the later one.
pub fn merge_stage(a: Stage, b: Stage) -> (r: Stage)
    ensures
        r == (if a == b { a } else { b }),
        r == b,
{
    if a == b {
        a
    } else {
        b
    }
}

/// The backend buffer and base offset of buffer resource `id`.
pub fn resolve_buffer(resources: &Vec<ResourceDecl>, id: ResourceId) -> (r: (u64, u64))
    requires
        resources_indexed(resources@),
        id < resources@.len(),
        resources@[id as int].handle is Buffer,
    ensures
        resources@[id as int].handle matches ResourceHandle::Buffer { raw, offset, .. } && r == (raw, offset),
{
    let i = find_resource(resources, id);
    match resources[i].handle {
        ResourceHandle::Buffer { raw, offset, .. } => (raw, offset),
        ResourceHandle::Image { .. } => (0, 0),
    }
}

/// The backend image and extent of image resource `id`.
pub fn resolve_image(resources: &Vec<ResourceDecl>, id: ResourceId) -> (r: (u64, Extent3D))
    requires
        resources_indexed(resources@),
        id < resources@.len(),
        resources@[id as int].handle is Image,
    ensures
        resources@[id as int].handle matches ResourceHandle::Image { raw, extent } && r == (raw, extent),
{
    let i = find_resource(resources, id);
    match resources[i].handle {
        ResourceHandle::Image { raw, extent } => (raw, extent),
        ResourceHandle::Buffer { .. } => (0, Extent3D::new(0, 0, 0)),
    }
}

/// A lane runs the domain: graphics always has one; compute and transfer
/// only when attached.
pub open spec fn lane_available(d: PassDomain, has_compute: bool, has_transfer: bool) -> bool {
    match d {
        PassDomain::Graphics => true,
        PassDomain::Compute => has_compute,
        PassDomain::Transfer => has_transfer,
    }
}

/// Fails with the domain of the first pass that has no lane.
pub fn check_lanes(passes: &Vec<CompiledPass>, has_compute: bool, has_transfer: bool) -> (r: Result<(), GraphError>)
    ensures
        r is Ok <==> forall|i: int| 0 <= i < passes@.len() ==> lane_available((#[trigger] passes@[i]).domain, has_compute, has_transfer),
        r matches Err(e) ==> exists|i: int|
            0 <= i < passes@.len() && !lane_available(passes@[i].domain, has_compute, has_transfer)
                && (forall|j: int| 0 <= j < i ==> lane_available((#[trigger] passes@[j]).domain, has_compute, has_transfer))
                && e == GraphError::MissingLane(passes@[i].domain),
{
    let mut i: usize = 0;
    while i < passes.len()
        invariant
            i <= passes@.len(),
            forall|j: int| 0 <= j < i ==> lane_available((#[trigger] passes@[j]).domain, has_compute, has_transfer),
        decreases passes@.len() - i,
    {
        let d = passes[i].domain;
        let missing = match d {
            PassDomain::Compute => !has_compute,
            PassDomain::Transfer => !has_transfer,
            PassDomain::Graphics => false,
        };
        if missing {
            return Err(GraphError::MissingLane(d));
        }
        i = i + 1;
    }
    Ok(())
}

/// The stage at which a pass's lane waits: the domain's working stage when it
/// records commands, the bottom of the pipe when it records none.
pub open spec fn wait_stage(domain: PassDomain, has_commands: bool) -> Stage {
    if has_commands {
        match domain {
            PassDomain::Graphics => Stage::ColorOutput,
            PassDomain::Compute => Stage::Compute,
            PassDomain::Transfer => Stage::Transfer,
        }
    } else {
        Stage::Bottom
    }
}

pub fn pass_wait_stage(pass: &CompiledPass) -> (r: Stage)
    ensures
        r == wait_stage(pass.domain, pass.commands@.len() > 0),
{
    if pass.commands.len() > 0 {
        match pass.domain {
            PassDomain::Graphics => Stage::ColorOutput,
            PassDomain::Compute => Stage::Compute,
            PassDomain::Transfer => Stage::Transfer,
        }
    } else {
        Stage::Bottom
    }
}

/// The domain of the first pass with id `id`, if any.
pub open spec fn domain_of(passes: Seq<CompiledPass>, id: PassId) -> Option<PassDomain>
    decreases passes.len(),
{
    if passes.len() == 0 {
        None
    } else if passes[0].id == id {
        Some(passes[0].domain)
    } else {
        domain_of(passes.drop_first(), id)
    }
}

pub open spec fn is_graphics(passes: Seq<CompiledPass>, id: PassId) -> bool {
    domain_of(passes, id) == Some(PassDomain::Graphics)
}

fn lookup_domain(passes: &Vec<CompiledPass>, id: PassId) -> (r: Option<PassDomain>)
    ensures
        r == domain_of(passes@, id),
{
    let mut k: usize = 0;
    assert(passes@.skip(0) == passes@);
    while k < passes.len()
        invariant
            k <= passes@.len(),
            domain_of(passes@, id) == domain_of(passes@.skip(k as int), id),
        decreases passes@.len() - k,
    {
        proof {
            assert(passes@.skip(k as int).drop_first() == passes@.skip(k + 1));
        }
        if passes[k].id == id {
            return Some(passes[k].domain);
        }
        k = k + 1;
    }
    None
}

/// The first id of `order` whose pass runs on the graphics domain.
pub open spec fn first_graphics_in(order: Seq<PassId>, passes: Seq<CompiledPass>) -> Option<PassId>
    decreases order.len(),
{
    if order.len() == 0 {
        None
    } else if is_graphics(passes, order[0]) {
        Some(order[0])
    } else {
        first_graphics_in(order.drop_first(), passes)
    }
}

/// The last id of `order` whose pass runs on the graphics domain.
pub open spec fn last_graphics_in(order: Seq<PassId>, passes: Seq<CompiledPass>) -> Option<PassId>
    decreases order.len(),
{
    if order.len() == 0 {
        None
    } else if is_graphics(passes, order.last()) {
        Some(order.last())
    } else {
        last_graphics_in(order.drop_last(), passes)
    }
}

/// The first pass of `order` that runs on the graphics domain.
pub fn first_graphics_pass(order: &Vec<PassId>, passes: &Vec<CompiledPass>) -> (r: Option<PassId>)
    ensures
        r == first_graphics_in(order@, passes@),
        r matches Some(p) ==> exists|i: int|
            0 <= i < order@.len() && order@[i] == p && is_graphics(passes@, p)
                && forall|j: int| 0 <= j < i ==> !is_graphics(passes@, #[trigger] order@[j]),
        r is None ==> forall|j: int| 0 <= j < order@.len() ==> !is_graphics(passes@, #[trigger] order@[j]),
{
    let mut k: usize = 0;
    assert(order@.skip(0) == order@);
    while k < order.len()
        invariant
            k <= order@.len(),
            forall|j: int| 0 <= j < k ==> !is_graphics(passes@, #[trigger] order@[j]),
            first_graphics_in(order@, passes@) == first_graphics_in(order@.skip(k as int), passes@),
        decreases order@.len() - k,
    {
        proof {
            assert(order@.skip(k as int).drop_first() == order@.skip(k + 1));
        }
        let d = lookup_domain(passes, order[k]);
        if d == Some(PassDomain::Graphics) {
            return Some(order[k]);
        }
        k = k + 1;
    }
    None
}

/// The last pass of `order` that runs on the graphics domain.
pub fn last_graphics_pass(order: &Vec<PassId>, passes: &Vec<CompiledPass>) -> (r: Option<PassId>)
    ensures
        r == last_graphics_in(order@, passes@),
        r matches Some(p) ==> exists|i: int|
            0 <= i < order@.len() && order@[i] == p && is_graphics(passes@, p)
                && forall|j: int| i < j < order@.len() ==> !is_graphics(passes@, #[trigger] order@[j]),
        r is None ==> forall|j: int| 0 <= j < order@.len() ==> !is_graphics(passes@, #[trigger] order@[j]),
{
    let mut k: usize = order.len();
    assert(order@.take(order@.len() as int) == order@);
    while k > 0
        invariant
            k <= order@.len(),
            forall|j: int| k <= j < order@.len() ==> !is_graphics(passes@, #[trigger] order@[j]),
            last_graphics_in(order@, passes@) == last_graphics_in(order@.take(k as int), passes@),
        decreases k,
    {
        proof {
            assert(order@.take(k as int).drop_last() == order@.take(k - 1));
        }
        let d = lookup_domain(passes, order[k - 1]);
        if d == Some(PassDomain::Graphics) {
            return Some(order[k - 1]);
        }
        k = k - 1;
    }
    None
}

/// A timeline wait: semaphore, value, stage.
pub type TimelineWait = (u64, u64, Stage);

/// The signal that pass `p` recorded first, if any: its value and domain.
pub open spec fn signal_of(sig: Seq<(PassId, u64, PassDomain)>, p: PassId) -> Option<(u64, PassDomain)>
    decreases sig.len(),
{
    if sig.len() == 0 {
        None
    } else if sig[0].0 == p {
        Some((sig[0].1, sig[0].2))
    } else {
        signal_of(sig.drop_first(), p)
    }
}

/// `i` is the first wait on `sem`.
pub open spec fn first_wait_on(ws: Seq<TimelineWait>, sem: u64, i: int) -> bool {
    0 <= i < ws.len() && ws[i].0 == sem && forall|j: int| 0 <= j < i ==> (#[trigger] ws[j]).0 != sem
}

/// Adds a wait for `val` on `sem` at `stage`: an existing wait on the same
/// semaphore takes the larger value and the new stage; otherwise the wait is
/// appended.
pub open spec fn add_wait(ws: Seq<TimelineWait>, sem: u64, val: u64, stage: Stage) -> Seq<TimelineWait> {
    if exists|i: int| first_wait_on(ws, sem, i) {
        let i = choose|i: int| first_wait_on(ws, sem, i);
        ws.update(i, (sem, if ws[i].1 >= val { ws[i].1 } else { val }, stage))
    } else {
        ws.push((sem, val, stage))
    }
}

/// The waits of pass `pass_id` on `domain` after barriers `bs`: each barrier
/// into it from a pass that already signalled on another domain adds a wait
/// on that domain's timeline.
pub open spec fn waits_after(
    ws: Seq<TimelineWait>,
    bs: Seq<BarrierEdge>,
    pass_id: PassId,
    domain: PassDomain,
    sig: Seq<(PassId, u64, PassDomain)>,
    sems: DomainSemaphores,
) -> Seq<TimelineWait>
    decreases bs.len(),
{
    if bs.len() == 0 {
        ws
    } else {
        let w = waits_after(ws, bs.drop_last(), pass_id, domain, sig, sems);
        let b = bs.last();
        if b.to_pass == pass_id {
            match signal_of(sig, b.from_pass) {
                Some((v, d)) => if d != domain {
                    add_wait(w, semaphore_of(sems, d), v, b.dst_usage@.0)
                } else {
                    w
                },
                None => w,
            }
        } else {
            w
        }
    }
}

/// The wait on the pass's own lane: its last signalled value, if any.
pub open spec fn lane_waits(lane_sem: u64, lane_prev: u64, stage: Stage) -> Seq<TimelineWait> {
    if lane_prev > 0 {
        seq![(lane_sem, lane_prev, stage)]
    } else {
        Seq::empty()
    }
}

fn find_signal(sig: &Vec<(PassId, u64, PassDomain)>, p: PassId) -> (r: Option<(u64, PassDomain)>)
    ensures
        r == signal_of(sig@, p),
{
    let mut k: usize = 0;
    assert(sig@.skip(0) == sig@);
    while k < sig.len()
        invariant
            k <= sig@.len(),
            signal_of(sig@, p) == signal_of(sig@.skip(k as int), p),
        decreases sig@.len() - k,
    {
        proof {
            assert(sig@.skip(k as int).drop_first() == sig@.skip(k + 1));
        }
        if sig[k].0 == p {
            return Some((sig[k].1, sig[k].2));
        }
        k = k + 1;
    }
    None
}

fn add_wait_exec(waits: &mut Vec<TimelineWait>, sem: u64, val: u64, stage: Stage)
    ensures
        final(waits)@ == add_wait(old(waits)@, sem, val, stage),
{
    let mut k: usize = 0;
    while k < waits.len()
        invariant
            k <= waits@.len(),
            waits@ == old(waits)@,
            forall|j: int| 0 <= j < k ==> (#[trigger] waits@[j]).0 != sem,
        decreases waits@.len() - k,
    {
        if waits[k].0 == sem {
            proof {
                assert(first_wait_on(waits@, sem, k as int));
                let c = choose|i: int| first_wait_on(waits@, sem, i);
                assert(c == k);
            }
            let old_val = waits[k].1;
            let v = if old_val >= val { old_val } else { val };
            let st = merge_stage(waits[k].2, stage);
            waits.set(k, (sem, v, st));
            return;
        }
        k = k + 1;
    }
    waits.push((sem, val, stage));
}

/// The timeline waits of pass `pass_id`: its own lane's last value, then one
/// wait per other domain that signalled a pass it depends on, at the largest
/// such value.
pub fn plan_waits(
    pass_id: PassId,
    domain: PassDomain,
    lane_sem: u64,
    lane_prev: u64,
    stage: Stage,
    barriers: &Vec<BarrierEdge>,
    pass_signals: &Vec<(PassId, u64, PassDomain)>,
    sems: &DomainSemaphores,
) -> (r: Vec<TimelineWait>)
    ensures
        r@ == waits_after(lane_waits(lane_sem, lane_prev, stage), barriers@, pass_id, domain, pass_signals@, *sems),
{
    let mut waits: Vec<TimelineWait> = Vec::new();
    if lane_prev > 0 {
        waits.push((lane_sem, lane_prev, stage));
    }
    proof {
        assert(waits@ =~= lane_waits(lane_sem, lane_prev, stage));
    }
    let ghost init = waits@;
    let mut k: usize = 0;
    while k < barriers.len()
        invariant
            k <= barriers@.len(),
            waits@ == waits_after(init, barriers@.take(k as int), pass_id, domain, pass_signals@, *sems),
        decreases barriers@.len() - k,
    {
        proof {
            assert(barriers@.take(k + 1).drop_last() == barriers@.take(k as int));
            assert(barriers@.take(k + 1).last() == barriers@[k as int]);
        }
        let b = &barriers[k];
        if b.to_pass == pass_id {
            if let Some((src_val, src_domain)) = find_signal(pass_signals, b.from_pass) {
                if src_domain != domain {
                    let src_sem = sems.timeline_handle_for(src_domain);
                    let st = b.dst_usage.stage();
                    add_wait_exec(&mut waits, src_sem, src_val, st);
                }
            }
        }
        k = k + 1;
    }
    proof {
        assert(barriers@.take(barriers@.len() as int) == barriers@);
    }
    waits
}

/// Everything the executor decides for one pass before recording it.
pub struct PassPlan {
    pub pass_id: PassId,
    pub domain: PassDomain,
    /// The pass is the first graphics pass: it takes the swapchain image and clears it.
    pub is_first_graphics: bool,
    /// The pass is the last graphics pass: it hands the swapchain image to presentation.
    pub is_last_graphics: bool,
    pub waits: Vec<TimelineWait>,
    pub acquire_images: Vec<ImageBarrierInfo>,
    pub acquire_buffers: Vec<BufferBarrierInfo2>,
    pub release_images: Vec<ImageBarrierInfo>,
    pub release_buffers: Vec<BufferBarrierInfo2>,
    pub binary_waits: Vec<SemaphoreSubmit>,
    pub binary_signals: Vec<SemaphoreSubmit>,
}

/// The binary semaphores a pass waits on: the acquire semaphore, for the
/// first graphics pass.
pub open spec fn binary_waits_of(domain: PassDomain, is_first: bool, present: Option<PresentSync>) -> Seq<SemaphoreSubmit> {
    match present {
        Some(ps) => if domain == PassDomain::Graphics && is_first {
            seq![SemaphoreSubmit { semaphore: ps.wait_acquire, value: 0, stage: Stage::ColorOutput }]
        } else {
            Seq::empty()
        },
        None => Seq::empty(),
    }
}

/// The binary semaphores a pass signals: the render-finished semaphore, for
/// the last graphics pass.
pub open spec fn binary_signals_of(domain: PassDomain, is_last: bool, present: Option<PresentSync>) -> Seq<SemaphoreSubmit> {
    match present {
        Some(ps) => if domain == PassDomain::Graphics && is_last {
            seq![SemaphoreSubmit { semaphore: ps.signal_render_finished, value: 0, stage: Stage::All }]
        } else {
            Seq::empty()
        },
        None => Seq::empty(),
    }
}

/// `p` is the plan of `pass`: its own lane's wait and one wait per other
/// domain it depends on, its acquire and release barriers, and the present
/// semaphores when it is the first or last graphics pass.
pub open spec fn pass_planned(
    p: PassPlan,
    pass: CompiledPass,
    first_gfx: Option<PassId>,
    last_gfx: Option<PassId>,
    lane_sem: u64,
    lane_prev: u64,
    barriers: Seq<BarrierEdge>,
    resources: Seq<ResourceDecl>,
    families: DomainFamilies,
    sems: DomainSemaphores,
    pass_signals: Seq<(PassId, u64, PassDomain)>,
    present_sync: Option<PresentSync>,
) -> bool {
    &&& p.pass_id == pass.id
    &&& p.domain == pass.domain
    &&& p.is_first_graphics == (first_gfx == Some(pass.id))
    &&& p.is_last_graphics == (last_gfx == Some(pass.id))
    &&& p.waits@ == waits_after(
        lane_waits(lane_sem, lane_prev, wait_stage(pass.domain, pass.commands@.len() > 0)),
        barriers,
        pass.id,
        pass.domain,
        pass_signals,
        sems,
    )
    &&& (p.acquire_images@, p.acquire_buffers@) == collected(BarrierSide::Acquire, barriers, pass.id, resources, families)
    &&& (p.release_images@, p.release_buffers@) == collected(BarrierSide::Release, barriers, pass.id, resources, families)
    &&& p.binary_waits@ == binary_waits_of(pass.domain, p.is_first_graphics, present_sync)
    &&& p.binary_signals@ == binary_signals_of(pass.domain, p.is_last_graphics, present_sync)
}

/// Plans pass `pass`, given the first and last graphics passes of the order,
/// its lane's timeline semaphore and last signalled value, the barriers and
/// resources of the graph, the family and timeline of each domain, the
/// signals of the passes already submitted, and the present semaphores.
pub fn plan_pass(
    pass: &CompiledPass,
    first_gfx: Option<PassId>,
    last_gfx: Option<PassId>,
    lane_sem: u64,
    lane_prev: u64,
    barriers: &Vec<BarrierEdge>,
    resources: &Vec<ResourceDecl>,
    families: &DomainFamilies,
    sems: &DomainSemaphores,
    pass_signals: &Vec<(PassId, u64, PassDomain)>,
    present_sync: &Option<PresentSync>,
) -> (p: PassPlan)
    requires
        resources_indexed(resources@),
        forall|k: int| 0 <= k < barriers@.len() ==> (#[trigger] barriers@[k]).resource < resources@.len(),
    ensures
        pass_planned(
            p,
            *pass,
            first_gfx,
            last_gfx,
            lane_sem,
            lane_prev,
            barriers@,
            resources@,
            *families,
            *sems,
            pass_signals@,
            *present_sync,
        ),
{
    let stage = pass_wait_stage(pass);
    let waits = plan_waits(pass.id, pass.domain, lane_sem, lane_prev, stage, barriers, pass_signals, sems);
    let (acquire_images, acquire_buffers) = collect_barriers(BarrierSide::Acquire, barriers, pass.id, resources, families);
    let (release_images, release_buffers) = collect_barriers(BarrierSide::Release, barriers, pass.id, resources, families);
    let is_first_graphics = first_gfx == Some(pass.id);
    let is_last_graphics = last_gfx == Some(pass.id);
    let (binary_waits, binary_signals) = if pass.domain == PassDomain::Graphics {
        present_sync_submits(present_sync, is_first_graphics, is_last_graphics)
    } else {
        (Vec::new(), Vec::new())
    };
    PassPlan {
        pass_id: pass.id,
        domain: pass.domain,
        is_first_graphics,
        is_last_graphics,
        waits,
        acquire_images,
        acquire_buffers,
        release_images,
        release_buffers,
        binary_waits,
        binary_signals,
    }
}


/// A pass that records commands waits on its lane's timeline at the stage
/// where its domain's work runs (color output for graphics, compute for
/// compute, transfer for transfer), never at the bottom of the pipe; only a
/// pass with nothing recorded waits at the bottom. With earlier work on the
/// lane, that wait is the one wait on the lane.
pub proof fn lemma_wait_at_work_stage(d: PassDomain, has_commands: bool, lane_sem: u64, lane_prev: u64)
    ensures
        has_commands ==> wait_stage(d, has_commands) != Stage::Bottom,
        !has_commands ==> wait_stage(d, has_commands) == Stage::Bottom,
        has_commands && d == PassDomain::Graphics ==> wait_stage(d, has_commands) == Stage::ColorOutput,
        has_commands && d == PassDomain::Compute ==> wait_stage(d, has_commands) == Stage::Compute,
        has_commands && d == PassDomain::Transfer ==> wait_stage(d, has_commands) == Stage::Transfer,
        lane_prev > 0 ==> lane_waits(lane_sem, lane_prev, wait_stage(d, has_commands)) == seq![
            (lane_sem, lane_prev, wait_stage(d, has_commands)),
        ],
{
}

} // verus!
