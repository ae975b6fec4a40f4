//! What a pass records into its command buffer: each pass command lowered to
//! one backend operation on raw handles, between the barriers, swapchain
//! transitions and rendering scope that its plan calls for.
use vstd::prelude::*;

use crate::command::PassCommand;
use crate::domain::{DescriptorSetId, PassDomain, ResourceDecl, ResourceHandle, ResourceId};
use crate::executor_plan::{resolve_buffer, resolve_image, resources_indexed, PassPlan};
use crate::frame::CompiledPass;
use crate::pipeline_config::PipelineId;
use crate::types::{Extent2D, Extent3D, IndexType, PipelineBindPoint, ShaderStages};

verus! {

/// A created pipeline and its layout, as raw handles.
#[derive(Debug, Clone, Copy)]
pub struct PipelineSlot {
    pub handle: u64,
    pub layout: u64,
}

/// The pipelines created for a renderer; a pipeline's id is its position.
pub struct PipelineManager {
    entries: Vec<PipelineSlot>,
}

impl PipelineManager {
    pub closed spec fn slots(&self) -> Seq<PipelineSlot> {
        self.entries@
    }

    pub fn new() -> (m: Self)
        ensures
            m.slots().len() == 0,
    {
        PipelineManager { entries: Vec::new() }
    }

    /// Adds a pipeline; its id is the number of pipelines before it.
    pub fn push(&mut self, slot: PipelineSlot) -> (id: PipelineId)
        ensures
            id.0 == old(self).slots().len() as u32,
            final(self).slots() == old(self).slots().push(slot),
    {
        let id = PipelineId(self.entries.len() as u32);
        self.entries.push(slot);
        id
    }

    pub fn handle(&self, id: PipelineId) -> (h: u64)
        requires
            id.0 < self.slots().len(),
        ensures
            h == self.slots()[id.0 as int].handle,
    {
        self.entries[id.0 as usize].handle
    }

    pub fn layout(&self, id: PipelineId) -> (l: u64)
        requires
            id.0 < self.slots().len(),
        ensures
            l == self.slots()[id.0 as int].layout,
    {
        self.entries[id.0 as usize].layout
    }

    pub fn len(&self) -> (n: usize)
        ensures
            n == self.slots().len(),
    {
        self.entries.len()
    }
}

/// One operation recorded into a command buffer.
#[derive(Debug, Clone, Copy, PartialEq, Eq, Structural)]
pub enum RecordOp {
    /// The plan's acquire image and buffer barriers.
    AcquireBarriers,
    /// The plan's release image and buffer barriers.
    ReleaseBarriers,
    /// The swapchain image moves to the color-attachment layout.
    SwapchainToColorAttachment,
    /// Rendering into the frame's color target starts, clearing it or
    /// loading its contents.
    BeginRendering { clear: bool },
    /// Rendering as the `desc`-th rendering description of the command
    /// buffer that holds this operation says.
    BeginRenderingWith { desc: usize },
    /// The viewport, as the bit patterns of its `f32` components.
    SetViewport { x_bits: u32, y_bits: u32, width_bits: u32, height_bits: u32 },
    /// A viewport that covers the whole target.
    SetFullViewport,
    SetScissor { offset_x: i32, offset_y: i32, width: u32, height: u32 },
    BindPipeline { bind_point: PipelineBindPoint, pipeline: u64 },
    Draw { vertex_count: u32 },
    DrawIndexed { index_count: u32, instance_count: u32, first_index: u32 },
    Dispatch { x: u32, y: u32, z: u32 },
    BindVertexBuffer { buffer: u64, offset: u64 },
    BindIndexBuffer { buffer: u64, offset: u64, index_type: IndexType },
    /// The set `set` bound at set number `first_set` of `layout`.
    BindDescriptorSet { bind_point: PipelineBindPoint, layout: u64, first_set: u32, set: u64 },
    /// The first `range_size` bytes of the data of the pass's command
    /// `command`, at `range_offset` of the push-constant range.
    PushConstants { layout: u64, stages: ShaderStages, range_offset: u32, range_size: u32, command: usize },
    /// The `list`-th image barrier list of the command buffer that holds
    /// this operation.
    ImageBarriers { list: usize },
    /// The `list`-th buffer barrier list of the command buffer that holds
    /// this operation.
    BufferBarriers { list: usize },
    /// The `data`-th byte string of the command buffer that holds this
    /// operation, at byte `offset` of the push-constant range.
    PushConstantData { layout: u64, stages: ShaderStages, offset: u32, data: usize },
    CopyBuffer { src: u64, dst: u64, src_offset: u64, dst_offset: u64, size: u64 },
    CopyBufferToImage { buffer: u64, offset: u64, image: u64, extent: Extent3D },
    EndRendering,
    /// The swapchain image moves to the present layout.
    ColorAttachmentToPresent,
}

/// The raw buffer and base offset of buffer resource `r`.
pub open spec fn buffer_of(resources: Seq<ResourceDecl>, r: ResourceId) -> (u64, u64) {
    match resources[r as int].handle {
        ResourceHandle::Buffer { raw, offset, .. } => (raw, offset),
        ResourceHandle::Image { .. } => (0, 0),
    }
}

/// The raw image and extent of image resource `r`.
pub open spec fn image_of(resources: Seq<ResourceDecl>, r: ResourceId) -> (u64, Extent3D) {
    match resources[r as int].handle {
        ResourceHandle::Image { raw, extent } => (raw, extent),
        ResourceHandle::Buffer { .. } => (0, arbitrary()),
    }
}

pub open spec fn is_buffer(resources: Seq<ResourceDecl>, r: ResourceId) -> bool {
    r < resources.len() && resources[r as int].handle is Buffer
}

pub open spec fn is_image(resources: Seq<ResourceDecl>, r: ResourceId) -> bool {
    r < resources.len() && resources[r as int].handle is Image
}

/// The pipeline bound before command `k`: the last one the commands before
/// it bind, else the pass's own.
pub open spec fn bound_pipeline(initial: Option<PipelineId>, cmds: Seq<PassCommand>, k: int) -> Option<PipelineId>
    decreases k,
{
    if k <= 0 {
        initial
    } else {
        match cmds[k - 1] {
            PassCommand::BindPipeline(id) => Some(id),
            _ => bound_pipeline(initial, cmds, k - 1),
        }
    }
}

/// The commands a domain's queue records: graphics everything but
/// dispatches; compute pipelines, sets, push constants and dispatches;
/// transfer buffer copies.
pub open spec fn allowed_in(domain: PassDomain, c: PassCommand) -> bool {
    match domain {
        PassDomain::Graphics => !(c is Dispatch),
        PassDomain::Compute => c is BindPipeline || c is Dispatch || c is BindDescriptorSet || c is PushConstants,
        PassDomain::Transfer => c is CopyBuffer,
    }
}

/// Command `c` can be recorded: its domain allows it, the pipelines, sets
/// and resources it names exist and have the right kind, a pipeline is bound
/// before it binds sets or pushes constants, its push data covers the range,
/// and its offsets fit.
pub open spec fn command_recordable(
    domain: PassDomain,
    c: PassCommand,
    bound: Option<PipelineId>,
    resources: Seq<ResourceDecl>,
    n_sets: nat,
    n_pipelines: nat,
) -> bool {
    &&& allowed_in(domain, c)
    &&& match c {
        PassCommand::BindPipeline(id) => id.0 < n_pipelines,
        PassCommand::BindVertexBuffer(r, off) => is_buffer(resources, r) && buffer_of(resources, r).1 + off
            <= u64::MAX,
        PassCommand::BindIndexBuffer(r, off) => is_buffer(resources, r) && buffer_of(resources, r).1 + off
            <= u64::MAX,
        PassCommand::BindDescriptorSet(s) => s.0 < n_sets && bound is Some,
        PassCommand::PushConstants { range, data } => bound is Some && range.size <= data@.len(),
        PassCommand::CopyBuffer { src, dst, dst_offset, .. } => is_buffer(resources, src) && is_buffer(resources, dst)
            && buffer_of(resources, dst).1 + dst_offset <= u64::MAX,
        PassCommand::CopyBufferToImage { src, dst } => is_buffer(resources, src) && is_image(resources, dst),
        _ => true,
    }
}

/// Every command of `pass` can be recorded, and its own pipeline exists.
pub open spec fn pass_recordable(pass: CompiledPass, resources: Seq<ResourceDecl>, n_sets: nat, n_pipelines: nat) -> bool {
    &&& (pass.domain != PassDomain::Transfer ==> (pass.pipeline matches Some(id) ==> id.0 < n_pipelines))
    &&& forall|k: int|
        0 <= k < pass.commands@.len() ==> command_recordable(
            pass.domain,
            #[trigger] pass.commands@[k],
            bound_pipeline(pass.pipeline, pass.commands@, k),
            resources,
            n_sets,
            n_pipelines,
        )
}

pub open spec fn bind_point_of(domain: PassDomain) -> int {
    if domain == PassDomain::Compute {
        1
    } else {
        0
    }
}

/// The operation that command `k`, `c`, records with pipeline `bound` bound.
pub open spec fn command_op(
    domain: PassDomain,
    c: PassCommand,
    k: int,
    bound: Option<PipelineId>,
    resources: Seq<ResourceDecl>,
    sets: Seq<u64>,
    slots: Seq<PipelineSlot>,
) -> RecordOp {
    let bp = PipelineBindPoint::spec_raw(bind_point_of(domain) as i32);
    let layout = slots[bound.unwrap().0 as int].layout;
    match c {
        PassCommand::BindPipeline(id) => RecordOp::BindPipeline { bind_point: bp, pipeline: slots[id.0 as int].handle },
        PassCommand::Draw { vertex_count } => RecordOp::Draw { vertex_count },
        PassCommand::DrawIndexed { index_count, instance_count, first_index } => RecordOp::DrawIndexed {
            index_count,
            instance_count,
            first_index,
        },
        PassCommand::Dispatch { x, y, z } => RecordOp::Dispatch { x, y, z },
        PassCommand::BindVertexBuffer(r, off) => RecordOp::BindVertexBuffer {
            buffer: buffer_of(resources, r).0,
            offset: (buffer_of(resources, r).1 + off) as u64,
        },
        PassCommand::BindIndexBuffer(r, off) => RecordOp::BindIndexBuffer {
            buffer: buffer_of(resources, r).0,
            offset: (buffer_of(resources, r).1 + off) as u64,
            index_type: IndexType::spec_raw(1),
        },
        PassCommand::BindDescriptorSet(s) => RecordOp::BindDescriptorSet { bind_point: bp, layout, first_set: 0, set: sets[s.0 as int] },
        PassCommand::PushConstants { range, .. } => RecordOp::PushConstants {
            layout,
            stages: range.stages,
            range_offset: range.offset,
            range_size: range.size,
            command: k as usize,
        },
        PassCommand::CopyBuffer { src, dst, size, dst_offset } => RecordOp::CopyBuffer {
            src: buffer_of(resources, src).0,
            dst: buffer_of(resources, dst).0,
            src_offset: buffer_of(resources, src).1,
            dst_offset: (buffer_of(resources, dst).1 + dst_offset) as u64,
            size,
        },
        PassCommand::CopyBufferToImage { src, dst } => RecordOp::CopyBufferToImage {
            buffer: buffer_of(resources, src).0,
            offset: buffer_of(resources, src).1,
            image: image_of(resources, dst).0,
            extent: image_of(resources, dst).1,
        },
    }
}

/// The operations of the pass's commands, one per command.
pub open spec fn commands_ops(
    pass: CompiledPass,
    resources: Seq<ResourceDecl>,
    sets: Seq<u64>,
    slots: Seq<PipelineSlot>,
    n: int,
) -> Seq<RecordOp> {
    Seq::new(
        n as nat,
        |k: int|
            command_op(
                pass.domain,
                pass.commands@[k],
                k,
                bound_pipeline(pass.pipeline, pass.commands@, k),
                resources,
                sets,
                slots,
            ),
    )
}

pub open spec fn when(b: bool, op: RecordOp) -> Seq<RecordOp> {
    if b {
        seq![op]
    } else {
        Seq::empty()
    }
}

/// What pass `pass` records before its commands.
pub open spec fn prologue(pass: CompiledPass, plan: PassPlan, target: (u32, u32), slots: Seq<PipelineSlot>) -> Seq<RecordOp> {
    let acquire = when(plan.acquire_images@.len() > 0 || plan.acquire_buffers@.len() > 0, RecordOp::AcquireBarriers);
    let bp = PipelineBindPoint::spec_raw(bind_point_of(pass.domain) as i32);
    let bind = match pass.pipeline {
        Some(id) => seq![RecordOp::BindPipeline { bind_point: bp, pipeline: slots[id.0 as int].handle }],
        None => Seq::empty(),
    };
    match pass.domain {
        PassDomain::Graphics => acquire + when(plan.is_first_graphics, RecordOp::SwapchainToColorAttachment) + seq![
            RecordOp::BeginRendering { clear: plan.is_first_graphics },
            match pass.viewport {
                Some((x, y, w, h)) => RecordOp::SetViewport { x_bits: x, y_bits: y, width_bits: w, height_bits: h },
                None => RecordOp::SetFullViewport,
            },
            match pass.scissor {
                Some((x, y, w, h)) => RecordOp::SetScissor { offset_x: x, offset_y: y, width: w, height: h },
                None => RecordOp::SetScissor { offset_x: 0, offset_y: 0, width: target.0, height: target.1 },
            },
        ] + bind,
        PassDomain::Compute => acquire + bind,
        PassDomain::Transfer => acquire,
    }
}

/// What pass `pass` records after its commands.
pub open spec fn epilogue(pass: CompiledPass, plan: PassPlan) -> Seq<RecordOp> {
    let release = when(plan.release_images@.len() > 0 || plan.release_buffers@.len() > 0, RecordOp::ReleaseBarriers);
    match pass.domain {
        PassDomain::Graphics => seq![RecordOp::EndRendering] + when(
            plan.is_last_graphics,
            RecordOp::ColorAttachmentToPresent,
        ) + release,
        _ => release,
    }
}

fn push_when(ops: &mut Vec<RecordOp>, b: bool, op: RecordOp)
    ensures
        final(ops)@ == old(ops)@ + when(b, op),
{
    if b {
        ops.push(op);
    }
    proof {
        assert(final(ops)@ =~= old(ops)@ + when(b, op));
    }
}

fn bind_point(domain: PassDomain) -> (bp: PipelineBindPoint)
    ensures
        bp == PipelineBindPoint::spec_raw(bind_point_of(domain) as i32),
{
    if domain == PassDomain::Compute {
        PipelineBindPoint::COMPUTE()
    } else {
        PipelineBindPoint::GRAPHICS()
    }
}

/// Lowers command `k`, `c`, of a pass on `domain` with pipeline `active`
/// bound; also returns the pipeline bound after it.
fn lower_command(
    domain: PassDomain,
    bp: PipelineBindPoint,
    c: &PassCommand,
    k: usize,
    active: Option<PipelineId>,
    resources: &Vec<ResourceDecl>,
    descriptor_sets: &Vec<u64>,
    pipelines: &PipelineManager,
) -> (r: (RecordOp, Option<PipelineId>))
    requires
        resources_indexed(resources@),
        bp == PipelineBindPoint::spec_raw(bind_point_of(domain) as i32),
        command_recordable(domain, *c, active, resources@, descriptor_sets@.len(), pipelines.slots().len()),
        domain != PassDomain::Transfer ==> (active matches Some(id) ==> id.0 < pipelines.slots().len()),
    ensures
        r.0 == command_op(domain, *c, k as int, active, resources@, descriptor_sets@, pipelines.slots()),
        r.1 == (match *c {
            PassCommand::BindPipeline(id) => Some(id),
            _ => active,
        }),
{
let op = match c {
        PassCommand::BindPipeline(id) => {
            let id = *id;
                        RecordOp::BindPipeline { bind_point: bp, pipeline: pipelines.handle(id) }
        },
        PassCommand::Draw { vertex_count } => RecordOp::Draw { vertex_count: *vertex_count },
        PassCommand::DrawIndexed { index_count, instance_count, first_index } => RecordOp::DrawIndexed {
            index_count: *index_count,
            instance_count: *instance_count,
            first_index: *first_index,
        },
        PassCommand::Dispatch { x, y, z } => RecordOp::Dispatch { x: *x, y: *y, z: *z },
        PassCommand::BindVertexBuffer(r, off) => {
            let (raw, base) = resolve_buffer(resources, *r);
            RecordOp::BindVertexBuffer { buffer: raw, offset: base + *off }
        },
        PassCommand::BindIndexBuffer(r, off) => {
            let (raw, base) = resolve_buffer(resources, *r);
            RecordOp::BindIndexBuffer { buffer: raw, offset: base + *off, index_type: IndexType::U32() }
        },
        PassCommand::BindDescriptorSet(s) => {
            let set = descriptor_sets[s.0 as usize];
            let layout = pipelines.layout(active.unwrap());
            RecordOp::BindDescriptorSet { bind_point: bp, layout, first_set: 0, set }
        },
        PassCommand::PushConstants { range, .. } => {
            let layout = pipelines.layout(active.unwrap());
            RecordOp::PushConstants {
                layout,
                stages: range.stages,
                range_offset: range.offset,
                range_size: range.size,
                command: k,
            }
        },
        PassCommand::CopyBuffer { src, dst, size, dst_offset } => {
            let (src_buf, src_base) = resolve_buffer(resources, *src);
            let (dst_buf, dst_base) = resolve_buffer(resources, *dst);
            RecordOp::CopyBuffer {
                src: src_buf,
                dst: dst_buf,
                src_offset: src_base,
                dst_offset: dst_base + *dst_offset,
                size: *size,
            }
        },
        PassCommand::CopyBufferToImage { src, dst } => {
            let (buf, base) = resolve_buffer(resources, *src);
            let (img, extent) = resolve_image(resources, *dst);
            RecordOp::CopyBufferToImage { buffer: buf, offset: base, image: img, extent }
        },
    };
    let next = match c {
        PassCommand::BindPipeline(id) => Some(*id),
        _ => active,
    };
    (op, next)
}

fn record_prologue(
    pass: &CompiledPass,
    plan: &PassPlan,
    target_extent: Extent2D,
    pipelines: &PipelineManager,
) -> (ops: Vec<RecordOp>)
    requires
        pass.domain != PassDomain::Transfer ==> (pass.pipeline matches Some(id) ==> id.0 < pipelines.slots().len()),
    ensures
        ops@ == prologue(*pass, *plan, target_extent@, pipelines.slots()),
{
    let bp = bind_point(pass.domain);
    let mut ops: Vec<RecordOp> = Vec::new();
    let has_acquire = plan.acquire_images.len() > 0 || plan.acquire_buffers.len() > 0;
    push_when(&mut ops, has_acquire, RecordOp::AcquireBarriers);
    if pass.domain == PassDomain::Graphics {
        push_when(&mut ops, plan.is_first_graphics, RecordOp::SwapchainToColorAttachment);
        ops.push(RecordOp::BeginRendering { clear: plan.is_first_graphics });
        let viewport = match pass.viewport {
            Some((x, y, w, h)) => RecordOp::SetViewport { x_bits: x, y_bits: y, width_bits: w, height_bits: h },
            None => RecordOp::SetFullViewport,
        };
        ops.push(viewport);
        let scissor = match pass.scissor {
            Some((x, y, w, h)) => RecordOp::SetScissor { offset_x: x, offset_y: y, width: w, height: h },
            None => RecordOp::SetScissor {
                offset_x: 0,
                offset_y: 0,
                width: target_extent.width(),
                height: target_extent.height(),
            },
        };
        ops.push(scissor);
    }
    if pass.domain != PassDomain::Transfer {
        if let Some(id) = pass.pipeline {
            ops.push(RecordOp::BindPipeline { bind_point: bp, pipeline: pipelines.handle(id) });
        }
    }
    proof {
        assert(ops@ =~= prologue(*pass, *plan, target_extent@, pipelines.slots()));
    }
    ops
}

fn record_commands(
    ops: &mut Vec<RecordOp>,
    pass: &CompiledPass,
    resources: &Vec<ResourceDecl>,
    descriptor_sets: &Vec<u64>,
    pipelines: &PipelineManager,
)
    requires
        resources_indexed(resources@),
        pass_recordable(*pass, resources@, descriptor_sets@.len(), pipelines.slots().len()),
    ensures
        final(ops)@ == old(ops)@ + commands_ops(
            *pass,
            resources@,
            descriptor_sets@,
            pipelines.slots(),
            pass.commands@.len() as int,
        ),
{
    let bp = bind_point(pass.domain);
    let ghost pre = ops@;
    let ghost cmds = pass.commands@;
    let mut active: Option<PipelineId> = pass.pipeline;
    let mut k: usize = 0;
    proof {
        assert(ops@ =~= pre + commands_ops(*pass, resources@, descriptor_sets@, pipelines.slots(), 0));
    }
    while k < pass.commands.len()
        invariant
            cmds == pass.commands@,
            k <= cmds.len(),
            resources_indexed(resources@),
            pass_recordable(*pass, resources@, descriptor_sets@.len(), pipelines.slots().len()),
            bp == PipelineBindPoint::spec_raw(bind_point_of(pass.domain) as i32),
            active == bound_pipeline(pass.pipeline, cmds, k as int),
            pass.domain != PassDomain::Transfer ==> (active matches Some(id) ==> id.0 < pipelines.slots().len()),
            ops@ == pre + commands_ops(*pass, resources@, descriptor_sets@, pipelines.slots(), k as int),
        decreases cmds.len() - k,
    {
        proof {
            assert(command_recordable(
                pass.domain,
                cmds[k as int],
                bound_pipeline(pass.pipeline, cmds, k as int),
                resources@,
                descriptor_sets@.len(),
                pipelines.slots().len(),
            ));
        }
        let (op, next) = lower_command(pass.domain, bp, &pass.commands[k], k, active, resources, descriptor_sets, pipelines);
        active = next;
        ops.push(op);
        proof {
            assert(commands_ops(*pass, resources@, descriptor_sets@, pipelines.slots(), k + 1) =~= commands_ops(
                *pass,
                resources@,
                descriptor_sets@,
                pipelines.slots(),
                k as int,
            ).push(op));
        }
        k = k + 1;
    }
}

/// The operations pass `pass` records under plan `plan`, into a frame whose
/// color target is `target_extent`.
pub fn record_pass(
    pass: &CompiledPass,
    plan: &PassPlan,
    target_extent: Extent2D,
    resources: &Vec<ResourceDecl>,
    descriptor_sets: &Vec<u64>,
    pipelines: &PipelineManager,
) -> (ops: Vec<RecordOp>)
    requires
        resources_indexed(resources@),
        pass_recordable(*pass, resources@, descriptor_sets@.len(), pipelines.slots().len()),
    ensures
        ops@ == prologue(*pass, *plan, target_extent@, pipelines.slots()) + commands_ops(
            *pass,
            resources@,
            descriptor_sets@,
            pipelines.slots(),
            pass.commands@.len() as int,
        ) + epilogue(*pass, *plan),
{
    let mut ops = record_prologue(pass, plan, target_extent, pipelines);
    record_commands(&mut ops, pass, resources, descriptor_sets, pipelines);
    let ghost mid = ops@;
    if pass.domain == PassDomain::Graphics {
        ops.push(RecordOp::EndRendering);
        push_when(&mut ops, plan.is_last_graphics, RecordOp::ColorAttachmentToPresent);
    }
    let has_release = plan.release_images.len() > 0 || plan.release_buffers.len() > 0;
    push_when(&mut ops, has_release, RecordOp::ReleaseBarriers);
    proof {
        assert(ops@ =~= mid + epilogue(*pass, *plan));
    }
    ops
}

fn is_buffer_exec(resources: &Vec<ResourceDecl>, r: ResourceId) -> (b: bool)
    requires
        resources_indexed(resources@),
    ensures
        b == is_buffer(resources@, r),
{
    if (r as usize) < resources.len() {
        match resources[r as usize].handle {
            ResourceHandle::Buffer { .. } => true,
            ResourceHandle::Image { .. } => false,
        }
    } else {
        false
    }
}

fn is_image_exec(resources: &Vec<ResourceDecl>, r: ResourceId) -> (b: bool)
    requires
        resources_indexed(resources@),
    ensures
        b == is_image(resources@, r),
{
    if (r as usize) < resources.len() {
        match resources[r as usize].handle {
            ResourceHandle::Image { .. } => true,
            ResourceHandle::Buffer { .. } => false,
        }
    } else {
        false
    }
}

/// Whether buffer resource `r` at `off` past its base stays addressable.
fn offset_fits(resources: &Vec<ResourceDecl>, r: ResourceId, off: u64) -> (b: bool)
    requires
        resources_indexed(resources@),
        is_buffer(resources@, r),
    ensures
        b == (buffer_of(resources@, r).1 + off <= u64::MAX),
{
    let (_, base) = resolve_buffer(resources, r);
    base <= u64::MAX - off
}

fn command_ok(
    domain: PassDomain,
    c: &PassCommand,
    bound: Option<PipelineId>,
    resources: &Vec<ResourceDecl>,
    n_sets: usize,
    n_pipelines: usize,
) -> (b: bool)
    requires
        resources_indexed(resources@),
    ensures
        b == command_recordable(domain, *c, bound, resources@, n_sets as nat, n_pipelines as nat),
{
    let allowed = match domain {
        PassDomain::Graphics => !matches!(c, PassCommand::Dispatch { .. }),
        PassDomain::Compute => matches!(c, PassCommand::BindPipeline(_)) || matches!(c, PassCommand::Dispatch { .. })
            || matches!(c, PassCommand::BindDescriptorSet(_)) || matches!(c, PassCommand::PushConstants { .. }),
        PassDomain::Transfer => matches!(c, PassCommand::CopyBuffer { .. }),
    };
    if !allowed {
        return false;
    }
    match c {
        PassCommand::BindPipeline(id) => (id.0 as usize) < n_pipelines,
        PassCommand::BindVertexBuffer(r, off) => is_buffer_exec(resources, *r) && offset_fits(resources, *r, *off),
        PassCommand::BindIndexBuffer(r, off) => is_buffer_exec(resources, *r) && offset_fits(resources, *r, *off),
        PassCommand::BindDescriptorSet(set) => (set.0 as usize) < n_sets && bound.is_some(),
        PassCommand::PushConstants { range, data } => bound.is_some() && (range.size as usize) <= data.len(),
        PassCommand::CopyBuffer { src, dst, dst_offset, .. } => is_buffer_exec(resources, *src) && is_buffer_exec(
            resources,
            *dst,
        ) && offset_fits(resources, *dst, *dst_offset),
        PassCommand::CopyBufferToImage { src, dst } => is_buffer_exec(resources, *src) && is_image_exec(resources, *dst),
        _ => true,
    }
}

/// Whether every command of `pass` can be recorded, as `record_pass` needs.
pub fn pass_recordable_check(
    pass: &CompiledPass,
    resources: &Vec<ResourceDecl>,
    n_sets: usize,
    n_pipelines: usize,
) -> (b: bool)
    requires
        resources_indexed(resources@),
    ensures
        b == pass_recordable(*pass, resources@, n_sets as nat, n_pipelines as nat),
{
    if pass.domain != PassDomain::Transfer {
        if let Some(id) = pass.pipeline {
            if (id.0 as usize) >= n_pipelines {
                return false;
            }
        }
    }
    let ghost cmds = pass.commands@;
    let mut active: Option<PipelineId> = pass.pipeline;
    let mut k: usize = 0;
    while k < pass.commands.len()
        invariant
            cmds == pass.commands@,
            k <= cmds.len(),
            resources_indexed(resources@),
            pass.domain != PassDomain::Transfer ==> (pass.pipeline matches Some(id) ==> id.0 < n_pipelines),
            active == bound_pipeline(pass.pipeline, cmds, k as int),
            forall|j: int|
                0 <= j < k ==> command_recordable(
                    pass.domain,
                    #[trigger] cmds[j],
                    bound_pipeline(pass.pipeline, cmds, j),
                    resources@,
                    n_sets as nat,
                    n_pipelines as nat,
                ),
        decreases cmds.len() - k,
    {
        if !command_ok(pass.domain, &pass.commands[k], active, resources, n_sets, n_pipelines) {
            return false;
        }
        if let PassCommand::BindPipeline(id) = &pass.commands[k] {
            active = Some(*id);
        }
        k = k + 1;
    }
    true
}

/// The operations of `pass` under `plan`, when every command can be
/// recorded; none otherwise.
pub fn try_record_pass(
    pass: &CompiledPass,
    plan: &PassPlan,
    target_extent: Extent2D,
    resources: &Vec<ResourceDecl>,
    descriptor_sets: &Vec<u64>,
    pipelines: &PipelineManager,
) -> (r: Option<Vec<RecordOp>>)
    requires
        resources_indexed(resources@),
    ensures
        r is Some <==> pass_recordable(*pass, resources@, descriptor_sets@.len(), pipelines.slots().len()),
        r matches Some(ops) ==> ops@ == prologue(*pass, *plan, target_extent@, pipelines.slots()) + commands_ops(
            *pass,
            resources@,
            descriptor_sets@,
            pipelines.slots(),
            pass.commands@.len() as int,
        ) + epilogue(*pass, *plan),
{
    if pass_recordable_check(pass, resources, descriptor_sets.len(), pipelines.len()) {
        Some(record_pass(pass, plan, target_extent, resources, descriptor_sets, pipelines))
    } else {
        None
    }
}

/// What a frame without graphics passes records before presenting: the
/// swapchain image is cleared and handed to presentation.
pub fn record_present_only() -> (ops: Vec<RecordOp>)
    ensures
        ops@ == seq![
            RecordOp::SwapchainToColorAttachment,
            RecordOp::BeginRendering { clear: true },
            RecordOp::EndRendering,
            RecordOp::ColorAttachmentToPresent,
        ],
{
    let mut ops: Vec<RecordOp> = Vec::new();
    ops.push(RecordOp::SwapchainToColorAttachment);
    ops.push(RecordOp::BeginRendering { clear: true });
    ops.push(RecordOp::EndRendering);
    ops.push(RecordOp::ColorAttachmentToPresent);
    proof {
        assert(ops@ =~= seq![
            RecordOp::SwapchainToColorAttachment,
            RecordOp::BeginRendering { clear: true },
            RecordOp::EndRendering,
            RecordOp::ColorAttachmentToPresent,
        ]);
    }
    ops
}



/// An index buffer bound by a pass is bound where the frame-graph buffer
/// lies in its memory: at the buffer's base offset plus the offset the
/// command gives, with 32-bit indices.
pub proof fn lemma_index_bind_at_base(
    pass: CompiledPass,
    resources: Seq<ResourceDecl>,
    sets: Seq<u64>,
    slots: Seq<PipelineSlot>,
    n: int,
    k: int,
    r: ResourceId,
    off: u64,
    raw: u64,
    base: u64,
    size: u64,
)
    requires
        0 <= k < n <= pass.commands@.len(),
        pass.commands@[k] == PassCommand::BindIndexBuffer(r, off),
        (r as int) < resources.len(),
        resources[r as int].handle == (ResourceHandle::Buffer { raw, offset: base, size }),
        base + off <= u64::MAX,
    ensures
        commands_ops(pass, resources, sets, slots, n)[k] == (RecordOp::BindIndexBuffer {
            buffer: raw,
            offset: (base + off) as u64,
            index_type: IndexType::spec_raw(1),
        }),
{
}

/// A vertex buffer bound by a pass is bound where the frame-graph buffer
/// lies in its memory: at the buffer's base offset plus the offset the
/// command gives.
pub proof fn lemma_vertex_bind_at_base(
    pass: CompiledPass,
    resources: Seq<ResourceDecl>,
    sets: Seq<u64>,
    slots: Seq<PipelineSlot>,
    n: int,
    k: int,
    r: ResourceId,
    off: u64,
    raw: u64,
    base: u64,
    size: u64,
)
    requires
        0 <= k < n <= pass.commands@.len(),
        pass.commands@[k] == PassCommand::BindVertexBuffer(r, off),
        (r as int) < resources.len(),
        resources[r as int].handle == (ResourceHandle::Buffer { raw, offset: base, size }),
        base + off <= u64::MAX,
    ensures
        commands_ops(pass, resources, sets, slots, n)[k] == (RecordOp::BindVertexBuffer {
            buffer: raw,
            offset: (base + off) as u64,
        }),
{
}

/// A buffer copy of a pass reads from where the source buffer lies in its
/// memory and writes at the destination's base offset plus the offset the
/// command gives.
pub proof fn lemma_copy_at_base(
    pass: CompiledPass,
    resources: Seq<ResourceDecl>,
    sets: Seq<u64>,
    slots: Seq<PipelineSlot>,
    n: int,
    k: int,
    src: ResourceId,
    dst: ResourceId,
    size: u64,
    dst_offset: u64,
    src_raw: u64,
    src_base: u64,
    src_size: u64,
    dst_raw: u64,
    dst_base: u64,
    dst_size: u64,
)
    requires
        0 <= k < n <= pass.commands@.len(),
        pass.commands@[k] == (PassCommand::CopyBuffer { src, dst, size, dst_offset }),
        (src as int) < resources.len(),
        (dst as int) < resources.len(),
        resources[src as int].handle == (ResourceHandle::Buffer { raw: src_raw, offset: src_base, size: src_size }),
        resources[dst as int].handle == (ResourceHandle::Buffer { raw: dst_raw, offset: dst_base, size: dst_size }),
        dst_base + dst_offset <= u64::MAX,
    ensures
        commands_ops(pass, resources, sets, slots, n)[k] == (RecordOp::CopyBuffer {
            src: src_raw,
            dst: dst_raw,
            src_offset: src_base,
            dst_offset: (dst_base + dst_offset) as u64,
            size,
        }),
{
}

} // verus!
