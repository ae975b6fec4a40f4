//! The declarative frame graph: resources, passes built through a
//! domain-gated builder, and compilation into an ordered, barrier-annotated
//! schedule.
use vstd::prelude::*;

use core::marker::PhantomData;

use crate::command::PassCommand;
use crate::deps::{analyze_dependencies, dependency_barriers, forward_in, lemma_barriers_forward};
use crate::domain::{
    DescriptorSetId, GraphError, PassDomain, PassId, ResourceDecl, ResourceHandle, ResourceId,
    ResourceKind, UsageIntent,
};
use crate::pipeline_config::PipelineId;
use crate::queue_caps::{Compute, Graphics, Transfer};
use crate::schedule::{edges_forward, runs_forward, lemma_schedule_complete, precedes, schedule, schedule_passes};
use crate::types::{Extent3D, PushConstantRange};

verus! {

/// An ordering constraint between two passes over one resource.
#[derive(Debug, Clone, Copy)]
pub struct BarrierEdge {
    pub resource: ResourceId,
    pub from_pass: PassId,
    pub to_pass: PassId,
    pub src_usage: UsageIntent,
    pub dst_usage: UsageIntent,
    pub src_domain: PassDomain,
    pub dst_domain: PassDomain,
}

/// The compiled execution order of a frame graph.
#[derive(Debug)]
pub struct ExecutionOrder {
    pub ordered_passes: Vec<PassId>,
    pub barriers: Vec<BarrierEdge>,
}

/// A submitted pass. The viewport is kept as the IEEE-754 bit patterns of
/// its `f32` components `(x, y, width, height)`.
pub struct PassDecl {
    pub id: PassId,
    pub pipeline: Option<PipelineId>,
    pub descriptor_set: Option<DescriptorSetId>,
    pub reads: Vec<(ResourceId, UsageIntent)>,
    pub writes: Vec<(ResourceId, UsageIntent)>,
    pub domain: PassDomain,
    pub commands: Vec<PassCommand>,
    pub viewport: Option<(u32, u32, u32, u32)>,
    pub scissor: Option<(i32, i32, u32, u32)>,
}

/// True when some entry of `list` names resource `r`.
pub open spec fn declared(list: Seq<(ResourceId, UsageIntent)>, r: ResourceId) -> bool {
    exists|k: int| 0 <= k < list.len() && list[k].0 == r
}

/// A command only touches resources that the pass declared: bound vertex and
/// index buffers and copy sources among the reads, copy destinations among
/// the writes.
pub open spec fn command_declared(
    reads: Seq<(ResourceId, UsageIntent)>,
    writes: Seq<(ResourceId, UsageIntent)>,
    c: PassCommand,
) -> bool {
    match c {
        PassCommand::BindVertexBuffer(id, _) => declared(reads, id),
        PassCommand::BindIndexBuffer(id, _) => declared(reads, id),
        PassCommand::CopyBuffer { src, dst, .. } => declared(reads, src) && declared(writes, dst),
        _ => true,
    }
}

pub open spec fn declarations_valid(
    reads: Seq<(ResourceId, UsageIntent)>,
    writes: Seq<(ResourceId, UsageIntent)>,
    cmds: Seq<PassCommand>,
) -> bool {
    forall|k: int| 0 <= k < cmds.len() ==> command_declared(reads, writes, #[trigger] cmds[k])
}

/// Domain-gated pass builder; `D` restricts the available commands at
/// compile time. It borrows the graph it will submit into.
pub struct PassBuilder<'a, D> {
    pub graph: &'a mut FrameGraph,
    pub id: PassId,
    pub domain: PassDomain,
    pub pipeline: Option<PipelineId>,
    pub descriptor_set: Option<DescriptorSetId>,
    pub reads: Vec<(ResourceId, UsageIntent)>,
    pub writes: Vec<(ResourceId, UsageIntent)>,
    pub commands: Vec<PassCommand>,
    pub viewport: Option<(u32, u32, u32, u32)>,
    pub scissor: Option<(i32, i32, u32, u32)>,
    pub _domain: PhantomData<D>,
}

/// The fields that name the pass rather than its contents.
pub open spec fn same_header<'a, D>(a: &PassBuilder<'a, D>, b: &PassBuilder<'a, D>) -> bool {
    &&& a.id == b.id
    &&& a.domain == b.domain
    &&& a.pipeline == b.pipeline
    &&& a.descriptor_set == b.descriptor_set
}

fn is_declared(list: &Vec<(ResourceId, UsageIntent)>, r: ResourceId) -> (b: bool)
    ensures
        b == declared(list@, r),
{
    let mut k: usize = 0;
    while k < list.len()
        invariant
            k <= list.len(),
            forall|j: int| 0 <= j < k ==> list@[j].0 != r,
        decreases list.len() - k,
    {
        if list[k].0 == r {
            return true;
        }
        k = k + 1;
    }
    false
}

impl<'a, D> PassBuilder<'a, D> {
    /// Declares that the pass reads `resource` with `usage`.
    pub fn reads(self, resource: ResourceId, usage: UsageIntent) -> (r: Self)
        ensures
            same_header(&r, &self),
            r.reads@ == self.reads@.push((resource, usage)),
            r.writes@ == self.writes@,
            r.commands@ == self.commands@,
            r.viewport == self.viewport,
            r.scissor == self.scissor,
            *r.graph == *old(self.graph),
            *final(r.graph) == *final(self.graph),
    {
        let mut s = self;
        s.reads.push((resource, usage));
        s
    }

    /// Declares that the pass writes `resource` with `usage`.
    pub fn writes(self, resource: ResourceId, usage: UsageIntent) -> (r: Self)
        ensures
            same_header(&r, &self),
            r.reads@ == self.reads@,
            r.writes@ == self.writes@.push((resource, usage)),
            r.commands@ == self.commands@,
            r.viewport == self.viewport,
            r.scissor == self.scissor,
            *r.graph == *old(self.graph),
            *final(r.graph) == *final(self.graph),
    {
        let mut s = self;
        s.writes.push((resource, usage));
        s
    }

    /// Sets the descriptor set of the pass.
    pub fn descriptor_set(self, id: DescriptorSetId) -> (r: Self)
        ensures
            r.id == self.id,
            r.domain == self.domain,
            r.pipeline == self.pipeline,
            r.descriptor_set == Some(id),
            r.reads@ == self.reads@,
            r.writes@ == self.writes@,
            r.commands@ == self.commands@,
            r.viewport == self.viewport,
            r.scissor == self.scissor,
            *r.graph == *old(self.graph),
            *final(r.graph) == *final(self.graph),
    {
        let mut s = self;
        s.descriptor_set = Some(id);
        s
    }

    /// Records a push-constant upload of `data`.
    pub fn push_constants(self, range: PushConstantRange, data: &[u8]) -> (r: Self)
        ensures
            same_header(&r, &self),
            r.reads@ == self.reads@,
            r.writes@ == self.writes@,
            r.commands@.len() == self.commands@.len() + 1,
            r.commands@.drop_last() == self.commands@,
            r.commands@.last() matches PassCommand::PushConstants { range: rg, data: d }
                && rg == range && d@ == data@,
            r.viewport == self.viewport,
            r.scissor == self.scissor,
            *r.graph == *old(self.graph),
            *final(r.graph) == *final(self.graph),
    {
        let mut s = self;
        let bytes = slice_to_vec(data);
        s.commands.push(PassCommand::PushConstants { range, data: bytes });
        proof {
            assert(s.commands@.drop_last() == self.commands@);
        }
        s
    }

    /// True when every bound vertex or index buffer and every copy source is
    /// among the declared reads, and every copy destination among the
    /// declared writes.
    pub fn validate_resource_declarations(&self) -> (ok: bool)
        ensures
            ok == declarations_valid(self.reads@, self.writes@, self.commands@),
    {
        let mut k: usize = 0;
        while k < self.commands.len()
            invariant
                k <= self.commands@.len(),
                forall|j: int| 0 <= j < k ==> command_declared(self.reads@, self.writes@, #[trigger] self.commands@[j]),
            decreases self.commands@.len() - k,
        {
            let ok = match &self.commands[k] {
                PassCommand::BindVertexBuffer(id, _) => is_declared(&self.reads, *id),
                PassCommand::BindIndexBuffer(id, _) => is_declared(&self.reads, *id),
                PassCommand::CopyBuffer { src, dst, .. } => {
                    is_declared(&self.reads, *src) && is_declared(&self.writes, *dst)
                },
                _ => true,
            };
            if !ok {
                return false;
            }
            k = k + 1;
        }
        true
    }

    /// Appends the pass to its graph and returns its id.
    pub fn submit(self) -> (id: PassId)
        requires
            declarations_valid(self.reads@, self.writes@, self.commands@),
        ensures
            id == self.id,
            final(self.graph).pass_list() == old(self.graph).pass_list().push(
                (PassDecl {
                    id: self.id,
                    pipeline: self.pipeline,
                    descriptor_set: self.descriptor_set,
                    reads: self.reads,
                    writes: self.writes,
                    domain: self.domain,
                    commands: self.commands,
                    viewport: self.viewport,
                    scissor: self.scissor,
                }),
            ),
            final(self.graph).resource_list() == old(self.graph).resource_list(),
            final(self.graph).next_resource() == old(self.graph).next_resource(),
            final(self.graph).next_pass() == old(self.graph).next_pass(),
            old(self.graph).wf() ==> final(self.graph).wf(),
    {
        let id = self.id;
        let decl = PassDecl {
            id,
            pipeline: self.pipeline,
            descriptor_set: self.descriptor_set,
            reads: self.reads,
            writes: self.writes,
            domain: self.domain,
            commands: self.commands,
            viewport: self.viewport,
            scissor: self.scissor,
        };
        self.graph.passes.push(decl);
        id
    }
}

fn slice_to_vec(data: &[u8]) -> (v: Vec<u8>)
    ensures
        v@ == data@,
{
    let mut v: Vec<u8> = Vec::new();
    let mut k: usize = 0;
    while k < data.len()
        invariant
            k <= data@.len(),
            v@ == data@.subrange(0, k as int),
        decreases data@.len() - k,
    {
        v.push(data[k]);
        k = k + 1;
        proof {
            assert(v@ == data@.subrange(0, k as int));
        }
    }
    proof {
        assert(data@.subrange(0, data@.len() as int) == data@);
    }
    v
}

impl<'a> PassBuilder<'a, Graphics> {
    /// Records a pipeline bind.
    pub fn bind_pipeline(self, id: PipelineId) -> (r: Self)
        ensures
            same_header(&r, &self),
            r.reads@ == self.reads@,
            r.writes@ == self.writes@,
            r.commands@ == self.commands@.push(PassCommand::BindPipeline(id)),
            r.viewport == self.viewport,
            r.scissor == self.scissor,
            *r.graph == *old(self.graph),
            *final(r.graph) == *final(self.graph),
    {
        let mut s = self;
        s.commands.push(PassCommand::BindPipeline(id));
        s
    }

    /// Records a non-indexed draw.
    pub fn draw(self, vertex_count: u32) -> (r: Self)
        ensures
            same_header(&r, &self),
            r.reads@ == self.reads@,
            r.writes@ == self.writes@,
            r.commands@ == self.commands@.push(PassCommand::Draw { vertex_count }),
            r.viewport == self.viewport,
            r.scissor == self.scissor,
            *r.graph == *old(self.graph),
            *final(r.graph) == *final(self.graph),
    {
        let mut s = self;
        s.commands.push(PassCommand::Draw { vertex_count });
        s
    }

    /// Records an indexed draw.
    pub fn draw_indexed(self, index_count: u32, instance_count: u32, first_index: u32) -> (r: Self)
        ensures
            same_header(&r, &self),
            r.reads@ == self.reads@,
            r.writes@ == self.writes@,
            r.commands@ == self.commands@.push(
                PassCommand::DrawIndexed { index_count, instance_count, first_index },
            ),
            r.viewport == self.viewport,
            r.scissor == self.scissor,
            *r.graph == *old(self.graph),
            *final(r.graph) == *final(self.graph),
    {
        let mut s = self;
        s.commands.push(PassCommand::DrawIndexed { index_count, instance_count, first_index });
        s
    }

    /// Records a vertex buffer bind.
    pub fn bind_vertex_buffer(self, resource: ResourceId, offset: u64) -> (r: Self)
        ensures
            same_header(&r, &self),
            r.reads@ == self.reads@,
            r.writes@ == self.writes@,
            r.commands@ == self.commands@.push(PassCommand::BindVertexBuffer(resource, offset)),
            r.viewport == self.viewport,
            r.scissor == self.scissor,
            *r.graph == *old(self.graph),
            *final(r.graph) == *final(self.graph),
    {
        let mut s = self;
        s.commands.push(PassCommand::BindVertexBuffer(resource, offset));
        s
    }

    /// Records an index buffer bind.
    pub fn bind_index_buffer(self, resource: ResourceId, offset: u64) -> (r: Self)
        ensures
            same_header(&r, &self),
            r.reads@ == self.reads@,
            r.writes@ == self.writes@,
            r.commands@ == self.commands@.push(PassCommand::BindIndexBuffer(resource, offset)),
            r.viewport == self.viewport,
            r.scissor == self.scissor,
            *r.graph == *old(self.graph),
            *final(r.graph) == *final(self.graph),
    {
        let mut s = self;
        s.commands.push(PassCommand::BindIndexBuffer(resource, offset));
        s
    }

    /// Records a descriptor set bind.
    pub fn bind_descriptor_set(self, id: DescriptorSetId) -> (r: Self)
        ensures
            same_header(&r, &self),
            r.reads@ == self.reads@,
            r.writes@ == self.writes@,
            r.commands@ == self.commands@.push(PassCommand::BindDescriptorSet(id)),
            r.viewport == self.viewport,
            r.scissor == self.scissor,
            *r.graph == *old(self.graph),
            *final(r.graph) == *final(self.graph),
    {
        let mut s = self;
        s.commands.push(PassCommand::BindDescriptorSet(id));
        s
    }

    /// Sets the viewport; each component is the bit pattern of an `f32`.
    pub fn set_viewport(self, x: u32, y: u32, w: u32, h: u32) -> (r: Self)
        ensures
            same_header(&r, &self),
            r.reads@ == self.reads@,
            r.writes@ == self.writes@,
            r.commands@ == self.commands@,
            r.viewport == Some((x, y, w, h)),
            r.scissor == self.scissor,
            *r.graph == *old(self.graph),
            *final(r.graph) == *final(self.graph),
    {
        let mut s = self;
        s.viewport = Some((x, y, w, h));
        s
    }

    /// Sets the scissor rectangle.
    pub fn set_scissor(self, x: i32, y: i32, w: u32, h: u32) -> (r: Self)
        ensures
            same_header(&r, &self),
            r.reads@ == self.reads@,
            r.writes@ == self.writes@,
            r.commands@ == self.commands@,
            r.viewport == self.viewport,
            r.scissor == Some((x, y, w, h)),
            *r.graph == *old(self.graph),
            *final(r.graph) == *final(self.graph),
    {
        let mut s = self;
        s.scissor = Some((x, y, w, h));
        s
    }
}

impl<'a> PassBuilder<'a, Compute> {
    /// Records a pipeline bind.
    pub fn bind_pipeline(self, id: PipelineId) -> (r: Self)
        ensures
            same_header(&r, &self),
            r.reads@ == self.reads@,
            r.writes@ == self.writes@,
            r.commands@ == self.commands@.push(PassCommand::BindPipeline(id)),
            r.viewport == self.viewport,
            r.scissor == self.scissor,
            *r.graph == *old(self.graph),
            *final(r.graph) == *final(self.graph),
    {
        let mut s = self;
        s.commands.push(PassCommand::BindPipeline(id));
        s
    }

    /// Records a compute dispatch.
    pub fn dispatch(self, x: u32, y: u32, z: u32) -> (r: Self)
        ensures
            same_header(&r, &self),
            r.reads@ == self.reads@,
            r.writes@ == self.writes@,
            r.commands@ == self.commands@.push(PassCommand::Dispatch { x, y, z }),
            r.viewport == self.viewport,
            r.scissor == self.scissor,
            *r.graph == *old(self.graph),
            *final(r.graph) == *final(self.graph),
    {
        let mut s = self;
        s.commands.push(PassCommand::Dispatch { x, y, z });
        s
    }

    /// Records a descriptor set bind.
    pub fn bind_descriptor_set(self, id: DescriptorSetId) -> (r: Self)
        ensures
            same_header(&r, &self),
            r.reads@ == self.reads@,
            r.writes@ == self.writes@,
            r.commands@ == self.commands@.push(PassCommand::BindDescriptorSet(id)),
            r.viewport == self.viewport,
            r.scissor == self.scissor,
            *r.graph == *old(self.graph),
            *final(r.graph) == *final(self.graph),
    {
        let mut s = self;
        s.commands.push(PassCommand::BindDescriptorSet(id));
        s
    }
}

impl<'a> PassBuilder<'a, Transfer> {
    /// Records a buffer-to-buffer copy.
    pub fn copy_buffer(self, src: ResourceId, dst: ResourceId, size: u64, dst_offset: u64) -> (r: Self)
        ensures
            same_header(&r, &self),
            r.reads@ == self.reads@,
            r.writes@ == self.writes@,
            r.commands@ == self.commands@.push(PassCommand::CopyBuffer { src, dst, size, dst_offset }),
            r.viewport == self.viewport,
            r.scissor == self.scissor,
            *r.graph == *old(self.graph),
            *final(r.graph) == *final(self.graph),
    {
        let mut s = self;
        s.commands.push(PassCommand::CopyBuffer { src, dst, size, dst_offset });
        s
    }
}

/// Declarative frame graph. Compiles into an execution order with automatic
/// barriers.
pub struct FrameGraph {
    resources: Vec<ResourceDecl>,
    passes: Vec<PassDecl>,
    next_resource_id: ResourceId,
    next_pass_id: PassId,
}

impl FrameGraph {
    /// In a well-formed graph each resource's id is its index.
    pub proof fn lemma_resources_indexed(&self)
        requires
            self.wf(),
        ensures
            forall|i: int| 0 <= i < self.resource_list().len() ==> (#[trigger] self.resource_list()[i]).id == i,
    {
    }

    pub closed spec fn resource_list(&self) -> Seq<ResourceDecl> {
        self.resources@
    }

    pub closed spec fn pass_list(&self) -> Seq<PassDecl> {
        self.passes@
    }

    pub closed spec fn next_resource(&self) -> ResourceId {
        self.next_resource_id
    }

    pub closed spec fn next_pass(&self) -> PassId {
        self.next_pass_id
    }

    /// Resource ids are handed out in order: each resource's id is its index.
    pub closed spec fn wf(&self) -> bool {
        &&& forall|i: int| 0 <= i < self.resources@.len() ==> (#[trigger] self.resources@[i]).id == i
        &&& self.next_resource_id == self.resources@.len()
    }

    pub fn new() -> (g: Self)
        ensures
            g.wf(),
            g.resource_list().len() == 0,
            g.pass_list().len() == 0,
            g.next_resource() == 0,
            g.next_pass() == 0,
    {
        FrameGraph { resources: Vec::new(), passes: Vec::new(), next_resource_id: 0, next_pass_id: 0 }
    }

    /// Declares a resource and returns its id, the next in sequence.
    pub fn add_resource(&mut self, kind: ResourceKind, handle: ResourceHandle) -> (id: ResourceId)
        requires
            old(self).wf(),
            old(self).next_resource() < u32::MAX,
        ensures
            final(self).wf(),
            id == old(self).next_resource(),
            final(self).next_resource() == id + 1,
            final(self).resource_list() == old(self).resource_list().push(
                (ResourceDecl { id, kind, handle }),
            ),
            final(self).pass_list() == old(self).pass_list(),
            final(self).next_pass() == old(self).next_pass(),
    {
        let id = self.next_resource_id;
        self.next_resource_id = self.next_resource_id + 1;
        self.resources.push(ResourceDecl { id, kind, handle });
        id
    }

    /// Declares an image resource.
    pub fn add_image(&mut self, handle: u64, extent: Extent3D) -> (id: ResourceId)
        requires
            old(self).wf(),
            old(self).next_resource() < u32::MAX,
        ensures
            final(self).wf(),
            id == old(self).next_resource(),
            final(self).next_resource() == id + 1,
            final(self).resource_list() == old(self).resource_list().push(
                (ResourceDecl {
                    id,
                    kind: ResourceKind::Image,
                    handle: ResourceHandle::Image { raw: handle, extent },
                }),
            ),
            final(self).pass_list() == old(self).pass_list(),
            final(self).next_pass() == old(self).next_pass(),
    {
        self.add_resource(ResourceKind::Image, ResourceHandle::Image { raw: handle, extent })
    }

    /// Declares a buffer resource: a range of a backend buffer.
    pub fn add_buffer(&mut self, handle: u64, offset: u64, size: u64) -> (id: ResourceId)
        requires
            old(self).wf(),
            old(self).next_resource() < u32::MAX,
        ensures
            final(self).wf(),
            id == old(self).next_resource(),
            final(self).next_resource() == id + 1,
            final(self).resource_list() == old(self).resource_list().push(
                (ResourceDecl {
                    id,
                    kind: ResourceKind::Buffer,
                    handle: ResourceHandle::Buffer { raw: handle, offset, size },
                }),
            ),
            final(self).pass_list() == old(self).pass_list(),
            final(self).next_pass() == old(self).next_pass(),
    {
        self.add_resource(ResourceKind::Buffer, ResourceHandle::Buffer { raw: handle, offset, size })
    }

    /// The declaration of resource `id`.
    pub fn resource(&self, id: ResourceId) -> (r: &ResourceDecl)
        requires
            self.wf(),
            id < self.next_resource(),
        ensures
            *r == self.resource_list()[id as int],
            r.id == id,
    {
        let mut k: usize = 0;
        while k < self.resources.len()
            invariant
                self.wf(),
                id < self.resources@.len(),
                k <= id,
            decreases self.resources@.len() - k,
        {
            if self.resources[k].id == id {
                return &self.resources[k];
            }
            k = k + 1;
        }
        &self.resources[id as usize]
    }

    /// Starts a graphics pass with the next pass id.
    pub fn add_graphics_pass(&mut self, pipeline: Option<PipelineId>) -> (b: PassBuilder<'_, Graphics>)
        requires
            old(self).next_pass() < u32::MAX,
        ensures
            b.id == old(self).next_pass(),
            b.domain == PassDomain::Graphics,
            b.pipeline == pipeline,
            b.descriptor_set.is_none(),
            b.reads@.len() == 0,
            b.writes@.len() == 0,
            b.commands@.len() == 0,
            b.viewport.is_none(),
            b.scissor.is_none(),
            b.graph.next_pass() == old(self).next_pass() + 1,
            b.graph.pass_list() == old(self).pass_list(),
            b.graph.resource_list() == old(self).resource_list(),
            b.graph.next_resource() == old(self).next_resource(),
            old(self).wf() ==> b.graph.wf(),
            *final(self) == *final(b.graph),
    {
        let id = self.next_pass_id;
        self.next_pass_id = self.next_pass_id + 1;
        PassBuilder {
            graph: self,
            id,
            domain: PassDomain::Graphics,
            pipeline,
            descriptor_set: None,
            reads: Vec::new(),
            writes: Vec::new(),
            commands: Vec::new(),
            viewport: None,
            scissor: None,
            _domain: PhantomData,
        }
    }

    /// Starts a compute pass with the next pass id.
    pub fn add_compute_pass(&mut self, pipeline: Option<PipelineId>) -> (b: PassBuilder<'_, Compute>)
        requires
            old(self).next_pass() < u32::MAX,
        ensures
            b.id == old(self).next_pass(),
            b.domain == PassDomain::Compute,
            b.pipeline == pipeline,
            b.descriptor_set.is_none(),
            b.reads@.len() == 0,
            b.writes@.len() == 0,
            b.commands@.len() == 0,
            b.viewport.is_none(),
            b.scissor.is_none(),
            b.graph.next_pass() == old(self).next_pass() + 1,
            b.graph.pass_list() == old(self).pass_list(),
            b.graph.resource_list() == old(self).resource_list(),
            b.graph.next_resource() == old(self).next_resource(),
            old(self).wf() ==> b.graph.wf(),
            *final(self) == *final(b.graph),
    {
        let id = self.next_pass_id;
        self.next_pass_id = self.next_pass_id + 1;
        PassBuilder {
            graph: self,
            id,
            domain: PassDomain::Compute,
            pipeline,
            descriptor_set: None,
            reads: Vec::new(),
            writes: Vec::new(),
            commands: Vec::new(),
            viewport: None,
            scissor: None,
            _domain: PhantomData,
        }
    }

    /// Starts a transfer pass with the next pass id.
    pub fn add_transfer_pass(&mut self) -> (b: PassBuilder<'_, Transfer>)
        requires
            old(self).next_pass() < u32::MAX,
        ensures
            b.id == old(self).next_pass(),
            b.domain == PassDomain::Transfer,
            b.pipeline.is_none(),
            b.descriptor_set.is_none(),
            b.reads@.len() == 0,
            b.writes@.len() == 0,
            b.commands@.len() == 0,
            b.viewport.is_none(),
            b.scissor.is_none(),
            b.graph.next_pass() == old(self).next_pass() + 1,
            b.graph.pass_list() == old(self).pass_list(),
            b.graph.resource_list() == old(self).resource_list(),
            b.graph.next_resource() == old(self).next_resource(),
            old(self).wf() ==> b.graph.wf(),
            *final(self) == *final(b.graph),
    {
        let id = self.next_pass_id;
        self.next_pass_id = self.next_pass_id + 1;
        PassBuilder {
            graph: self,
            id,
            domain: PassDomain::Transfer,
            pipeline: None,
            descriptor_set: None,
            reads: Vec::new(),
            writes: Vec::new(),
            commands: Vec::new(),
            viewport: None,
            scissor: None,
            _domain: PhantomData,
        }
    }

    pub fn resources(&self) -> (r: &[ResourceDecl])
        ensures
            r@ == self.resource_list(),
    {
        self.resources.as_slice()
    }

    pub fn passes(&self) -> (r: &[PassDecl])
        ensures
            r@ == self.pass_list(),
    {
        self.passes.as_slice()
    }

    /// The passes, to change in place; the resources stay as they are.
    pub fn passes_mut(&mut self) -> (r: &mut [PassDecl])
        ensures
            r@ == old(self).pass_list(),
            final(self).pass_list() == final(r)@,
            final(self).resource_list() == old(self).resource_list(),
            final(self).next_resource() == old(self).next_resource(),
            final(self).next_pass() == old(self).next_pass(),
            final(self).wf() == old(self).wf(),
    {
        self.passes.as_mut_slice()
    }

    pub fn next_resource_id(&self) -> (r: ResourceId)
        ensures
            r == self.next_resource(),
    {
        self.next_resource_id
    }

    pub fn next_pass_id(&self) -> (r: PassId)
        ensures
            r == self.next_pass(),
    {
        self.next_pass_id
    }
}

/// The ids of the passes, in submission order.
pub open spec fn pass_ids(ps: Seq<PassDecl>) -> Seq<PassId> {
    ps.map_values(|p: PassDecl| p.id)
}

/// A pass as the executor sees it: everything but its declared accesses.
pub struct CompiledPass {
    pub id: PassId,
    pub pipeline: Option<PipelineId>,
    pub descriptor_set: Option<DescriptorSetId>,
    pub domain: PassDomain,
    pub commands: Vec<PassCommand>,
    pub viewport: Option<(u32, u32, u32, u32)>,
    pub scissor: Option<(i32, i32, u32, u32)>,
}

/// A compiled frame graph: the order with its barriers, the lowered passes in
/// submission order, and the resources.
pub struct CompiledGraph {
    pub order: ExecutionOrder,
    pub passes: Vec<CompiledPass>,
    pub resources: Vec<ResourceDecl>,
}

/// `c` is pass `d` with its declared accesses dropped.
pub open spec fn lowered(d: PassDecl, c: CompiledPass) -> bool {
    &&& c.id == d.id
    &&& c.pipeline == d.pipeline
    &&& c.descriptor_set == d.descriptor_set
    &&& c.domain == d.domain
    &&& c.commands == d.commands
    &&& c.viewport == d.viewport
    &&& c.scissor == d.scissor
}

fn all_distinct(ids: &Vec<PassId>) -> (b: bool)
    ensures
        b == ids@.no_duplicates(),
{
    let n = ids.len();
    let mut i: usize = 0;
    while i < n
        invariant
            n == ids@.len(),
            i <= n,
            forall|a: int, b: int| 0 <= a < i && 0 <= b < n && a != b ==> ids@[a] != ids@[b],
        decreases n - i,
    {
        let mut j: usize = 0;
        while j < n
            invariant
                n == ids@.len(),
                i < n,
                j <= n,
                forall|a: int, b: int| 0 <= a < i && 0 <= b < n && a != b ==> ids@[a] != ids@[b],
                forall|b: int| 0 <= b < j && b != i ==> ids@[i as int] != ids@[b],
            decreases n - j,
        {
            if j != i && ids[i] == ids[j] {
                return false;
            }
            j = j + 1;
        }
        i = i + 1;
    }
    true
}

/// On passes with distinct ids, the order runs every pass exactly once, and
/// every barrier's source pass runs before its destination pass.
pub proof fn lemma_compiled_order(ps: Seq<PassDecl>)
    requires
        pass_ids(ps).no_duplicates(),
    ensures
        schedule(pass_ids(ps), dependency_barriers(ps)).len() == ps.len(),
        schedule(pass_ids(ps), dependency_barriers(ps)).no_duplicates(),
        forall|v: PassId| schedule(pass_ids(ps), dependency_barriers(ps)).contains(v) <==> pass_ids(ps).contains(v),
        forall|k: int|
            0 <= k < dependency_barriers(ps).len() ==> precedes(
                schedule(pass_ids(ps), dependency_barriers(ps)),
                (#[trigger] dependency_barriers(ps)[k]).from_pass,
                dependency_barriers(ps)[k].to_pass,
            ),
{
    let ids = pass_ids(ps);
    let bs = dependency_barriers(ps);
    lemma_barriers_forward(ps);
    assert(edges_forward(ids, bs)) by {
        assert forall|k: int| 0 <= k < bs.len() implies runs_forward(ids, #[trigger] bs[k]) by {
            assert(forward_in(ps, ps.len() as int, bs[k]));
            let (jf, jt) = choose|jf: int, jt: int|
                0 <= jf < jt < ps.len() && jt < ps.len() && (#[trigger] ps[jf]).id == bs[k].from_pass
                    && (#[trigger] ps[jt]).id == bs[k].to_pass;
            assert(ids[jf] == ps[jf].id && ids[jt] == ps[jt].id);
        }
    }
    lemma_schedule_complete(ids, bs);
}

impl FrameGraph {
    /// Dependency analysis then ordering. Barriers: a read waits for the last
    /// write (read after write); a write waits for the last write (write after
    /// write) and for every read since (write after read); at most one
    /// barrier per ordered pair of passes. Order: the smallest ready pass id
    /// first. Fails with `CycleDetected` exactly when two passes share an id.
    pub(crate) fn compile_dependencies(&self) -> (r: Result<ExecutionOrder, GraphError>)
        ensures
            r is Ok <==> pass_ids(self.pass_list()).no_duplicates(),
            r matches Ok(o) ==> o.barriers@ == dependency_barriers(self.pass_list())
                && o.ordered_passes@ == schedule(pass_ids(self.pass_list()), dependency_barriers(self.pass_list())),
            r matches Err(e) ==> e == GraphError::CycleDetected,
    {
        let barriers = analyze_dependencies(&self.passes);
        let mut ids: Vec<PassId> = Vec::new();
        let mut i: usize = 0;
        while i < self.passes.len()
            invariant
                i <= self.passes@.len(),
                ids@ == pass_ids(self.passes@.take(i as int)),
            decreases self.passes@.len() - i,
        {
            ids.push(self.passes[i].id);
            i = i + 1;
            proof {
                assert(ids@ =~= pass_ids(self.passes@.take(i as int)));
            }
        }
        proof {
            assert(self.passes@.take(self.passes@.len() as int) == self.passes@);
        }
        if !all_distinct(&ids) {
            return Err(GraphError::CycleDetected);
        }
        proof {
            lemma_compiled_order(self.passes@);
            lemma_barriers_forward(self.passes@);
            assert forall|k: int| 0 <= k < barriers@.len() implies ids@.contains((#[trigger] barriers@[k]).to_pass) by {
                assert(forward_in(self.passes@, self.passes@.len() as int, barriers@[k]));
                let (jf, jt) = choose|jf: int, jt: int|
                    0 <= jf < jt < self.passes@.len() && jt < self.passes@.len()
                        && (#[trigger] self.passes@[jf]).id == barriers@[k].from_pass
                        && (#[trigger] self.passes@[jt]).id == barriers@[k].to_pass;
                assert(ids@[jt] == barriers@[k].to_pass);
            }
        }
        let order = schedule_passes(&ids, &barriers);
        if order.len() != self.passes.len() {
            return Err(GraphError::CycleDetected);
        }
        Ok(ExecutionOrder { ordered_passes: order, barriers })
    }

    /// Consumes the graph: dependency analysis, barrier placement, then
    /// lowering of each pass.
    pub fn compile(self) -> (r: Result<CompiledGraph, GraphError>)
        ensures
            r is Ok <==> pass_ids(self.pass_list()).no_duplicates(),
            r matches Ok(c) ==> {
                &&& c.order.barriers@ == dependency_barriers(self.pass_list())
                &&& c.order.ordered_passes@ == schedule(pass_ids(self.pass_list()), dependency_barriers(self.pass_list()))
                &&& c.passes@.len() == self.pass_list().len()
                &&& forall|i: int| 0 <= i < c.passes@.len() ==> lowered(self.pass_list()[i], #[trigger] c.passes@[i])
                &&& c.resources@ == self.resource_list()
            },
            r matches Err(e) ==> e == GraphError::CycleDetected,
    {
        let order = match self.compile_dependencies() {
            Ok(o) => o,
            Err(e) => {
                return Err(e);
            },
        };
        let ghost all = self.passes@;
        let mut rest = self.passes;
        let mut out: Vec<CompiledPass> = Vec::new();
        while rest.len() > 0
            invariant
                out@.len() + rest@.len() == all.len(),
                rest@ == all.skip(out@.len() as int),
                forall|i: int| 0 <= i < out@.len() ==> lowered(all[i], #[trigger] out@[i]),
            decreases rest@.len(),
        {
            let ghost k = out@.len();
            let decl = rest.remove(0);
            proof {
                assert(decl == all[k as int]);
            }
            out.push(
                CompiledPass {
                    id: decl.id,
                    pipeline: decl.pipeline,
                    descriptor_set: decl.descriptor_set,
                    domain: decl.domain,
                    commands: decl.commands,
                    viewport: decl.viewport,
                    scissor: decl.scissor,
                },
            );
            proof {
                assert(rest@ =~= all.skip(out@.len() as int));
            }
        }
        Ok(CompiledGraph { order, passes: out, resources: self.resources })
    }
}

impl Default for FrameGraph {
    fn default() -> (g: Self)
        ensures
            g.wf(),
            g.resource_list().len() == 0,
            g.pass_list().len() == 0,
            g.next_resource() == 0,
            g.next_pass() == 0,
    {
        Self::new()
    }
}

} // verus!
