//! Backend-free vocabulary of the frame graph: pass domains, pipeline stages,
//! memory accesses, image layouts, usage intents, resources and errors.
use vstd::prelude::*;
use vstd::string::StringExecFns;

use crate::types::Extent3D;

verus! {

/// Index of a descriptor set registered with the executor.
#[derive(Debug, Clone, Copy, PartialEq, Eq, Hash, Structural)]
pub struct DescriptorSetId(pub u32);

/// Which execution domain a pass runs in; it selects the queue, the command
/// pool, the recorder view and the synchronization rules.
#[derive(Debug, Clone, Copy, PartialEq, Eq, Structural)]
pub enum PassDomain {
    Graphics,
    Compute,
    Transfer,
}

pub type ResourceId = u32;

pub type PassId = u32;

/// Pipeline stage: which shader or fixed-function unit needs the resource.
#[derive(Debug, Copy, Clone, PartialEq, Eq, Hash, Structural)]
pub enum Stage {
    NoStage,
    Top,
    DrawIndirect,
    VertexInput,
    Vertex,
    Fragment,
    EarlyFragmentTests,
    LateFragmentTests,
    ColorOutput,
    Compute,
    Transfer,
    Host,
    Bottom,
    All,
}

/// Memory access type: how the resource is read or written.
#[derive(Debug, Copy, Clone, PartialEq, Eq, Hash, Structural)]
pub enum Access {
    NoAccess,
    MemoryRead,
    MemoryWrite,
    UniformRead,
    SampledRead,
    StorageRead,
    StorageWrite,
    ColorAttachmentRead,
    ColorAttachmentWrite,
    DepthStencilRead,
    DepthStencilWrite,
    TransferRead,
    TransferWrite,
    VertexAttributeRead,
    IndexRead,
    IndirectCommandRead,
    HostRead,
    HostWrite,
}

/// Image layout; only meaningful for images, buffers use `Undefined`.
#[derive(Debug, Copy, Clone, PartialEq, Eq, Hash, Structural)]
pub enum ImageLayout {
    Undefined,
    General,
    ShaderReadOnly,
    TransferSrc,
    TransferDst,
    ColorAttachment,
    DepthAttachment,
    DepthReadOnly,
    Present,
}

/// What a pass intends to do with a resource.
#[derive(Debug, Clone, Copy)]
pub struct UsageIntent {
    stage: Stage,
    access: Access,
    layout: ImageLayout,
}

impl View for UsageIntent {
    type V = (Stage, Access, ImageLayout);

    closed spec fn view(&self) -> (Stage, Access, ImageLayout) {
        (self.stage, self.access, self.layout)
    }
}

impl UsageIntent {
    pub fn new(stage: Stage, access: Access, layout: ImageLayout) -> (r: Self)
        ensures
            r@ == (stage, access, layout),
    {
        UsageIntent { stage, access, layout }
    }

    pub fn stage(&self) -> (r: Stage)
        ensures
            r == self@.0,
    {
        self.stage
    }

    pub fn access(&self) -> (r: Access)
        ensures
            r == self@.1,
    {
        self.access
    }

    pub fn layout(&self) -> (r: ImageLayout)
        ensures
            r == self@.2,
    {
        self.layout
    }

    pub fn compute_storage_read() -> (r: Self)
        ensures
            r@ == (Stage::Compute, Access::StorageRead, ImageLayout::General),
    {
        Self::new(Stage::Compute, Access::StorageRead, ImageLayout::General)
    }

    pub fn compute_storage_write() -> (r: Self)
        ensures
            r@ == (Stage::Compute, Access::StorageWrite, ImageLayout::General),
    {
        Self::new(Stage::Compute, Access::StorageWrite, ImageLayout::General)
    }

    pub fn fragment_sampled_read() -> (r: Self)
        ensures
            r@ == (Stage::Fragment, Access::SampledRead, ImageLayout::ShaderReadOnly),
    {
        Self::new(Stage::Fragment, Access::SampledRead, ImageLayout::ShaderReadOnly)
    }

    pub fn color_attachment_write() -> (r: Self)
        ensures
            r@ == (Stage::ColorOutput, Access::ColorAttachmentWrite, ImageLayout::ColorAttachment),
    {
        Self::new(Stage::ColorOutput, Access::ColorAttachmentWrite, ImageLayout::ColorAttachment)
    }

    pub fn depth_write() -> (r: Self)
        ensures
            r@ == (Stage::EarlyFragmentTests, Access::DepthStencilWrite, ImageLayout::DepthAttachment),
    {
        Self::new(Stage::EarlyFragmentTests, Access::DepthStencilWrite, ImageLayout::DepthAttachment)
    }

    pub fn depth_read() -> (r: Self)
        ensures
            r@ == (Stage::Fragment, Access::DepthStencilRead, ImageLayout::DepthReadOnly),
    {
        Self::new(Stage::Fragment, Access::DepthStencilRead, ImageLayout::DepthReadOnly)
    }

    pub fn transfer_read() -> (r: Self)
        ensures
            r@ == (Stage::Transfer, Access::TransferRead, ImageLayout::TransferSrc),
    {
        Self::new(Stage::Transfer, Access::TransferRead, ImageLayout::TransferSrc)
    }

    pub fn transfer_write() -> (r: Self)
        ensures
            r@ == (Stage::Transfer, Access::TransferWrite, ImageLayout::TransferDst),
    {
        Self::new(Stage::Transfer, Access::TransferWrite, ImageLayout::TransferDst)
    }

    pub fn vertex_buffer_read() -> (r: Self)
        ensures
            r@ == (Stage::VertexInput, Access::VertexAttributeRead, ImageLayout::Undefined),
    {
        Self::new(Stage::VertexInput, Access::VertexAttributeRead, ImageLayout::Undefined)
    }

    pub fn index_buffer_read() -> (r: Self)
        ensures
            r@ == (Stage::VertexInput, Access::IndexRead, ImageLayout::Undefined),
    {
        Self::new(Stage::VertexInput, Access::IndexRead, ImageLayout::Undefined)
    }

    pub fn indirect_read() -> (r: Self)
        ensures
            r@ == (Stage::DrawIndirect, Access::IndirectCommandRead, ImageLayout::Undefined),
    {
        Self::new(Stage::DrawIndirect, Access::IndirectCommandRead, ImageLayout::Undefined)
    }

    pub fn present() -> (r: Self)
        ensures
            r@ == (Stage::Bottom, Access::MemoryRead, ImageLayout::Present),
    {
        Self::new(Stage::Bottom, Access::MemoryRead, ImageLayout::Present)
    }
}

/// Whether a graph resource is a buffer or an image.
#[derive(Debug, Clone, Copy, PartialEq, Eq, Structural)]
pub enum ResourceKind {
    Buffer,
    Image,
}

/// The backend object behind a graph resource, as a raw handle.
#[derive(Debug, Clone, Copy)]
pub enum ResourceHandle {
    Buffer { raw: u64, offset: u64, size: u64 },
    Image { raw: u64, extent: Extent3D },
}

/// A resource declared in a frame graph.
pub struct ResourceDecl {
    pub id: ResourceId,
    pub kind: ResourceKind,
    pub handle: ResourceHandle,
}

/// Why compiling or executing a frame graph failed.
#[derive(Debug)]
pub enum GraphError {
    CycleDetected,
    ResourceNotFound(ResourceId),
    MissingLane(PassDomain),
    BackendFailure(String),
}

/// The characters of decimal digit `d`.
pub open spec fn digit_chars(d: nat) -> Seq<char> {
    if d == 0 {
        "0"@
    } else if d == 1 {
        "1"@
    } else if d == 2 {
        "2"@
    } else if d == 3 {
        "3"@
    } else if d == 4 {
        "4"@
    } else if d == 5 {
        "5"@
    } else if d == 6 {
        "6"@
    } else if d == 7 {
        "7"@
    } else if d == 8 {
        "8"@
    } else {
        "9"@
    }
}

/// `n` written in decimal, without leading zeros.
pub open spec fn decimal(n: nat) -> Seq<char>
    decreases n,
{
    if n < 10 {
        digit_chars(n)
    } else {
        decimal(n / 10) + digit_chars(n % 10)
    }
}

/// The name of a pass domain.
pub open spec fn domain_name(d: PassDomain) -> Seq<char> {
    match d {
        PassDomain::Graphics => "Graphics"@,
        PassDomain::Compute => "Compute"@,
        PassDomain::Transfer => "Transfer"@,
    }
}

/// The message that describes error `e`.
pub open spec fn error_message(e: GraphError) -> Seq<char> {
    match e {
        GraphError::CycleDetected => "Graph contains a cycle"@,
        GraphError::ResourceNotFound(id) => "Resource "@ + decimal(id as nat) + " not found"@,
        GraphError::MissingLane(d) => "No lane attached for domain "@ + domain_name(d),
        GraphError::BackendFailure(m) => "Internal rendering backend error: "@ + m@,
    }
}

/// Appends `n` in decimal to `s`.
fn push_decimal(s: &mut String, n: u32)
    ensures
        final(s)@ == old(s)@ + decimal(n as nat),
    decreases n,
{
    if n >= 10 {
        push_decimal(s, n / 10);
    }
    let d = n % 10;
    let digit = if d == 0 {
        "0"
    } else if d == 1 {
        "1"
    } else if d == 2 {
        "2"
    } else if d == 3 {
        "3"
    } else if d == 4 {
        "4"
    } else if d == 5 {
        "5"
    } else if d == 6 {
        "6"
    } else if d == 7 {
        "7"
    } else if d == 8 {
        "8"
    } else {
        "9"
    };
    s.append(digit);
    proof {
        if n >= 10 {
            assert(old(s)@ + decimal((n / 10) as nat) + digit_chars(d as nat) =~= old(s)@ + decimal(n as nat));
        } else {
            assert(old(s)@ + digit_chars(d as nat) =~= old(s)@ + decimal(n as nat));
        }
    }
}

impl GraphError {
    /// Wraps the rendered message of a backend error.
    pub fn backend(message: String) -> (r: Self)
        ensures
            r == GraphError::BackendFailure(message),
    {
        GraphError::BackendFailure(message)
    }

    /// The message that describes the error.
    pub fn to_string(&self) -> (r: String)
        ensures
            r@ == error_message(*self),
    {
        match self {
            GraphError::CycleDetected => String::from_str("Graph contains a cycle"),
            GraphError::ResourceNotFound(id) => {
                let mut s = String::from_str("Resource ");
                push_decimal(&mut s, *id);
                s.append(" not found");
                s
            },
            GraphError::MissingLane(d) => {
                let mut s = String::from_str("No lane attached for domain ");
                let name = match d {
                    PassDomain::Graphics => "Graphics",
                    PassDomain::Compute => "Compute",
                    PassDomain::Transfer => "Transfer",
                };
                s.append(name);
                s
            },
            GraphError::BackendFailure(m) => {
                let mut s = String::from_str("Internal rendering backend error: ");
                s.append(m.as_str());
                s
            },
        }
    }
}

} // verus!
