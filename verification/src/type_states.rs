//! Zero-sized markers for the states that command buffers, images and
//! descriptor sets go through.
use vstd::prelude::*;

verus! {

/// A command buffer just allocated.
pub struct Initial;

/// A command buffer between begin and end.
pub struct Recording;

/// A command buffer ready to submit.
pub struct Executable;

/// Recording outside a render pass.
pub struct Outside;

/// Recording inside a render pass.
pub struct Inside;

/// An image in an undefined layout.
pub struct Undefined;

/// An image ready to receive a transfer.
pub struct TransferDst;

/// An image ready to be the source of a transfer.
pub struct TransferSrc;

/// An image ready to be rendered into.
pub struct ColorAttachment;

/// An image ready to be a depth/stencil target.
pub struct DepthStencilAttachment;

/// An image ready to be sampled.
pub struct ShaderReadOnly;

/// An image ready to be presented.
pub struct PresentSrc;

/// A buffer bound as a vertex buffer.
pub struct VertexBuffer;

/// A buffer bound as an index buffer.
pub struct IndexBuffer;

/// A buffer read as uniforms by the vertex and fragment stages.
pub struct UniformReadOnly;

/// A buffer read and written by compute shaders.
pub struct StorageReadWrite;

/// A descriptor set not yet allocated.
pub struct Unallocated;

/// A descriptor set allocated and being written.
pub struct Allocated;

/// A descriptor set written and ready to bind.
pub struct Updated;

/// A descriptor set bound to a command buffer.
pub struct Bound;

} // verus!
