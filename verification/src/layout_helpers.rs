//! Helpers that derive vertex and push-constant layouts from Rust types.
use vstd::prelude::*;

use crate::pipeline_config::VertexConfig;
use crate::types::{
    Format, PrimitiveTopology, PushConstantRange, ShaderStages, VertexAttributeDesc, VertexBindingDesc,
    VertexInputRate,
};

verus! {

/// Stride of a vertex of type `T`: its size in bytes, as a `u32`.
pub fn vertex_stride<T>() -> (r: u32)
    ensures
        r == vstd::layout::size_of::<T>() as u32,
{
    core::mem::size_of::<T>() as u32
}

/// Number of bytes that `data` occupies.
pub fn data_size<T>(data: &[T]) -> (r: u64)
    requires
        data@.len() * vstd::layout::size_of::<T>() <= usize::MAX,
    ensures
        r == (data@.len() * vstd::layout::size_of::<T>()) as u64,
{
    let n = data.len();
    let s = core::mem::size_of::<T>();
    (n * s) as u64
}

/// Size of a push-constant block of type `T`, as a `u32`.
pub fn push_size<T>() -> (r: u32)
    ensures
        r == vstd::layout::size_of::<T>() as u32,
{
    core::mem::size_of::<T>() as u32
}

/// The union of two shader stage sets.
pub fn shader_stages(a: ShaderStages, b: ShaderStages) -> (r: ShaderStages)
    ensures
        r.0 == a.0 | b.0,
{
    ShaderStages(a.0 | b.0)
}

/// The push-constant range of a block of type `T` at `offset`.
pub fn push_range<T>(stages: ShaderStages, offset: u32) -> (r: PushConstantRange)
    ensures
        r.stages == stages,
        r.offset == offset,
        r.size == vstd::layout::size_of::<T>() as u32,
{
    PushConstantRange { stages, offset, size: push_size::<T>() }
}

/// A vertex binding whose stride is the size of `T`.
pub fn vertex_binding<T>(binding: u32, input_rate: VertexInputRate) -> (r: VertexBindingDesc)
    ensures
        r.binding == binding,
        r.stride == vstd::layout::size_of::<T>() as u32,
        r.input_rate == input_rate,
{
    VertexBindingDesc { binding, stride: vertex_stride::<T>(), input_rate }
}

/// A vertex attribute of binding 0.
pub fn vertex_attr(location: u32, format: Format, offset: u32) -> (r: VertexAttributeDesc)
    ensures
        r.location == location,
        r.binding == 0,
        r.format == format,
        r.offset == offset,
{
    VertexAttributeDesc { location, binding: 0, format, offset }
}

/// The vertex input of a pipeline.
pub fn vertex_config(
    bindings: &'static [VertexBindingDesc],
    attributes: &'static [VertexAttributeDesc],
    topology: PrimitiveTopology,
) -> (r: VertexConfig<'static>)
    ensures
        r.bindings == bindings,
        r.attributes == attributes,
        r.topology == topology,
{
    VertexConfig { bindings, attributes, topology }
}

} // verus!
