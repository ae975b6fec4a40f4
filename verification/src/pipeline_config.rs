//! Fixed-function pipeline settings and their common presets.
use vstd::prelude::*;

use crate::types::{
    BlendFactor, BlendOp, CompareOp, CullMode, Format, FrontFace, PolygonMode, PrimitiveTopology,
    VertexAttributeDesc, VertexBindingDesc,
};

verus! {

/// Index of a pipeline registered with the pipeline manager.
#[derive(Copy, Clone, Debug, PartialEq, Eq, Hash, Structural)]
pub struct PipelineId(pub u32);

/// Vertex input of a graphics pipeline.
pub struct VertexConfig<'a> {
    pub bindings: &'a [VertexBindingDesc],
    pub attributes: &'a [VertexAttributeDesc],
    pub topology: PrimitiveTopology,
}

/// Rasterizer settings.
pub struct RasterConfig {
    pub cull: CullMode,
    pub front_face: FrontFace,
    pub polygon_mode: PolygonMode,
}

/// Depth test settings.
pub struct DepthConfig {
    pub test: bool,
    pub write: bool,
    pub compare: CompareOp,
}

/// Color and alpha blend equations.
pub struct BlendConfig {
    pub enable: bool,
    pub src_color: BlendFactor,
    pub dst_color: BlendFactor,
    pub color_op: BlendOp,
    pub src_alpha: BlendFactor,
    pub dst_alpha: BlendFactor,
    pub alpha_op: BlendOp,
}

/// Format of the color target.
pub struct RenderTargetConfig {
    pub color_format: Format,
}

/// The blend settings as raw enumerants:
/// `(enable, src_color, dst_color, color_op, src_alpha, dst_alpha, alpha_op)`.
pub open spec fn blend_raw(b: BlendConfig) -> (bool, i32, i32, i32, i32, i32, i32) {
    (b.enable, b.src_color@, b.dst_color@, b.color_op@, b.src_alpha@, b.dst_alpha@, b.alpha_op@)
}

impl BlendConfig {
    /// Blending off: the source replaces the target.
    pub fn opaque() -> (r: Self)
        ensures
            blend_raw(r) == (false, 1i32, 0i32, 0i32, 1i32, 0i32, 0i32),
    {
        BlendConfig {
            enable: false,
            src_color: BlendFactor::ONE(),
            dst_color: BlendFactor::ZERO(),
            color_op: BlendOp::ADD(),
            src_alpha: BlendFactor::ONE(),
            dst_alpha: BlendFactor::ZERO(),
            alpha_op: BlendOp::ADD(),
        }
    }

    /// Classic straight-alpha blending.
    pub fn alpha() -> (r: Self)
        ensures
            blend_raw(r) == (true, 6i32, 7i32, 0i32, 1i32, 7i32, 0i32),
    {
        BlendConfig {
            enable: true,
            src_color: BlendFactor::SRC_ALPHA(),
            dst_color: BlendFactor::ONE_MINUS_SRC_ALPHA(),
            color_op: BlendOp::ADD(),
            src_alpha: BlendFactor::ONE(),
            dst_alpha: BlendFactor::ONE_MINUS_SRC_ALPHA(),
            alpha_op: BlendOp::ADD(),
        }
    }

    /// Additive blending weighted by source alpha.
    pub fn additive() -> (r: Self)
        ensures
            blend_raw(r) == (true, 6i32, 1i32, 0i32, 1i32, 1i32, 0i32),
    {
        BlendConfig {
            enable: true,
            src_color: BlendFactor::SRC_ALPHA(),
            dst_color: BlendFactor::ONE(),
            color_op: BlendOp::ADD(),
            src_alpha: BlendFactor::ONE(),
            dst_alpha: BlendFactor::ONE(),
            alpha_op: BlendOp::ADD(),
        }
    }

    /// Blending of premultiplied-alpha sources.
    pub fn premultiplied() -> (r: Self)
        ensures
            blend_raw(r) == (true, 1i32, 7i32, 0i32, 1i32, 7i32, 0i32),
    {
        BlendConfig {
            enable: true,
            src_color: BlendFactor::ONE(),
            dst_color: BlendFactor::ONE_MINUS_SRC_ALPHA(),
            color_op: BlendOp::ADD(),
            src_alpha: BlendFactor::ONE(),
            dst_alpha: BlendFactor::ONE_MINUS_SRC_ALPHA(),
            alpha_op: BlendOp::ADD(),
        }
    }

    /// Additive color that leaves the target's alpha as it was.
    pub fn additive_preserve_alpha() -> (r: Self)
        ensures
            blend_raw(r) == (true, 6i32, 1i32, 0i32, 0i32, 1i32, 0i32),
    {
        BlendConfig {
            enable: true,
            src_color: BlendFactor::SRC_ALPHA(),
            dst_color: BlendFactor::ONE(),
            color_op: BlendOp::ADD(),
            src_alpha: BlendFactor::ZERO(),
            dst_alpha: BlendFactor::ONE(),
            alpha_op: BlendOp::ADD(),
        }
    }

    /// Additive premultiplied color that leaves the target's alpha as it was.
    pub fn additive_premul() -> (r: Self)
        ensures
            blend_raw(r) == (true, 1i32, 1i32, 0i32, 0i32, 1i32, 0i32),
    {
        BlendConfig {
            enable: true,
            src_color: BlendFactor::ONE(),
            dst_color: BlendFactor::ONE(),
            color_op: BlendOp::ADD(),
            src_alpha: BlendFactor::ZERO(),
            dst_alpha: BlendFactor::ONE(),
            alpha_op: BlendOp::ADD(),
        }
    }
}

impl RasterConfig {
    /// Fill both faces, counter-clockwise front.
    pub fn no_cull() -> (r: Self)
        ensures
            r.cull == CullMode::NoCull,
            r.front_face == FrontFace::CounterClockwise,
            r.polygon_mode@ == 0,
    {
        RasterConfig {
            cull: CullMode::NoCull,
            front_face: FrontFace::CounterClockwise,
            polygon_mode: PolygonMode::FILL(),
        }
    }

    /// Discard back faces, counter-clockwise front, filled.
    pub fn back_cull() -> (r: Self)
        ensures
            r.cull == CullMode::Back,
            r.front_face == FrontFace::CounterClockwise,
            r.polygon_mode@ == 0,
    {
        RasterConfig {
            cull: CullMode::Back,
            front_face: FrontFace::CounterClockwise,
            polygon_mode: PolygonMode::FILL(),
        }
    }
}

impl Default for RasterConfig {
    fn default() -> (r: Self)
        ensures
            r.cull == CullMode::NoCull,
            r.front_face == FrontFace::CounterClockwise,
            r.polygon_mode@ == 0,
    {
        Self::no_cull()
    }
}

impl DepthConfig {
    /// No depth test and no depth write.
    pub fn disabled() -> (r: Self)
        ensures
            !r.test,
            !r.write,
            r.compare@ == 1,
    {
        DepthConfig { test: false, write: false, compare: CompareOp::LESS() }
    }
}

} // verus!
