//! Plain-value mirrors of the Vulkan types that the renderer passes around:
//! extents and offsets, raw enumerants, and bit-flag sets.
use vstd::prelude::*;

use crate::domain::{Access, Stage};

verus! {

/// Width and height of a 2D region.
#[derive(Debug, Copy, Clone, PartialEq, Eq, Hash, Structural)]
pub struct Extent2D {
    width: u32,
    height: u32,
}

/// Width, height and depth of a 3D region.
#[derive(Debug, Copy, Clone, PartialEq, Eq, Hash, Structural)]
pub struct Extent3D {
    width: u32,
    height: u32,
    depth: u32,
}

/// Signed 2D offset.
#[derive(Debug, Copy, Clone, PartialEq, Eq, Hash, Structural)]
pub struct Offset2D {
    x: i32,
    y: i32,
}

impl View for Extent2D {
    type V = (u32, u32);

    closed spec fn view(&self) -> (u32, u32) {
        (self.width, self.height)
    }
}

impl View for Extent3D {
    type V = (u32, u32, u32);

    closed spec fn view(&self) -> (u32, u32, u32) {
        (self.width, self.height, self.depth)
    }
}

impl View for Offset2D {
    type V = (i32, i32);

    closed spec fn view(&self) -> (i32, i32) {
        (self.x, self.y)
    }
}

/// Raw Vulkan format enumerant.
#[derive(Clone, Copy, Debug, PartialEq, Eq, Hash, Structural)]
pub struct Format(pub i32);

impl Format {
    #[allow(non_snake_case)]
    pub fn UNDEFINED() -> (r: Self)
        ensures
            r.0 == 0,
    {
        Format(0)
    }

    #[allow(non_snake_case)]
    pub fn R8_UNORM() -> (r: Self)
        ensures
            r.0 == 9,
    {
        Format(9)
    }

    #[allow(non_snake_case)]
    pub fn R8G8B8A8_UNORM() -> (r: Self)
        ensures
            r.0 == 37,
    {
        Format(37)
    }

    #[allow(non_snake_case)]
    pub fn B8G8R8A8_UNORM() -> (r: Self)
        ensures
            r.0 == 44,
    {
        Format(44)
    }

    #[allow(non_snake_case)]
    pub fn B8G8R8A8_SRGB() -> (r: Self)
        ensures
            r.0 == 50,
    {
        Format(50)
    }

    #[allow(non_snake_case)]
    pub fn R32_SFLOAT() -> (r: Self)
        ensures
            r.0 == 100,
    {
        Format(100)
    }

    #[allow(non_snake_case)]
    pub fn R32G32_SFLOAT() -> (r: Self)
        ensures
            r.0 == 103,
    {
        Format(103)
    }

    #[allow(non_snake_case)]
    pub fn R32G32B32_SFLOAT() -> (r: Self)
        ensures
            r.0 == 106,
    {
        Format(106)
    }

    #[allow(non_snake_case)]
    pub fn R32G32B32A32_SFLOAT() -> (r: Self)
        ensures
            r.0 == 109,
    {
        Format(109)
    }

    #[allow(non_snake_case)]
    pub fn D32_SFLOAT() -> (r: Self)
        ensures
            r.0 == 126,
    {
        Format(126)
    }

    #[allow(non_snake_case)]
    pub fn D24_UNORM_S8_UINT() -> (r: Self)
        ensures
            r.0 == 129,
    {
        Format(129)
    }
}


/// Index width of an index buffer. Holds the raw Vulkan enumerant.
#[derive(Debug, Copy, Clone, PartialEq, Eq, Structural)]
pub struct IndexType(pub(crate) i32);

impl View for IndexType {
    type V = i32;

    closed spec fn view(&self) -> i32 {
        self.0
    }
}

impl IndexType {
    /// The value holding raw enumerant `x`.
    pub closed spec fn spec_raw(x: i32) -> Self {
        IndexType(x)
    }

    pub proof fn lemma_spec_raw(x: i32)
        ensures
            Self::spec_raw(x)@ == x,
    {
    }

    pub fn from_raw(x: i32) -> (r: Self)
        ensures
            r@ == x,
            r == Self::spec_raw(x),
    {
        IndexType(x)
    }

    pub fn as_raw(self) -> (r: i32)
        ensures
            r == self@,
    {
        self.0
    }

    #[allow(non_snake_case)]
    pub fn U16() -> (r: Self)
        ensures
            r@ == 0,
            r == Self::spec_raw(0),
    {
        IndexType(0)
    }

    #[allow(non_snake_case)]
    pub fn U32() -> (r: Self)
        ensures
            r@ == 1,
            r == Self::spec_raw(1),
    {
        IndexType(1)
    }
}

/// Pipeline bind point. Holds the raw Vulkan enumerant.
#[derive(Debug, Copy, Clone, PartialEq, Eq, Structural)]
pub struct PipelineBindPoint(pub(crate) i32);

impl View for PipelineBindPoint {
    type V = i32;

    closed spec fn view(&self) -> i32 {
        self.0
    }
}

impl PipelineBindPoint {
    /// The value holding raw enumerant `x`.
    pub closed spec fn spec_raw(x: i32) -> Self {
        PipelineBindPoint(x)
    }

    pub proof fn lemma_spec_raw(x: i32)
        ensures
            Self::spec_raw(x)@ == x,
    {
    }

    pub fn from_raw(x: i32) -> (r: Self)
        ensures
            r@ == x,
            r == Self::spec_raw(x),
    {
        PipelineBindPoint(x)
    }

    pub fn as_raw(self) -> (r: i32)
        ensures
            r == self@,
    {
        self.0
    }

    #[allow(non_snake_case)]
    pub fn GRAPHICS() -> (r: Self)
        ensures
            r@ == 0,
            r == Self::spec_raw(0),
    {
        PipelineBindPoint(0)
    }

    #[allow(non_snake_case)]
    pub fn COMPUTE() -> (r: Self)
        ensures
            r@ == 1,
            r == Self::spec_raw(1),
    {
        PipelineBindPoint(1)
    }
}

/// Texel filter of a sampler. Holds the raw Vulkan enumerant.
#[derive(Debug, Copy, Clone, PartialEq, Eq, Structural)]
pub struct Filter(pub(crate) i32);

impl View for Filter {
    type V = i32;

    closed spec fn view(&self) -> i32 {
        self.0
    }
}

impl Filter {
    /// The value holding raw value `x`.
    pub closed spec fn spec_raw(x: i32) -> Self {
        Filter(x)
    }

    pub proof fn lemma_spec_raw(x: i32)
        ensures
            Self::spec_raw(x)@ == x,
    {
    }

    pub fn from_raw(x: i32) -> (r: Self)
        ensures
            r@ == x,
            r == Self::spec_raw(x),
    {
        Filter(x)
    }

    pub fn as_raw(self) -> (r: i32)
        ensures
            r == self@,
    {
        self.0
    }

    #[allow(non_snake_case)]
    pub fn NEAREST() -> (r: Self)
        ensures
            r@ == 0,
            r == Self::spec_raw(0),
    {
        Filter(0)
    }

    #[allow(non_snake_case)]
    pub fn LINEAR() -> (r: Self)
        ensures
            r@ == 1,
            r == Self::spec_raw(1),
    {
        Filter(1)
    }
}

/// Addressing mode of a sampler outside the texture. Holds the raw Vulkan enumerant.
#[derive(Debug, Copy, Clone, PartialEq, Eq, Structural)]
pub struct SamplerAddressMode(pub(crate) i32);

impl View for SamplerAddressMode {
    type V = i32;

    closed spec fn view(&self) -> i32 {
        self.0
    }
}

impl SamplerAddressMode {
    /// The value holding raw value `x`.
    pub closed spec fn spec_raw(x: i32) -> Self {
        SamplerAddressMode(x)
    }

    pub proof fn lemma_spec_raw(x: i32)
        ensures
            Self::spec_raw(x)@ == x,
    {
    }

    pub fn from_raw(x: i32) -> (r: Self)
        ensures
            r@ == x,
            r == Self::spec_raw(x),
    {
        SamplerAddressMode(x)
    }

    pub fn as_raw(self) -> (r: i32)
        ensures
            r == self@,
    {
        self.0
    }

    #[allow(non_snake_case)]
    pub fn REPEAT() -> (r: Self)
        ensures
            r@ == 0,
            r == Self::spec_raw(0),
    {
        SamplerAddressMode(0)
    }

    #[allow(non_snake_case)]
    pub fn MIRRORED_REPEAT() -> (r: Self)
        ensures
            r@ == 1,
            r == Self::spec_raw(1),
    {
        SamplerAddressMode(1)
    }

    #[allow(non_snake_case)]
    pub fn CLAMP_TO_EDGE() -> (r: Self)
        ensures
            r@ == 2,
            r == Self::spec_raw(2),
    {
        SamplerAddressMode(2)
    }

    #[allow(non_snake_case)]
    pub fn CLAMP_TO_BORDER() -> (r: Self)
        ensures
            r@ == 3,
            r == Self::spec_raw(3),
    {
        SamplerAddressMode(3)
    }
}

/// Polygon rasterization mode. Holds the raw Vulkan enumerant.
#[derive(Debug, Copy, Clone, PartialEq, Eq, Structural)]
pub struct PolygonMode(pub(crate) i32);

impl View for PolygonMode {
    type V = i32;

    closed spec fn view(&self) -> i32 {
        self.0
    }
}

impl PolygonMode {
    /// The value holding raw value `x`.
    pub closed spec fn spec_raw(x: i32) -> Self {
        PolygonMode(x)
    }

    pub proof fn lemma_spec_raw(x: i32)
        ensures
            Self::spec_raw(x)@ == x,
    {
    }

    pub fn from_raw(x: i32) -> (r: Self)
        ensures
            r@ == x,
            r == Self::spec_raw(x),
    {
        PolygonMode(x)
    }

    pub fn as_raw(self) -> (r: i32)
        ensures
            r == self@,
    {
        self.0
    }

    #[allow(non_snake_case)]
    pub fn FILL() -> (r: Self)
        ensures
            r@ == 0,
            r == Self::spec_raw(0),
    {
        PolygonMode(0)
    }

    #[allow(non_snake_case)]
    pub fn LINE() -> (r: Self)
        ensures
            r@ == 1,
            r == Self::spec_raw(1),
    {
        PolygonMode(1)
    }

    #[allow(non_snake_case)]
    pub fn POINT() -> (r: Self)
        ensures
            r@ == 2,
            r == Self::spec_raw(2),
    {
        PolygonMode(2)
    }
}

/// Primitive assembly topology. Holds the raw Vulkan enumerant.
#[derive(Debug, Copy, Clone, PartialEq, Eq, Structural)]
pub struct PrimitiveTopology(pub(crate) i32);

impl View for PrimitiveTopology {
    type V = i32;

    closed spec fn view(&self) -> i32 {
        self.0
    }
}

impl PrimitiveTopology {
    /// The value holding raw value `x`.
    pub closed spec fn spec_raw(x: i32) -> Self {
        PrimitiveTopology(x)
    }

    pub proof fn lemma_spec_raw(x: i32)
        ensures
            Self::spec_raw(x)@ == x,
    {
    }

    pub fn from_raw(x: i32) -> (r: Self)
        ensures
            r@ == x,
            r == Self::spec_raw(x),
    {
        PrimitiveTopology(x)
    }

    pub fn as_raw(self) -> (r: i32)
        ensures
            r == self@,
    {
        self.0
    }

    #[allow(non_snake_case)]
    pub fn POINT_LIST() -> (r: Self)
        ensures
            r@ == 0,
            r == Self::spec_raw(0),
    {
        PrimitiveTopology(0)
    }

    #[allow(non_snake_case)]
    pub fn LINE_LIST() -> (r: Self)
        ensures
            r@ == 1,
            r == Self::spec_raw(1),
    {
        PrimitiveTopology(1)
    }

    #[allow(non_snake_case)]
    pub fn LINE_STRIP() -> (r: Self)
        ensures
            r@ == 2,
            r == Self::spec_raw(2),
    {
        PrimitiveTopology(2)
    }

    #[allow(non_snake_case)]
    pub fn TRIANGLE_LIST() -> (r: Self)
        ensures
            r@ == 3,
            r == Self::spec_raw(3),
    {
        PrimitiveTopology(3)
    }

    #[allow(non_snake_case)]
    pub fn TRIANGLE_STRIP() -> (r: Self)
        ensures
            r@ == 4,
            r == Self::spec_raw(4),
    {
        PrimitiveTopology(4)
    }

    #[allow(non_snake_case)]
    pub fn TRIANGLE_FAN() -> (r: Self)
        ensures
            r@ == 5,
            r == Self::spec_raw(5),
    {
        PrimitiveTopology(5)
    }

    #[allow(non_snake_case)]
    pub fn LINE_LIST_WITH_ADJACENCY() -> (r: Self)
        ensures
            r@ == 6,
            r == Self::spec_raw(6),
    {
        PrimitiveTopology(6)
    }

    #[allow(non_snake_case)]
    pub fn LINE_STRIP_WITH_ADJACENCY() -> (r: Self)
        ensures
            r@ == 7,
            r == Self::spec_raw(7),
    {
        PrimitiveTopology(7)
    }

    #[allow(non_snake_case)]
    pub fn TRIANGLE_LIST_WITH_ADJACENCY() -> (r: Self)
        ensures
            r@ == 8,
            r == Self::spec_raw(8),
    {
        PrimitiveTopology(8)
    }

    #[allow(non_snake_case)]
    pub fn TRIANGLE_STRIP_WITH_ADJACENCY() -> (r: Self)
        ensures
            r@ == 9,
            r == Self::spec_raw(9),
    {
        PrimitiveTopology(9)
    }

    #[allow(non_snake_case)]
    pub fn PATCH_LIST() -> (r: Self)
        ensures
            r@ == 10,
            r == Self::spec_raw(10),
    {
        PrimitiveTopology(10)
    }
}

/// Comparison operator of a depth or sampler test. Holds the raw Vulkan enumerant.
#[derive(Debug, Copy, Clone, PartialEq, Eq, Structural)]
pub struct CompareOp(pub(crate) i32);

impl View for CompareOp {
    type V = i32;

    closed spec fn view(&self) -> i32 {
        self.0
    }
}

impl CompareOp {
    /// The value holding raw value `x`.
    pub closed spec fn spec_raw(x: i32) -> Self {
        CompareOp(x)
    }

    pub proof fn lemma_spec_raw(x: i32)
        ensures
            Self::spec_raw(x)@ == x,
    {
    }

    pub fn from_raw(x: i32) -> (r: Self)
        ensures
            r@ == x,
            r == Self::spec_raw(x),
    {
        CompareOp(x)
    }

    pub fn as_raw(self) -> (r: i32)
        ensures
            r == self@,
    {
        self.0
    }

    #[allow(non_snake_case)]
    pub fn NEVER() -> (r: Self)
        ensures
            r@ == 0,
            r == Self::spec_raw(0),
    {
        CompareOp(0)
    }

    #[allow(non_snake_case)]
    pub fn LESS() -> (r: Self)
        ensures
            r@ == 1,
            r == Self::spec_raw(1),
    {
        CompareOp(1)
    }

    #[allow(non_snake_case)]
    pub fn EQUAL() -> (r: Self)
        ensures
            r@ == 2,
            r == Self::spec_raw(2),
    {
        CompareOp(2)
    }

    #[allow(non_snake_case)]
    pub fn LESS_OR_EQUAL() -> (r: Self)
        ensures
            r@ == 3,
            r == Self::spec_raw(3),
    {
        CompareOp(3)
    }

    #[allow(non_snake_case)]
    pub fn GREATER() -> (r: Self)
        ensures
            r@ == 4,
            r == Self::spec_raw(4),
    {
        CompareOp(4)
    }

    #[allow(non_snake_case)]
    pub fn NOT_EQUAL() -> (r: Self)
        ensures
            r@ == 5,
            r == Self::spec_raw(5),
    {
        CompareOp(5)
    }

    #[allow(non_snake_case)]
    pub fn GREATER_OR_EQUAL() -> (r: Self)
        ensures
            r@ == 6,
            r == Self::spec_raw(6),
    {
        CompareOp(6)
    }

    #[allow(non_snake_case)]
    pub fn ALWAYS() -> (r: Self)
        ensures
            r@ == 7,
            r == Self::spec_raw(7),
    {
        CompareOp(7)
    }
}

/// Factor of a blend equation. Holds the raw Vulkan enumerant.
#[derive(Debug, Copy, Clone, PartialEq, Eq, Structural)]
pub struct BlendFactor(pub(crate) i32);

impl View for BlendFactor {
    type V = i32;

    closed spec fn view(&self) -> i32 {
        self.0
    }
}

impl BlendFactor {
    /// The value holding raw value `x`.
    pub closed spec fn spec_raw(x: i32) -> Self {
        BlendFactor(x)
    }

    pub proof fn lemma_spec_raw(x: i32)
        ensures
            Self::spec_raw(x)@ == x,
    {
    }

    pub fn from_raw(x: i32) -> (r: Self)
        ensures
            r@ == x,
            r == Self::spec_raw(x),
    {
        BlendFactor(x)
    }

    pub fn as_raw(self) -> (r: i32)
        ensures
            r == self@,
    {
        self.0
    }

    #[allow(non_snake_case)]
    pub fn ZERO() -> (r: Self)
        ensures
            r@ == 0,
            r == Self::spec_raw(0),
    {
        BlendFactor(0)
    }

    #[allow(non_snake_case)]
    pub fn ONE() -> (r: Self)
        ensures
            r@ == 1,
            r == Self::spec_raw(1),
    {
        BlendFactor(1)
    }

    #[allow(non_snake_case)]
    pub fn SRC_COLOR() -> (r: Self)
        ensures
            r@ == 2,
            r == Self::spec_raw(2),
    {
        BlendFactor(2)
    }

    #[allow(non_snake_case)]
    pub fn ONE_MINUS_SRC_COLOR() -> (r: Self)
        ensures
            r@ == 3,
            r == Self::spec_raw(3),
    {
        BlendFactor(3)
    }

    #[allow(non_snake_case)]
    pub fn DST_COLOR() -> (r: Self)
        ensures
            r@ == 4,
            r == Self::spec_raw(4),
    {
        BlendFactor(4)
    }

    #[allow(non_snake_case)]
    pub fn ONE_MINUS_DST_COLOR() -> (r: Self)
        ensures
            r@ == 5,
            r == Self::spec_raw(5),
    {
        BlendFactor(5)
    }

    #[allow(non_snake_case)]
    pub fn SRC_ALPHA() -> (r: Self)
        ensures
            r@ == 6,
            r == Self::spec_raw(6),
    {
        BlendFactor(6)
    }

    #[allow(non_snake_case)]
    pub fn ONE_MINUS_SRC_ALPHA() -> (r: Self)
        ensures
            r@ == 7,
            r == Self::spec_raw(7),
    {
        BlendFactor(7)
    }

    #[allow(non_snake_case)]
    pub fn DST_ALPHA() -> (r: Self)
        ensures
            r@ == 8,
            r == Self::spec_raw(8),
    {
        BlendFactor(8)
    }

    #[allow(non_snake_case)]
    pub fn ONE_MINUS_DST_ALPHA() -> (r: Self)
        ensures
            r@ == 9,
            r == Self::spec_raw(9),
    {
        BlendFactor(9)
    }

    #[allow(non_snake_case)]
    pub fn CONSTANT_COLOR() -> (r: Self)
        ensures
            r@ == 10,
            r == Self::spec_raw(10),
    {
        BlendFactor(10)
    }

    #[allow(non_snake_case)]
    pub fn ONE_MINUS_CONSTANT_COLOR() -> (r: Self)
        ensures
            r@ == 11,
            r == Self::spec_raw(11),
    {
        BlendFactor(11)
    }

    #[allow(non_snake_case)]
    pub fn CONSTANT_ALPHA() -> (r: Self)
        ensures
            r@ == 12,
            r == Self::spec_raw(12),
    {
        BlendFactor(12)
    }

    #[allow(non_snake_case)]
    pub fn ONE_MINUS_CONSTANT_ALPHA() -> (r: Self)
        ensures
            r@ == 13,
            r == Self::spec_raw(13),
    {
        BlendFactor(13)
    }

    #[allow(non_snake_case)]
    pub fn SRC_ALPHA_SATURATE() -> (r: Self)
        ensures
            r@ == 14,
            r == Self::spec_raw(14),
    {
        BlendFactor(14)
    }

    #[allow(non_snake_case)]
    pub fn SRC1_COLOR() -> (r: Self)
        ensures
            r@ == 15,
            r == Self::spec_raw(15),
    {
        BlendFactor(15)
    }

    #[allow(non_snake_case)]
    pub fn ONE_MINUS_SRC1_COLOR() -> (r: Self)
        ensures
            r@ == 16,
            r == Self::spec_raw(16),
    {
        BlendFactor(16)
    }

    #[allow(non_snake_case)]
    pub fn SRC1_ALPHA() -> (r: Self)
        ensures
            r@ == 17,
            r == Self::spec_raw(17),
    {
        BlendFactor(17)
    }

    #[allow(non_snake_case)]
    pub fn ONE_MINUS_SRC1_ALPHA() -> (r: Self)
        ensures
            r@ == 18,
            r == Self::spec_raw(18),
    {
        BlendFactor(18)
    }
}

/// Operator of a blend equation. Holds the raw Vulkan enumerant.
#[derive(Debug, Copy, Clone, PartialEq, Eq, Structural)]
pub struct BlendOp(pub(crate) i32);

impl View for BlendOp {
    type V = i32;

    closed spec fn view(&self) -> i32 {
        self.0
    }
}

impl BlendOp {
    /// The value holding raw value `x`.
    pub closed spec fn spec_raw(x: i32) -> Self {
        BlendOp(x)
    }

    pub proof fn lemma_spec_raw(x: i32)
        ensures
            Self::spec_raw(x)@ == x,
    {
    }

    pub fn from_raw(x: i32) -> (r: Self)
        ensures
            r@ == x,
            r == Self::spec_raw(x),
    {
        BlendOp(x)
    }

    pub fn as_raw(self) -> (r: i32)
        ensures
            r == self@,
    {
        self.0
    }

    #[allow(non_snake_case)]
    pub fn ADD() -> (r: Self)
        ensures
            r@ == 0,
            r == Self::spec_raw(0),
    {
        BlendOp(0)
    }

    #[allow(non_snake_case)]
    pub fn SUBTRACT() -> (r: Self)
        ensures
            r@ == 1,
            r == Self::spec_raw(1),
    {
        BlendOp(1)
    }

    #[allow(non_snake_case)]
    pub fn REVERSE_SUBTRACT() -> (r: Self)
        ensures
            r@ == 2,
            r == Self::spec_raw(2),
    {
        BlendOp(2)
    }

    #[allow(non_snake_case)]
    pub fn MIN() -> (r: Self)
        ensures
            r@ == 3,
            r == Self::spec_raw(3),
    {
        BlendOp(3)
    }

    #[allow(non_snake_case)]
    pub fn MAX() -> (r: Self)
        ensures
            r@ == 4,
            r == Self::spec_raw(4),
    {
        BlendOp(4)
    }
}

/// Whether a vertex binding advances per vertex or per instance. Holds the raw Vulkan enumerant.
#[derive(Debug, Copy, Clone, PartialEq, Eq, Structural)]
pub struct VertexInputRate(pub(crate) i32);

impl View for VertexInputRate {
    type V = i32;

    closed spec fn view(&self) -> i32 {
        self.0
    }
}

impl VertexInputRate {
    /// The value holding raw value `x`.
    pub closed spec fn spec_raw(x: i32) -> Self {
        VertexInputRate(x)
    }

    pub proof fn lemma_spec_raw(x: i32)
        ensures
            Self::spec_raw(x)@ == x,
    {
    }

    pub fn from_raw(x: i32) -> (r: Self)
        ensures
            r@ == x,
            r == Self::spec_raw(x),
    {
        VertexInputRate(x)
    }

    pub fn as_raw(self) -> (r: i32)
        ensures
            r == self@,
    {
        self.0
    }

    #[allow(non_snake_case)]
    pub fn VERTEX() -> (r: Self)
        ensures
            r@ == 0,
            r == Self::spec_raw(0),
    {
        VertexInputRate(0)
    }

    #[allow(non_snake_case)]
    pub fn INSTANCE() -> (r: Self)
        ensures
            r@ == 1,
            r == Self::spec_raw(1),
    {
        VertexInputRate(1)
    }
}

/// Sharing mode of a resource between queue families.
#[derive(Debug, Copy, Clone, PartialEq, Eq, Structural)]
pub enum SharingMode {
    Exclusive,
}

/// Aspect of an image that a view or barrier addresses.
#[derive(Debug, Copy, Clone, PartialEq, Eq, Structural)]
pub enum ImageAspect {
    Color,
    Depth,
    Stencil,
    DepthStencil,
}

/// Kind of a descriptor.
#[derive(Clone, Copy, Debug, PartialEq, Eq, Hash, Structural)]
pub enum DescriptorType {
    Sampler,
    CombinedImageSampler,
    SampledImage,
    StorageImage,
    UniformTexelBuffer,
    StorageTexelBuffer,
    UniformBuffer,
    StorageBuffer,
    UniformBufferDynamic,
    StorageBufferDynamic,
    InputAttachment,
}

/// Which faces the rasterizer discards.
#[derive(Debug, Copy, Clone, PartialEq, Eq, Structural)]
pub enum CullMode {
    NoCull,
    Front,
    Back,
    FrontAndBack,
}

/// Winding order of front-facing triangles.
#[derive(Debug, Copy, Clone, PartialEq, Eq, Structural)]
pub enum FrontFace {
    CounterClockwise,
    Clockwise,
}

/// One vertex buffer binding of a pipeline.
#[derive(Debug, Copy, Clone)]
pub struct VertexBindingDesc {
    pub binding: u32,
    pub stride: u32,
    pub input_rate: VertexInputRate,
}

/// One vertex attribute of a pipeline.
#[derive(Debug, Copy, Clone)]
pub struct VertexAttributeDesc {
    pub location: u32,
    pub binding: u32,
    pub format: Format,
    pub offset: u32,
}


/// Shader stage bits.
#[derive(Debug, Copy, Clone, PartialEq, Eq, Hash, Structural)]
pub struct ShaderStages(pub u64);

impl ShaderStages {
    #[allow(non_snake_case)]
    pub fn VERTEX() -> (r: Self)
        ensures
            r.0 == 1,
    {
        ShaderStages(1)
    }

    #[allow(non_snake_case)]
    pub fn FRAGMENT() -> (r: Self)
        ensures
            r.0 == 2,
    {
        ShaderStages(2)
    }

    #[allow(non_snake_case)]
    pub fn COMPUTE() -> (r: Self)
        ensures
            r.0 == 4,
    {
        ShaderStages(4)
    }

    #[allow(non_snake_case)]
    pub fn ALL_GRAPHICS() -> (r: Self)
        ensures
            r.0 == 3,
    {
        ShaderStages(3)
    }

    #[allow(non_snake_case)]
    pub fn ALL() -> (r: Self)
        ensures
            r.0 == 7,
    {
        ShaderStages(7)
    }
}

impl vstd::std_specs::ops::BitOrSpecImpl for ShaderStages {
    open spec fn obeys_bitor_spec() -> bool {
        true
    }

    open spec fn bitor_req(self, rhs: ShaderStages) -> bool {
        true
    }

    open spec fn bitor_spec(self, rhs: ShaderStages) -> ShaderStages {
        ShaderStages(self.0 | rhs.0)
    }
}

impl core::ops::BitOr for ShaderStages {
    type Output = Self;

    fn bitor(self, rhs: Self) -> (r: Self)
        ensures
            r.0 == self.0 | rhs.0,
    {
        ShaderStages(self.0 | rhs.0)
    }
}

/// Buffer usage bits.
#[derive(Debug, Copy, Clone, PartialEq, Eq, Hash, Structural)]
pub struct BufferUsage(pub u64);

impl BufferUsage {
    #[allow(non_snake_case)]
    pub fn TRANSFER_SRC() -> (r: Self)
        ensures
            r.0 == 0x0001,
    {
        BufferUsage(0x0001)
    }

    #[allow(non_snake_case)]
    pub fn TRANSFER_DST() -> (r: Self)
        ensures
            r.0 == 0x0002,
    {
        BufferUsage(0x0002)
    }

    #[allow(non_snake_case)]
    pub fn UNIFORM() -> (r: Self)
        ensures
            r.0 == 0x0010,
    {
        BufferUsage(0x0010)
    }

    #[allow(non_snake_case)]
    pub fn STORAGE() -> (r: Self)
        ensures
            r.0 == 0x0020,
    {
        BufferUsage(0x0020)
    }

    #[allow(non_snake_case)]
    pub fn INDEX() -> (r: Self)
        ensures
            r.0 == 0x0040,
    {
        BufferUsage(0x0040)
    }

    #[allow(non_snake_case)]
    pub fn VERTEX() -> (r: Self)
        ensures
            r.0 == 0x0080,
    {
        BufferUsage(0x0080)
    }

    #[allow(non_snake_case)]
    pub fn INDIRECT() -> (r: Self)
        ensures
            r.0 == 0x0100,
    {
        BufferUsage(0x0100)
    }
}

impl vstd::std_specs::ops::BitOrSpecImpl for BufferUsage {
    open spec fn obeys_bitor_spec() -> bool {
        true
    }

    open spec fn bitor_req(self, rhs: BufferUsage) -> bool {
        true
    }

    open spec fn bitor_spec(self, rhs: BufferUsage) -> BufferUsage {
        BufferUsage(self.0 | rhs.0)
    }
}

impl core::ops::BitOr for BufferUsage {
    type Output = Self;

    fn bitor(self, rhs: Self) -> (r: Self)
        ensures
            r.0 == self.0 | rhs.0,
    {
        BufferUsage(self.0 | rhs.0)
    }
}

/// Image usage bits.
#[derive(Debug, Copy, Clone, PartialEq, Eq, Hash, Structural)]
pub struct ImageUsage(pub u64);

impl ImageUsage {
    #[allow(non_snake_case)]
    pub fn TRANSFER_SRC() -> (r: Self)
        ensures
            r.0 == 1,
    {
        ImageUsage(1)
    }

    #[allow(non_snake_case)]
    pub fn TRANSFER_DST() -> (r: Self)
        ensures
            r.0 == 2,
    {
        ImageUsage(2)
    }

    #[allow(non_snake_case)]
    pub fn SAMPLED() -> (r: Self)
        ensures
            r.0 == 4,
    {
        ImageUsage(4)
    }

    #[allow(non_snake_case)]
    pub fn STORAGE() -> (r: Self)
        ensures
            r.0 == 8,
    {
        ImageUsage(8)
    }

    #[allow(non_snake_case)]
    pub fn COLOR_ATTACHMENT() -> (r: Self)
        ensures
            r.0 == 16,
    {
        ImageUsage(16)
    }

    #[allow(non_snake_case)]
    pub fn DEPTH_STENCIL() -> (r: Self)
        ensures
            r.0 == 32,
    {
        ImageUsage(32)
    }
}

impl vstd::std_specs::ops::BitOrSpecImpl for ImageUsage {
    open spec fn obeys_bitor_spec() -> bool {
        true
    }

    open spec fn bitor_req(self, rhs: ImageUsage) -> bool {
        true
    }

    open spec fn bitor_spec(self, rhs: ImageUsage) -> ImageUsage {
        ImageUsage(self.0 | rhs.0)
    }
}

impl core::ops::BitOr for ImageUsage {
    type Output = Self;

    fn bitor(self, rhs: Self) -> (r: Self)
        ensures
            r.0 == self.0 | rhs.0,
    {
        ImageUsage(self.0 | rhs.0)
    }
}

/// Command pool creation bits.
#[derive(Debug, Copy, Clone, PartialEq, Eq, Hash, Structural)]
pub struct CommandPoolFlags(pub u64);

impl CommandPoolFlags {
    #[allow(non_snake_case)]
    pub fn TRANSIENT() -> (r: Self)
        ensures
            r.0 == 1,
    {
        CommandPoolFlags(1)
    }

    #[allow(non_snake_case)]
    pub fn RESET_COMMAND_BUFFER() -> (r: Self)
        ensures
            r.0 == 2,
    {
        CommandPoolFlags(2)
    }
}

impl vstd::std_specs::ops::BitOrSpecImpl for CommandPoolFlags {
    open spec fn obeys_bitor_spec() -> bool {
        true
    }

    open spec fn bitor_req(self, rhs: CommandPoolFlags) -> bool {
        true
    }

    open spec fn bitor_spec(self, rhs: CommandPoolFlags) -> CommandPoolFlags {
        CommandPoolFlags(self.0 | rhs.0)
    }
}

impl core::ops::BitOr for CommandPoolFlags {
    type Output = Self;

    fn bitor(self, rhs: Self) -> (r: Self)
        ensures
            r.0 == self.0 | rhs.0,
    {
        CommandPoolFlags(self.0 | rhs.0)
    }
}

/// Size, alignment and allowed memory types of a resource.
#[derive(Clone, Copy)]
pub struct MemoryRequirements {
    pub size: u64,
    pub alignment: u64,
    pub memory_type_bits: u32,
}

/// A push-constant range of a pipeline layout.
#[derive(Debug, Copy, Clone)]
pub struct PushConstantRange {
    pub stages: ShaderStages,
    pub offset: u32,
    pub size: u32,
}

impl PushConstantRange {
    pub fn stages(&self) -> (r: ShaderStages)
        ensures
            r == self.stages,
    {
        self.stages
    }

    pub fn offset(&self) -> (r: u32)
        ensures
            r == self.offset,
    {
        self.offset
    }

    pub fn size(&self) -> (r: u32)
        ensures
            r == self.size,
    {
        self.size
    }
}

/// One binding of a descriptor set layout.
#[derive(Debug, Copy, Clone)]
pub struct DescriptorBinding {
    pub binding: u32,
    pub descriptor_type: DescriptorType,
    pub count: u32,
    pub stages: ShaderStages,
}

/// How many descriptors of one type a pool holds.
#[derive(Debug, Copy, Clone)]
pub struct DescriptorPoolSize {
    pub descriptor_type: DescriptorType,
    pub count: u32,
}

/// Queue family index meaning "no ownership transfer".
pub const QUEUE_FAMILY_IGNORED: u32 = 0xffff_ffffu32;

/// A rectangle: an offset and an extent.
#[derive(Clone, Copy, Debug)]
pub struct Rect2D {
    offset: Offset2D,
    extent: Extent2D,
}

impl View for Rect2D {
    /// `(x, y, width, height)`
    type V = (i32, i32, u32, u32);

    closed spec fn view(&self) -> (i32, i32, u32, u32) {
        (self.offset@.0, self.offset@.1, self.extent@.0, self.extent@.1)
    }
}

impl Offset2D {
    pub fn new(x: i32, y: i32) -> (r: Self)
        ensures
            r@ == (x, y),
    {
        Offset2D { x, y }
    }

    pub fn x(&self) -> (r: i32)
        ensures
            r == self@.0,
    {
        self.x
    }

    pub fn y(&self) -> (r: i32)
        ensures
            r == self@.1,
    {
        self.y
    }

    pub fn set_x(&mut self, x: i32)
        ensures
            final(self)@ == (x, old(self)@.1),
    {
        self.x = x;
    }

    pub fn set_y(&mut self, y: i32)
        ensures
            final(self)@ == (old(self)@.0, y),
    {
        self.y = y;
    }

    /// Moves the offset by `(dx, dy)`.
    pub fn translate(&mut self, dx: i32, dy: i32)
        requires
            i32::MIN <= old(self)@.0 + dx <= i32::MAX,
            i32::MIN <= old(self)@.1 + dy <= i32::MAX,
        ensures
            final(self)@.0 == old(self)@.0 + dx,
            final(self)@.1 == old(self)@.1 + dy,
    {
        self.x = self.x + dx;
        self.y = self.y + dy;
    }

    pub fn is_origin(&self) -> (r: bool)
        ensures
            r == (self@.0 == 0 && self@.1 == 0),
    {
        self.x == 0 && self.y == 0
    }
}

impl Extent2D {
    pub fn new(width: u32, height: u32) -> (r: Self)
        ensures
            r@ == (width, height),
    {
        Extent2D { width, height }
    }

    pub fn width(&self) -> (r: u32)
        ensures
            r == self@.0,
    {
        self.width
    }

    pub fn height(&self) -> (r: u32)
        ensures
            r == self@.1,
    {
        self.height
    }

    pub fn set_width(&mut self, width: u32)
        ensures
            final(self)@ == (width, old(self)@.1),
    {
        self.width = width;
    }

    pub fn set_height(&mut self, height: u32)
        ensures
            final(self)@ == (old(self)@.0, height),
    {
        self.height = height;
    }

    /// Number of texels covered.
    pub fn area(&self) -> (r: u32)
        requires
            self@.0 * self@.1 <= u32::MAX,
        ensures
            r == self@.0 * self@.1,
    {
        self.width * self.height
    }

    /// True when either side is zero.
    pub fn is_zero(&self) -> (r: bool)
        ensures
            r == (self@.0 == 0 || self@.1 == 0),
    {
        self.width == 0 || self.height == 0
    }
}

impl Rect2D {
    pub fn new(offset: Offset2D, extent: Extent2D) -> (r: Self)
        ensures
            r@ == (offset@.0, offset@.1, extent@.0, extent@.1),
    {
        Rect2D { offset, extent }
    }

    pub fn offset(&self) -> (r: Offset2D)
        ensures
            r@ == (self@.0, self@.1),
    {
        self.offset
    }

    pub fn extent(&self) -> (r: Extent2D)
        ensures
            r@ == (self@.2, self@.3),
    {
        self.extent
    }

    pub fn set_offset(&mut self, offset: Offset2D)
        ensures
            final(self)@ == (offset@.0, offset@.1, old(self)@.2, old(self)@.3),
    {
        self.offset = offset;
    }

    pub fn set_extent(&mut self, extent: Extent2D)
        ensures
            final(self)@ == (old(self)@.0, old(self)@.1, extent@.0, extent@.1),
    {
        self.extent = extent;
    }

    pub fn x(&self) -> (r: i32)
        ensures
            r == self@.0,
    {
        self.offset.x()
    }

    pub fn y(&self) -> (r: i32)
        ensures
            r == self@.1,
    {
        self.offset.y()
    }

    pub fn width(&self) -> (r: u32)
        ensures
            r == self@.2,
    {
        self.extent.width()
    }

    pub fn height(&self) -> (r: u32)
        ensures
            r == self@.3,
    {
        self.extent.height()
    }

    pub fn set_x(&mut self, x: i32)
        ensures
            final(self)@ == (x, old(self)@.1, old(self)@.2, old(self)@.3),
    {
        self.offset.set_x(x);
    }

    pub fn set_y(&mut self, y: i32)
        ensures
            final(self)@ == (old(self)@.0, y, old(self)@.2, old(self)@.3),
    {
        self.offset.set_y(y);
    }

    pub fn set_width(&mut self, width: u32)
        ensures
            final(self)@ == (old(self)@.0, old(self)@.1, width, old(self)@.3),
    {
        self.extent.set_width(width);
    }

    pub fn set_height(&mut self, height: u32)
        ensures
            final(self)@ == (old(self)@.0, old(self)@.1, old(self)@.2, height),
    {
        self.extent.set_height(height);
    }

    pub fn area(&self) -> (r: u32)
        requires
            self@.2 * self@.3 <= u32::MAX,
        ensures
            r == self@.2 * self@.3,
    {
        self.extent.area()
    }

    pub fn is_zero(&self) -> (r: bool)
        ensures
            r == (self@.2 == 0 || self@.3 == 0),
    {
        self.extent.is_zero()
    }
}

impl Extent3D {
    pub fn new(width: u32, height: u32, depth: u32) -> (r: Self)
        ensures
            r@ == (width, height, depth),
    {
        Extent3D { width, height, depth }
    }

    pub fn width(&self) -> (r: u32)
        ensures
            r == self@.0,
    {
        self.width
    }

    pub fn height(&self) -> (r: u32)
        ensures
            r == self@.1,
    {
        self.height
    }

    pub fn depth(&self) -> (r: u32)
        ensures
            r == self@.2,
    {
        self.depth
    }

    pub fn set_width(&mut self, width: u32)
        ensures
            final(self)@ == (width, old(self)@.1, old(self)@.2),
    {
        self.width = width;
    }

    pub fn set_height(&mut self, height: u32)
        ensures
            final(self)@ == (old(self)@.0, height, old(self)@.2),
    {
        self.height = height;
    }

    pub fn set_depth(&mut self, depth: u32)
        ensures
            final(self)@ == (old(self)@.0, old(self)@.1, depth),
    {
        self.depth = depth;
    }
}

/// Command buffer usage bits.
#[derive(Debug, Copy, Clone, PartialEq, Eq, Structural)]
pub struct CommandBufferUsageFlags(pub(crate) u32);

impl View for CommandBufferUsageFlags {
    type V = u32;

    closed spec fn view(&self) -> u32 {
        self.0
    }
}

impl CommandBufferUsageFlags {
    /// The value holding raw value `x`.
    pub closed spec fn spec_raw(x: u32) -> Self {
        CommandBufferUsageFlags(x)
    }

    pub proof fn lemma_spec_raw(x: u32)
        ensures
            Self::spec_raw(x)@ == x,
    {
    }

    #[allow(non_snake_case)]
    pub fn ONE_TIME_SUBMIT() -> (r: Self)
        ensures
            r@ == 1,
            r == Self::spec_raw(1),
    {
        CommandBufferUsageFlags(1)
    }

    #[allow(non_snake_case)]
    pub fn RENDER_PASS_CONTINUE() -> (r: Self)
        ensures
            r@ == 2,
            r == Self::spec_raw(2),
    {
        CommandBufferUsageFlags(2)
    }

    #[allow(non_snake_case)]
    pub fn SIMULTANEOUS_USE() -> (r: Self)
        ensures
            r@ == 4,
            r == Self::spec_raw(4),
    {
        CommandBufferUsageFlags(4)
    }

    pub fn from_raw(x: u32) -> (r: Self)
        ensures
            r@ == x,
            r == Self::spec_raw(x),
    {
        CommandBufferUsageFlags(x)
    }

    pub fn as_raw(self) -> (r: u32)
        ensures
            r == self@,
    {
        self.0
    }

    pub fn bits(self) -> (r: u32)
        ensures
            r == self@,
    {
        self.0
    }
}

impl vstd::std_specs::ops::BitOrSpecImpl for CommandBufferUsageFlags {
    open spec fn obeys_bitor_spec() -> bool {
        true
    }

    open spec fn bitor_req(self, rhs: CommandBufferUsageFlags) -> bool {
        true
    }

    closed spec fn bitor_spec(self, rhs: CommandBufferUsageFlags) -> CommandBufferUsageFlags {
        CommandBufferUsageFlags(self.0 | rhs.0)
    }
}

impl core::ops::BitOr for CommandBufferUsageFlags {
    type Output = Self;

    fn bitor(self, rhs: Self) -> (r: Self)
        ensures
            r@ == self@ | rhs@,
    {
        CommandBufferUsageFlags(self.0 | rhs.0)
    }
}

impl vstd::std_specs::ops::BitAndSpecImpl for CommandBufferUsageFlags {
    open spec fn obeys_bitand_spec() -> bool {
        true
    }

    open spec fn bitand_req(self, rhs: CommandBufferUsageFlags) -> bool {
        true
    }

    closed spec fn bitand_spec(self, rhs: CommandBufferUsageFlags) -> CommandBufferUsageFlags {
        CommandBufferUsageFlags(self.0 & rhs.0)
    }
}

impl core::ops::BitAnd for CommandBufferUsageFlags {
    type Output = Self;

    fn bitand(self, rhs: Self) -> (r: Self)
        ensures
            r@ == self@ & rhs@,
    {
        CommandBufferUsageFlags(self.0 & rhs.0)
    }
}


/// Synchronization-2 pipeline stage bits.
#[derive(Debug, Copy, Clone, PartialEq, Eq, Hash, Structural)]
pub struct PipelineStageFlags2(pub u64);

impl PipelineStageFlags2 {
    #[allow(non_snake_case)]
    pub fn NONE() -> (r: Self)
        ensures
            r.0 == 0,
    {
        PipelineStageFlags2(0)
    }

    #[allow(non_snake_case)]
    pub fn TOP_OF_PIPE() -> (r: Self)
        ensures
            r.0 == 0x0000_0001,
    {
        PipelineStageFlags2(0x0000_0001)
    }

    #[allow(non_snake_case)]
    pub fn DRAW_INDIRECT() -> (r: Self)
        ensures
            r.0 == 0x0000_0002,
    {
        PipelineStageFlags2(0x0000_0002)
    }

    #[allow(non_snake_case)]
    pub fn VERTEX_INPUT() -> (r: Self)
        ensures
            r.0 == 0x0000_0004,
    {
        PipelineStageFlags2(0x0000_0004)
    }

    #[allow(non_snake_case)]
    pub fn VERTEX_SHADER() -> (r: Self)
        ensures
            r.0 == 0x0000_0008,
    {
        PipelineStageFlags2(0x0000_0008)
    }

    #[allow(non_snake_case)]
    pub fn FRAGMENT_SHADER() -> (r: Self)
        ensures
            r.0 == 0x0000_0080,
    {
        PipelineStageFlags2(0x0000_0080)
    }

    #[allow(non_snake_case)]
    pub fn EARLY_FRAGMENT() -> (r: Self)
        ensures
            r.0 == 0x0000_0100,
    {
        PipelineStageFlags2(0x0000_0100)
    }

    #[allow(non_snake_case)]
    pub fn LATE_FRAGMENT() -> (r: Self)
        ensures
            r.0 == 0x0000_0200,
    {
        PipelineStageFlags2(0x0000_0200)
    }

    #[allow(non_snake_case)]
    pub fn COLOR_ATTACHMENT_OUTPUT() -> (r: Self)
        ensures
            r.0 == 0x0000_0400,
    {
        PipelineStageFlags2(0x0000_0400)
    }

    #[allow(non_snake_case)]
    pub fn COMPUTE_SHADER() -> (r: Self)
        ensures
            r.0 == 0x0000_0800,
    {
        PipelineStageFlags2(0x0000_0800)
    }

    #[allow(non_snake_case)]
    pub fn TRANSFER() -> (r: Self)
        ensures
            r.0 == 0x0000_1000,
    {
        PipelineStageFlags2(0x0000_1000)
    }

    #[allow(non_snake_case)]
    pub fn BOTTOM_OF_PIPE() -> (r: Self)
        ensures
            r.0 == 0x0000_2000,
    {
        PipelineStageFlags2(0x0000_2000)
    }

    #[allow(non_snake_case)]
    pub fn ALL_GRAPHICS() -> (r: Self)
        ensures
            r.0 == 0x0000_8000,
    {
        PipelineStageFlags2(0x0000_8000)
    }

    #[allow(non_snake_case)]
    pub fn ALL_COMMANDS() -> (r: Self)
        ensures
            r.0 == 0x0001_0000,
    {
        PipelineStageFlags2(0x0001_0000)
    }

    #[allow(non_snake_case)]
    pub fn COPY() -> (r: Self)
        ensures
            r.0 == 0x1_0000_0000,
    {
        PipelineStageFlags2(0x1_0000_0000)
    }

    #[allow(non_snake_case)]
    pub fn RESOLVE() -> (r: Self)
        ensures
            r.0 == 0x2_0000_0000,
    {
        PipelineStageFlags2(0x2_0000_0000)
    }

    #[allow(non_snake_case)]
    pub fn BLIT() -> (r: Self)
        ensures
            r.0 == 0x4_0000_0000,
    {
        PipelineStageFlags2(0x4_0000_0000)
    }

    #[allow(non_snake_case)]
    pub fn CLEAR() -> (r: Self)
        ensures
            r.0 == 0x8_0000_0000,
    {
        PipelineStageFlags2(0x8_0000_0000)
    }

    #[allow(non_snake_case)]
    pub fn HOST() -> (r: Self)
        ensures
            r.0 == 0x0000_4000,
    {
        PipelineStageFlags2(0x0000_4000)
    }
}

impl vstd::std_specs::ops::BitOrSpecImpl for PipelineStageFlags2 {
    open spec fn obeys_bitor_spec() -> bool {
        true
    }

    open spec fn bitor_req(self, rhs: PipelineStageFlags2) -> bool {
        true
    }

    open spec fn bitor_spec(self, rhs: PipelineStageFlags2) -> PipelineStageFlags2 {
        PipelineStageFlags2(self.0 | rhs.0)
    }
}

impl core::ops::BitOr for PipelineStageFlags2 {
    type Output = Self;

    fn bitor(self, rhs: Self) -> (r: Self)
        ensures
            r.0 == self.0 | rhs.0,
    {
        PipelineStageFlags2(self.0 | rhs.0)
    }
}

/// Synchronization-2 memory access bits.
#[derive(Debug, Copy, Clone, PartialEq, Eq, Hash, Structural)]
pub struct AccessFlags2(pub u64);

impl AccessFlags2 {
    #[allow(non_snake_case)]
    pub fn NONE() -> (r: Self)
        ensures
            r.0 == 0,
    {
        AccessFlags2(0)
    }

    #[allow(non_snake_case)]
    pub fn INDIRECT_COMMAND_READ() -> (r: Self)
        ensures
            r.0 == 0x0000_0001,
    {
        AccessFlags2(0x0000_0001)
    }

    #[allow(non_snake_case)]
    pub fn INDEX_READ() -> (r: Self)
        ensures
            r.0 == 0x0000_0002,
    {
        AccessFlags2(0x0000_0002)
    }

    #[allow(non_snake_case)]
    pub fn VERTEX_ATTRIBUTE_READ() -> (r: Self)
        ensures
            r.0 == 0x0000_0004,
    {
        AccessFlags2(0x0000_0004)
    }

    #[allow(non_snake_case)]
    pub fn UNIFORM_READ() -> (r: Self)
        ensures
            r.0 == 0x0000_0008,
    {
        AccessFlags2(0x0000_0008)
    }

    #[allow(non_snake_case)]
    pub fn SHADER_READ() -> (r: Self)
        ensures
            r.0 == 0x0000_0020,
    {
        AccessFlags2(0x0000_0020)
    }

    #[allow(non_snake_case)]
    pub fn SHADER_WRITE() -> (r: Self)
        ensures
            r.0 == 0x0000_0040,
    {
        AccessFlags2(0x0000_0040)
    }

    #[allow(non_snake_case)]
    pub fn COLOR_ATTACHMENT_READ() -> (r: Self)
        ensures
            r.0 == 0x0000_0080,
    {
        AccessFlags2(0x0000_0080)
    }

    #[allow(non_snake_case)]
    pub fn COLOR_ATTACHMENT_WRITE() -> (r: Self)
        ensures
            r.0 == 0x0000_0100,
    {
        AccessFlags2(0x0000_0100)
    }

    #[allow(non_snake_case)]
    pub fn TRANSFER_READ() -> (r: Self)
        ensures
            r.0 == 0x0000_0800,
    {
        AccessFlags2(0x0000_0800)
    }

    #[allow(non_snake_case)]
    pub fn TRANSFER_WRITE() -> (r: Self)
        ensures
            r.0 == 0x0000_1000,
    {
        AccessFlags2(0x0000_1000)
    }

    #[allow(non_snake_case)]
    pub fn MEMORY_READ() -> (r: Self)
        ensures
            r.0 == 0x0000_8000,
    {
        AccessFlags2(0x0000_8000)
    }

    #[allow(non_snake_case)]
    pub fn MEMORY_WRITE() -> (r: Self)
        ensures
            r.0 == 0x0001_0000,
    {
        AccessFlags2(0x0001_0000)
    }

    #[allow(non_snake_case)]
    pub fn DEPTH_STENCIL_ATTACHMENT_READ() -> (r: Self)
        ensures
            r.0 == 0x0000_0200,
    {
        AccessFlags2(0x0000_0200)
    }

    #[allow(non_snake_case)]
    pub fn DEPTH_STENCIL_ATTACHMENT_WRITE() -> (r: Self)
        ensures
            r.0 == 0x0000_0400,
    {
        AccessFlags2(0x0000_0400)
    }

    #[allow(non_snake_case)]
    pub fn HOST_READ() -> (r: Self)
        ensures
            r.0 == 0x0000_2000,
    {
        AccessFlags2(0x0000_2000)
    }

    #[allow(non_snake_case)]
    pub fn HOST_WRITE() -> (r: Self)
        ensures
            r.0 == 0x0000_4000,
    {
        AccessFlags2(0x0000_4000)
    }
}

impl vstd::std_specs::ops::BitOrSpecImpl for AccessFlags2 {
    open spec fn obeys_bitor_spec() -> bool {
        true
    }

    open spec fn bitor_req(self, rhs: AccessFlags2) -> bool {
        true
    }

    open spec fn bitor_spec(self, rhs: AccessFlags2) -> AccessFlags2 {
        AccessFlags2(self.0 | rhs.0)
    }
}

impl core::ops::BitOr for AccessFlags2 {
    type Output = Self;

    fn bitor(self, rhs: Self) -> (r: Self)
        ensures
            r.0 == self.0 | rhs.0,
    {
        AccessFlags2(self.0 | rhs.0)
    }
}

/// Memory property bits of a memory type.
#[derive(Clone, Copy, PartialEq, Eq, Hash, Debug, Structural)]
pub struct MemoryPropertyFlags(pub u32);

impl MemoryPropertyFlags {
    #[allow(non_snake_case)]
    pub fn DEVICE_LOCAL() -> (r: Self)
        ensures
            r.0 == 1,
    {
        MemoryPropertyFlags(1)
    }

    #[allow(non_snake_case)]
    pub fn HOST_VISIBLE() -> (r: Self)
        ensures
            r.0 == 2,
    {
        MemoryPropertyFlags(2)
    }

    #[allow(non_snake_case)]
    pub fn HOST_COHERENT() -> (r: Self)
        ensures
            r.0 == 4,
    {
        MemoryPropertyFlags(4)
    }

    #[allow(non_snake_case)]
    pub fn HOST_CACHED() -> (r: Self)
        ensures
            r.0 == 8,
    {
        MemoryPropertyFlags(8)
    }

    #[allow(non_snake_case)]
    pub fn LAZILY_ALLOCATED() -> (r: Self)
        ensures
            r.0 == 16,
    {
        MemoryPropertyFlags(16)
    }

    /// The set with no property.
    pub fn empty() -> (r: Self)
        ensures
            r.0 == 0,
    {
        MemoryPropertyFlags(0)
    }

    /// True when every bit of `other` is set in `self`.
    pub fn contains(self, other: Self) -> (r: bool)
        ensures
            r == (self.0 & other.0 == other.0),
    {
        (self.0 & other.0) == other.0
    }
}

impl vstd::std_specs::ops::BitOrSpecImpl for MemoryPropertyFlags {
    open spec fn obeys_bitor_spec() -> bool {
        true
    }

    open spec fn bitor_req(self, rhs: MemoryPropertyFlags) -> bool {
        true
    }

    open spec fn bitor_spec(self, rhs: MemoryPropertyFlags) -> MemoryPropertyFlags {
        MemoryPropertyFlags(self.0 | rhs.0)
    }
}

impl core::ops::BitOr for MemoryPropertyFlags {
    type Output = Self;

    fn bitor(self, rhs: Self) -> (r: Self)
        ensures
            r.0 == self.0 | rhs.0,
    {
        MemoryPropertyFlags(self.0 | rhs.0)
    }
}

/// The synchronization-2 stage bit that a domain stage stands for.
pub open spec fn stage_bits(s: Stage) -> u64 {
    match s {
        Stage::NoStage => 0,
        Stage::Top => 0x0000_0001,
        Stage::DrawIndirect => 0x0000_0002,
        Stage::VertexInput => 0x0000_0004,
        Stage::Vertex => 0x0000_0008,
        Stage::Fragment => 0x0000_0080,
        Stage::EarlyFragmentTests => 0x0000_0100,
        Stage::LateFragmentTests => 0x0000_0200,
        Stage::ColorOutput => 0x0000_0400,
        Stage::Compute => 0x0000_0800,
        Stage::Transfer => 0x0000_1000,
        Stage::Host => 0x0000_4000,
        Stage::Bottom => 0x0000_2000,
        Stage::All => 0x0001_0000,
    }
}

/// The synchronization-2 access bit that a domain access stands for.
pub open spec fn access_bits(a: Access) -> u64 {
    match a {
        Access::NoAccess => 0,
        Access::MemoryRead => 0x0000_8000,
        Access::MemoryWrite => 0x0001_0000,
        Access::UniformRead => 0x0000_0008,
        Access::SampledRead => 0x0000_0020,
        Access::StorageRead => 0x0000_0020,
        Access::StorageWrite => 0x0000_0040,
        Access::ColorAttachmentRead => 0x0000_0080,
        Access::ColorAttachmentWrite => 0x0000_0100,
        Access::DepthStencilRead => 0x0000_0200,
        Access::DepthStencilWrite => 0x0000_0400,
        Access::TransferRead => 0x0000_0800,
        Access::TransferWrite => 0x0000_1000,
        Access::VertexAttributeRead => 0x0000_0004,
        Access::IndexRead => 0x0000_0002,
        Access::IndirectCommandRead => 0x0000_0001,
        Access::HostRead => 0x0000_2000,
        Access::HostWrite => 0x0000_4000,
    }
}

impl vstd::std_specs::convert::FromSpecImpl<Stage> for PipelineStageFlags2 {
    open spec fn obeys_from_spec() -> bool {
        true
    }

    open spec fn from_spec(s: Stage) -> PipelineStageFlags2 {
        PipelineStageFlags2(stage_bits(s))
    }
}

impl From<Stage> for PipelineStageFlags2 {
    fn from(s: Stage) -> (r: Self) {
        let bits: u64 = match s {
            Stage::NoStage => 0,
            Stage::Top => 0x0000_0001,
            Stage::DrawIndirect => 0x0000_0002,
            Stage::VertexInput => 0x0000_0004,
            Stage::Vertex => 0x0000_0008,
            Stage::Fragment => 0x0000_0080,
            Stage::EarlyFragmentTests => 0x0000_0100,
            Stage::LateFragmentTests => 0x0000_0200,
            Stage::ColorOutput => 0x0000_0400,
            Stage::Compute => 0x0000_0800,
            Stage::Transfer => 0x0000_1000,
            Stage::Host => 0x0000_4000,
            Stage::Bottom => 0x0000_2000,
            Stage::All => 0x0001_0000,
        };
        PipelineStageFlags2(bits)
    }
}

impl vstd::std_specs::convert::FromSpecImpl<Access> for AccessFlags2 {
    open spec fn obeys_from_spec() -> bool {
        true
    }

    open spec fn from_spec(a: Access) -> AccessFlags2 {
        AccessFlags2(access_bits(a))
    }
}

impl From<Access> for AccessFlags2 {
    fn from(a: Access) -> (r: Self) {
        let bits: u64 = match a {
            Access::NoAccess => 0,
            Access::MemoryRead => 0x0000_8000,
            Access::MemoryWrite => 0x0001_0000,
            Access::UniformRead => 0x0000_0008,
            Access::SampledRead => 0x0000_0020,
            Access::StorageRead => 0x0000_0020,
            Access::StorageWrite => 0x0000_0040,
            Access::ColorAttachmentRead => 0x0000_0080,
            Access::ColorAttachmentWrite => 0x0000_0100,
            Access::DepthStencilRead => 0x0000_0200,
            Access::DepthStencilWrite => 0x0000_0400,
            Access::TransferRead => 0x0000_0800,
            Access::TransferWrite => 0x0000_1000,
            Access::VertexAttributeRead => 0x0000_0004,
            Access::IndexRead => 0x0000_0002,
            Access::IndirectCommandRead => 0x0000_0001,
            Access::HostRead => 0x0000_2000,
            Access::HostWrite => 0x0000_4000,
        };
        AccessFlags2(bits)
    }
}


/// What happens to an attachment when rendering begins. Holds the raw Vulkan enumerant.
#[derive(Debug, Copy, Clone, PartialEq, Eq, Structural)]
pub struct AttachmentLoadOp(pub(crate) i32);

impl View for AttachmentLoadOp {
    type V = i32;

    closed spec fn view(&self) -> i32 {
        self.0
    }
}

impl AttachmentLoadOp {
    /// The value holding raw enumerant `x`.
    pub closed spec fn spec_raw(x: i32) -> Self {
        AttachmentLoadOp(x)
    }

    pub proof fn lemma_spec_raw(x: i32)
        ensures
            Self::spec_raw(x)@ == x,
    {
    }

    pub fn from_raw(x: i32) -> (r: Self)
        ensures
            r@ == x,
            r == Self::spec_raw(x),
    {
        AttachmentLoadOp(x)
    }

    pub fn as_raw(self) -> (r: i32)
        ensures
            r == self@,
    {
        self.0
    }

    #[allow(non_snake_case)]
    pub fn LOAD() -> (r: Self)
        ensures
            r@ == 0,
            r == Self::spec_raw(0),
    {
        AttachmentLoadOp(0)
    }

    #[allow(non_snake_case)]
    pub fn CLEAR() -> (r: Self)
        ensures
            r@ == 1,
            r == Self::spec_raw(1),
    {
        AttachmentLoadOp(1)
    }

    #[allow(non_snake_case)]
    pub fn DONT_CARE() -> (r: Self)
        ensures
            r@ == 2,
            r == Self::spec_raw(2),
    {
        AttachmentLoadOp(2)
    }
}

/// What happens to an attachment when rendering ends. Holds the raw Vulkan enumerant.
#[derive(Debug, Copy, Clone, PartialEq, Eq, Structural)]
pub struct AttachmentStoreOp(pub(crate) i32);

impl View for AttachmentStoreOp {
    type V = i32;

    closed spec fn view(&self) -> i32 {
        self.0
    }
}

impl AttachmentStoreOp {
    /// The value holding raw enumerant `x`.
    pub closed spec fn spec_raw(x: i32) -> Self {
        AttachmentStoreOp(x)
    }

    pub proof fn lemma_spec_raw(x: i32)
        ensures
            Self::spec_raw(x)@ == x,
    {
    }

    pub fn from_raw(x: i32) -> (r: Self)
        ensures
            r@ == x,
            r == Self::spec_raw(x),
    {
        AttachmentStoreOp(x)
    }

    pub fn as_raw(self) -> (r: i32)
        ensures
            r == self@,
    {
        self.0
    }

    #[allow(non_snake_case)]
    pub fn STORE() -> (r: Self)
        ensures
            r@ == 0,
            r == Self::spec_raw(0),
    {
        AttachmentStoreOp(0)
    }

    #[allow(non_snake_case)]
    pub fn DONT_CARE() -> (r: Self)
        ensures
            r@ == 1,
            r == Self::spec_raw(1),
    {
        AttachmentStoreOp(1)
    }
}

} // verus!
