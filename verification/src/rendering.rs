//! What a rendering scope draws into: its area and its color and depth
//! attachments, each with how it is loaded and stored. Clear values are
//! carried as the IEEE-754 bit patterns of their `f32` components; nothing
//! here computes on them.
use vstd::prelude::*;

use crate::domain::ImageLayout;
use crate::types::{AttachmentLoadOp, AttachmentStoreOp, Extent2D, Offset2D, Rect2D};

verus! {

/// What an attachment is cleared to.
#[derive(Debug, Clone, Copy, PartialEq, Eq, Structural)]
pub enum ClearValue {
    /// A color, as the bit patterns of its red, green, blue and alpha.
    Color { r_bits: u32, g_bits: u32, b_bits: u32, a_bits: u32 },
    /// A depth, as a bit pattern, and a stencil value.
    DepthStencil { depth_bits: u32, stencil: u32 },
}

/// A color attachment: an image view and how rendering treats it.
#[derive(Debug, Clone, Copy)]
pub struct ColorAttachment {
    pub view: u64,
    pub layout: ImageLayout,
    pub load_op: AttachmentLoadOp,
    pub store_op: AttachmentStoreOp,
    pub clear_value: ClearValue,
}

/// A depth attachment: an image view, how rendering treats it, and the
/// bit pattern of the depth it is cleared to.
#[derive(Debug, Clone, Copy)]
pub struct DepthAttachment {
    pub view: u64,
    pub layout: ImageLayout,
    pub load_op: AttachmentLoadOp,
    pub store_op: AttachmentStoreOp,
    pub clear_depth_bits: u32,
}

/// Everything a rendering scope needs.
pub struct RenderingDesc {
    pub area: Rect2D,
    pub color_attachments: Vec<ColorAttachment>,
    pub depth_attachment: Option<DepthAttachment>,
}

/// A color attachment of `view` that is cleared to `clear_bits` and kept.
pub open spec fn cleared_color(view: u64, clear_bits: [u32; 4]) -> ColorAttachment {
    ColorAttachment {
        view,
        layout: ImageLayout::ColorAttachment,
        load_op: AttachmentLoadOp::spec_raw(1),
        store_op: AttachmentStoreOp::spec_raw(0),
        clear_value: ClearValue::Color {
            r_bits: clear_bits[0],
            g_bits: clear_bits[1],
            b_bits: clear_bits[2],
            a_bits: clear_bits[3],
        },
    }
}

/// A color attachment of `view` whose contents are loaded and kept.
pub open spec fn loaded_color(view: u64) -> ColorAttachment {
    ColorAttachment {
        view,
        layout: ImageLayout::ColorAttachment,
        load_op: AttachmentLoadOp::spec_raw(0),
        store_op: AttachmentStoreOp::spec_raw(0),
        clear_value: ClearValue::Color { r_bits: 0, g_bits: 0, b_bits: 0, a_bits: 0 },
    }
}

/// A depth attachment of `view` that is cleared to `clear_depth_bits` and
/// kept.
pub open spec fn cleared_depth(view: u64, clear_depth_bits: u32) -> DepthAttachment {
    DepthAttachment {
        view,
        layout: ImageLayout::DepthAttachment,
        load_op: AttachmentLoadOp::spec_raw(1),
        store_op: AttachmentStoreOp::spec_raw(0),
        clear_depth_bits,
    }
}

/// Collects the attachments of a rendering scope over an area.
pub struct RenderingInfoBuilder {
    color_attachments: Vec<ColorAttachment>,
    depth_attachment: Option<DepthAttachment>,
    offset: Offset2D,
    extent: Extent2D,
}

impl RenderingInfoBuilder {
    pub closed spec fn colors(&self) -> Seq<ColorAttachment> {
        self.color_attachments@
    }

    pub closed spec fn depth(&self) -> Option<DepthAttachment> {
        self.depth_attachment
    }

    /// The area: `(x, y, width, height)`.
    pub closed spec fn area(&self) -> (i32, i32, u32, u32) {
        (self.offset@.0, self.offset@.1, self.extent@.0, self.extent@.1)
    }

    /// A scope over the area at `offset` of size `extent`, with no
    /// attachment yet.
    pub fn new(offset: Offset2D, extent: Extent2D) -> (r: Self)
        ensures
            r.colors().len() == 0,
            r.depth() is None,
            r.area() == (offset@.0, offset@.1, extent@.0, extent@.1),
    {
        RenderingInfoBuilder { color_attachments: Vec::new(), depth_attachment: None, offset, extent }
    }

    /// Adds a color attachment of `view`, cleared to `clear_bits`.
    pub fn color_clear(self, view: u64, clear_bits: [u32; 4]) -> (r: Self)
        ensures
            r.colors() == self.colors().push(cleared_color(view, clear_bits)),
            r.depth() == self.depth(),
            r.area() == self.area(),
    {
        let mut s = self;
        let a = ColorAttachment {
            view,
            layout: ImageLayout::ColorAttachment,
            load_op: AttachmentLoadOp::CLEAR(),
            store_op: AttachmentStoreOp::STORE(),
            clear_value: ClearValue::Color {
                r_bits: clear_bits[0],
                g_bits: clear_bits[1],
                b_bits: clear_bits[2],
                a_bits: clear_bits[3],
            },
        };
        s.color_attachments.push(a);
        s
    }

    /// Adds a color attachment of `view` whose contents are kept.
    pub fn color_load(self, view: u64) -> (r: Self)
        ensures
            r.colors() == self.colors().push(loaded_color(view)),
            r.depth() == self.depth(),
            r.area() == self.area(),
    {
        let mut s = self;
        let a = ColorAttachment {
            view,
            layout: ImageLayout::ColorAttachment,
            load_op: AttachmentLoadOp::LOAD(),
            store_op: AttachmentStoreOp::STORE(),
            clear_value: ClearValue::Color { r_bits: 0, g_bits: 0, b_bits: 0, a_bits: 0 },
        };
        s.color_attachments.push(a);
        s
    }

    /// Sets the depth attachment to `view`, cleared to `clear_depth_bits`.
    pub fn depth_clear(self, view: u64, clear_depth_bits: u32) -> (r: Self)
        ensures
            r.colors() == self.colors(),
            r.depth() == Some(cleared_depth(view, clear_depth_bits)),
            r.area() == self.area(),
    {
        let mut s = self;
        s.depth_attachment = Some(
            DepthAttachment {
                view,
                layout: ImageLayout::DepthAttachment,
                load_op: AttachmentLoadOp::CLEAR(),
                store_op: AttachmentStoreOp::STORE(),
                clear_depth_bits,
            },
        );
        s
    }

    /// The description of the scope.
    pub fn build(self) -> (r: RenderingDesc)
        ensures
            r.area@ == self.area(),
            r.color_attachments@ == self.colors(),
            r.depth_attachment == self.depth(),
    {
        let area = Rect2D::new(self.offset, self.extent);
        RenderingDesc { area, color_attachments: self.color_attachments, depth_attachment: self.depth_attachment }
    }
}

} // verus!
