use vstd::prelude::*;

verus! {

// Slot capacities of the graphics device, fixed by its documentation.  The
// backup component sizes its contiguous buffers to these maxima and pairs
// each with a runtime-queried valid count.
pub const SCISSOR_SLOTS: usize = 16;
pub const VIEWPORT_SLOTS: usize = 16;
pub const SHADER_RESOURCE_SLOTS: usize = 127;
pub const SAMPLER_SLOTS: usize = 15;
pub const CONSTANT_BUFFER_SLOTS: usize = 13;
pub const CLASS_INSTANCE_SLOTS: usize = 256;

// Numeric values of the device's enumerations, as its headers define them.
pub const TOPOLOGY_TRIANGLELIST: u32 = 4;
pub const FORMAT_R32_UINT: u32 = 42;
pub const FORMAT_R8G8B8A8_UNORM: u32 = 28;
pub const BLEND_ONE: u32 = 2;
pub const BLEND_SRC_ALPHA: u32 = 5;
pub const BLEND_INV_SRC_ALPHA: u32 = 6;
pub const BLEND_OP_ADD: u32 = 1;
pub const COLOR_WRITE_ENABLE_ALL: u32 = 15;
pub const FILL_SOLID: u32 = 3;
pub const CULL_NONE: u32 = 1;
pub const FILTER_MIN_MAG_MIP_LINEAR: u32 = 21;
pub const TEXTURE_ADDRESS_BORDER: u32 = 4;
pub const COMPARISON_ALWAYS: u32 = 8;

/// Bit pattern of the 32-bit float one, for fields the device stores as
/// floats and this crate copies bit-for-bit.
pub const F32_ONE_BITS: u32 = 0x3F80_0000;
/// Bit pattern of the 32-bit float zero.
pub const F32_ZERO_BITS: u32 = 0;

/// Byte stride of one vertex in the layout the shaders consume:
/// two position floats, two texture-coordinate floats, four color floats.
pub const VERTEX_STRIDE_BYTES: u32 = 32;

/// An axis-aligned rectangle in pixels, as the device's scissor test takes it.
#[derive(Clone, Copy, PartialEq, Eq, Structural, Debug)]
pub struct Rect {
    pub left: i32,
    pub top: i32,
    pub right: i32,
    pub bottom: i32,
}

/// A viewport.  The device stores its extents as 32-bit floats; the
/// preservation protocol only ever copies them bit-for-bit, so each field
/// holds the raw bit pattern.
#[derive(Clone, Copy, PartialEq, Eq, Structural, Debug)]
pub struct Viewport {
    pub top_left_x: u32,
    pub top_left_y: u32,
    pub width: u32,
    pub height: u32,
    pub min_depth: u32,
    pub max_depth: u32,
}

/// The four blend-factor components, as raw 32-bit float bit patterns.
#[derive(Clone, Copy, PartialEq, Eq, Structural, Debug)]
pub struct BlendFactor {
    pub r: u32,
    pub g: u32,
    pub b: u32,
    pub a: u32,
}

/// One 8-bit-per-channel RGBA pixel with premultiplied alpha.
#[derive(Clone, Copy, PartialEq, Eq, Structural, Debug)]
pub struct Rgba8 {
    pub r: u8,
    pub g: u8,
    pub b: u8,
    pub a: u8,
}

impl Rgba8 {
    /// The white premultiplied-alpha pixel that a font-atlas coverage value
    /// expands to once the coverage has been quantized to a byte.
    pub fn premultiplied_white(alpha: u8) -> (c: Self)
        ensures
            c == (Rgba8 { r: 255, g: 255, b: 255, a: alpha }),
    {
        Rgba8 { r: 255, g: 255, b: 255, a: alpha }
    }
}

/// A toolkit-assigned texture identifier: either managed by the toolkit
/// itself (the font atlas) or chosen by the embedding application.
#[derive(Clone, Copy, PartialEq, Eq, Structural, Debug)]
pub enum TextureId {
    Managed(u64),
    User(u64),
}

/// Blend configuration, restricted to the single render target the overlay
/// draws to; blending for the remaining targets is disabled.
#[derive(Clone, Copy, PartialEq, Eq, Structural, Debug)]
pub struct BlendStateDesc {
    pub alpha_to_coverage: bool,
    pub independent_blend: bool,
    pub blend_enable: bool,
    pub src_blend: u32,
    pub dest_blend: u32,
    pub blend_op: u32,
    pub src_blend_alpha: u32,
    pub dest_blend_alpha: u32,
    pub blend_op_alpha: u32,
    pub write_mask: u32,
}

/// Rasterizer configuration.  Fields the device stores as floats hold raw
/// bit patterns.
#[derive(Clone, Copy, PartialEq, Eq, Structural, Debug)]
pub struct RasterizerStateDesc {
    pub fill_mode: u32,
    pub cull_mode: u32,
    pub front_counter_clockwise: bool,
    pub depth_bias: i32,
    pub depth_bias_clamp: u32,
    pub slope_scaled_depth_bias: u32,
    pub depth_clip_enable: bool,
    pub scissor_enable: bool,
    pub multisample_enable: bool,
    pub antialiased_line_enable: bool,
}

/// Sampler configuration.  Fields the device stores as floats hold raw bit
/// patterns.
#[derive(Clone, Copy, PartialEq, Eq, Structural, Debug)]
pub struct SamplerStateDesc {
    pub filter: u32,
    pub address_u: u32,
    pub address_v: u32,
    pub address_w: u32,
    pub mip_lod_bias: u32,
    pub comparison_func: u32,
    pub border_r: u32,
    pub border_g: u32,
    pub border_b: u32,
    pub border_a: u32,
    pub min_lod: u32,
    pub max_lod: u32,
}

} // verus!
