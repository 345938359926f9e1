//! The surfaces that can be exported: their plane images, and the driver calls that make them.
//!
//! Encoders read rows in blocks of 64 bytes (128 for packed 10-bit 4:4:4). A plane whose rows
//! are not a multiple of that is misread from its left edge on, so the images are wider, and for
//! some encoders taller, than what they show. The padding is never written; the encoder crops it.
use vstd::prelude::*;

use crate::dmabuf_export::{ExportError, ExportMachine, ExportedPlanes, Op, PlaneSpec};
use crate::formats::{wgpu_format_to_vk, wgpu_usage_to_vk, TextureFormat, TextureUsages, VkFormat};
use crate::memory::{div_ceil, next_multiple_of};

verus! {

/// What the exporters ask of the device before the first driver call.
#[derive(Clone, Copy, Debug, PartialEq, Eq, Structural)]
pub struct DeviceGate {
    /// The device has the DMA-BUF feature.
    pub dma_buf: bool,
    /// The device runs on the Vulkan backend.
    pub vulkan: bool,
}

impl DeviceGate {
    /// Why this device cannot export at all, if it cannot. The feature is asked for first.
    pub open spec fn refusal(self) -> Option<ExportError> {
        if !self.dma_buf {
            Some(ExportError::FeatureUnsupported)
        } else if !self.vulkan {
            Some(ExportError::NotVulkan)
        } else {
            None
        }
    }
}

/// Luma columns of NV12 and planar 4:4:4 come in multiples of this.
pub const LUMA_ALIGN_8BIT: u32 = 64;

/// Luma columns of P010 come in multiples of this.
pub const LUMA_ALIGN_P010: u32 = 32;

/// Columns of packed 8-bit 4:4:4 come in multiples of this.
pub const LUMA_ALIGN_XYUV: u32 = 16;

/// Columns of packed 10-bit 4:4:4 come in multiples of this.
pub const LUMA_ALIGN_XV30: u32 = 32;

/// Rows of P010 and planar 4:4:4 come in multiples of this.
pub const HEIGHT_ALIGN: u32 = 16;

/// Rows of packed 10-bit 4:4:4 come in multiples of this.
pub const HEIGHT_ALIGN_XV30: u32 = 32;

/// The padded extent `value`.
pub open spec fn padded(value: u32, multiple: u32) -> int {
    crate::memory::round_up(value as int, multiple as int)
}

/// Half of `value`, rounded up.
pub open spec fn half(value: int) -> int {
    crate::memory::div_up(value, 2)
}

/// An image of the given formats and extent.
pub open spec fn image(f: VkFormat, t: TextureFormat, width: int, height: int) -> PlaneSpec {
    PlaneSpec { format: f, texture_format: t, width: width as u32, height: height as u32 }
}

/// The images of an NV12 surface: luma at full resolution, chroma at half.
pub open spec fn nv12_planes(width: u32, height: u32) -> Seq<PlaneSpec> {
    let w = padded(width, LUMA_ALIGN_8BIT);
    seq![
        image(VkFormat::R8Unorm, TextureFormat::R8Unorm, w, height as int),
        image(VkFormat::R8G8Unorm, TextureFormat::Rg8Unorm, half(w), half(height as int)),
    ]
}

/// The images of a P010 surface: luma at full resolution, chroma at half.
pub open spec fn p010_planes(width: u32, height: u32) -> Seq<PlaneSpec> {
    let w = padded(width, LUMA_ALIGN_P010);
    let h = padded(height, HEIGHT_ALIGN);
    seq![
        image(VkFormat::R16Unorm, TextureFormat::R16Unorm, w, h),
        image(VkFormat::R16G16Unorm, TextureFormat::Rg16Unorm, half(w), half(h)),
    ]
}

/// The image of a packed 10-bit 4:4:4 surface.
pub open spec fn xv30_planes(width: u32, height: u32) -> Seq<PlaneSpec> {
    seq![
        image(
            VkFormat::A2B10G10R10UnormPack32,
            TextureFormat::Rgb10a2Unorm,
            padded(width, LUMA_ALIGN_XV30),
            padded(height, HEIGHT_ALIGN_XV30),
        ),
    ]
}

/// The image of a packed 8-bit 4:4:4 surface.
pub open spec fn yuv444_planes(width: u32, height: u32) -> Seq<PlaneSpec> {
    seq![
        image(
            VkFormat::R8G8B8A8Unorm,
            TextureFormat::Rgba8Unorm,
            padded(width, LUMA_ALIGN_XYUV),
            height as int,
        ),
    ]
}

/// The three images of a planar 4:4:4 surface, all at full resolution.
pub open spec fn yuv444p_planes(width: u32, height: u32) -> Seq<PlaneSpec> {
    let plane = image(
        VkFormat::R8Unorm,
        TextureFormat::R8Unorm,
        padded(width, LUMA_ALIGN_8BIT),
        padded(height, HEIGHT_ALIGN),
    );
    seq![plane, plane, plane]
}

/// `r` is how an export of these planes begins on a device: the device's refusal, or an export
/// before its first call.
pub open spec fn begins(
    r: Result<ExportMachine, ExportError>,
    device: DeviceGate,
    planes: Seq<PlaneSpec>,
    calls: Seq<Op>,
    usage: TextureUsages,
    dedicated: bool,
) -> bool {
    match device.refusal() {
        Some(e) => r == Err::<ExportMachine, ExportError>(e),
        None => r matches Ok(m) && m.wf() && m@ == crate::dmabuf_export::ExportState::start(
            planes,
            calls,
            crate::formats::image_usage_bits(usage) as u32,
            dedicated,
        ),
    }
}

/// The driver calls that export a single texture.
pub open spec fn texture_calls() -> Seq<Op> {
    seq![
        Op::CreateImage { plane: 0, call: "vkCreateImage" },
        Op::QueryRequirements { plane: 0 },
        Op::QueryMemoryTypes,
        Op::AllocateMemory { call: "vkAllocateMemory" },
        Op::BindImage { plane: 0, call: "vkBindImageMemory" },
        Op::ExportFd { call: "vkGetMemoryFdKHR" },
        Op::QueryModifier { plane: 0, call: "vkGetImageDrmFormatModifierPropertiesEXT" },
        Op::QueryLayout { plane: 0 },
        Op::Import,
    ]
}

fn texture_script() -> (script: Vec<Op>)
    ensures
        script@ == texture_calls(),
        crate::dmabuf_export::script_ok(1, script@),
{
    let script: Vec<Op> = vec![
        Op::CreateImage { plane: 0, call: "vkCreateImage" },
        Op::QueryRequirements { plane: 0 },
        Op::QueryMemoryTypes,
        Op::AllocateMemory { call: "vkAllocateMemory" },
        Op::BindImage { plane: 0, call: "vkBindImageMemory" },
        Op::ExportFd { call: "vkGetMemoryFdKHR" },
        Op::QueryModifier { plane: 0, call: "vkGetImageDrmFormatModifierPropertiesEXT" },
        Op::QueryLayout { plane: 0 },
        Op::Import,
    ];
    proof {
        assert(script@ =~= texture_calls());
        let s = script@;
        reveal_with_fuel(crate::dmabuf_export::layouts_before, 10);
        reveal_with_fuel(crate::dmabuf_export::modifiers_before, 10);
        assert forall|i: int| 0 <= i < s.len() implies #[trigger] crate::dmabuf_export::op_in_place(
            1,
            s,
            i,
        ) by {}
    }
    script
}

/// The driver calls that export an NV12 surface.
pub open spec fn nv12_calls() -> Seq<Op> {
    seq![
        Op::CreateImage { plane: 0, call: "vkCreateImage (NV12 shared)" },
        Op::CreateImage { plane: 1, call: "vkCreateImage (NV12 shared)" },
        Op::QueryRequirements { plane: 0 },
        Op::QueryRequirements { plane: 1 },
        Op::QueryMemoryTypes,
        Op::AllocateMemory { call: "vkAllocateMemory (NV12 shared)" },
        Op::BindImage { plane: 0, call: "vkBindImageMemory (Y)" },
        Op::BindImage { plane: 1, call: "vkBindImageMemory (UV)" },
        Op::ExportFd { call: "vkGetMemoryFdKHR (NV12 shared)" },
        Op::QueryModifier { plane: 0, call: "vkGetImageDrmFormatModifierPropertiesEXT (Y)" },
        Op::QueryLayout { plane: 0 },
        Op::QueryLayout { plane: 1 },
        Op::Import,
    ]
}

fn nv12_script() -> (script: Vec<Op>)
    ensures
        script@ == nv12_calls(),
        crate::dmabuf_export::script_ok(2, script@),
{
    let script: Vec<Op> = vec![
        Op::CreateImage { plane: 0, call: "vkCreateImage (NV12 shared)" },
        Op::CreateImage { plane: 1, call: "vkCreateImage (NV12 shared)" },
        Op::QueryRequirements { plane: 0 },
        Op::QueryRequirements { plane: 1 },
        Op::QueryMemoryTypes,
        Op::AllocateMemory { call: "vkAllocateMemory (NV12 shared)" },
        Op::BindImage { plane: 0, call: "vkBindImageMemory (Y)" },
        Op::BindImage { plane: 1, call: "vkBindImageMemory (UV)" },
        Op::ExportFd { call: "vkGetMemoryFdKHR (NV12 shared)" },
        Op::QueryModifier { plane: 0, call: "vkGetImageDrmFormatModifierPropertiesEXT (Y)" },
        Op::QueryLayout { plane: 0 },
        Op::QueryLayout { plane: 1 },
        Op::Import,
    ];
    proof {
        assert(script@ =~= nv12_calls());
        let s = script@;
        reveal_with_fuel(crate::dmabuf_export::layouts_before, 14);
        reveal_with_fuel(crate::dmabuf_export::modifiers_before, 14);
        assert forall|i: int| 0 <= i < s.len() implies #[trigger] crate::dmabuf_export::op_in_place(
            2,
            s,
            i,
        ) by {}
    }
    script
}

/// The driver calls that export a P010 surface.
pub open spec fn p010_calls() -> Seq<Op> {
    seq![
        Op::CreateImage { plane: 0, call: "vkCreateImage (P010 shared)" },
        Op::CreateImage { plane: 1, call: "vkCreateImage (P010 shared)" },
        Op::QueryRequirements { plane: 0 },
        Op::QueryRequirements { plane: 1 },
        Op::QueryMemoryTypes,
        Op::AllocateMemory { call: "vkAllocateMemory (P010 shared)" },
        Op::BindImage { plane: 0, call: "vkBindImageMemory (P010 Y)" },
        Op::BindImage { plane: 1, call: "vkBindImageMemory (P010 UV)" },
        Op::ExportFd { call: "vkGetMemoryFdKHR (P010 shared)" },
        Op::QueryModifier { plane: 0, call: "vkGetImageDrmFormatModifierPropertiesEXT (P010 Y)" },
        Op::QueryLayout { plane: 0 },
        Op::QueryLayout { plane: 1 },
        Op::Import,
    ]
}

fn p010_script() -> (script: Vec<Op>)
    ensures
        script@ == p010_calls(),
        crate::dmabuf_export::script_ok(2, script@),
{
    let script: Vec<Op> = vec![
        Op::CreateImage { plane: 0, call: "vkCreateImage (P010 shared)" },
        Op::CreateImage { plane: 1, call: "vkCreateImage (P010 shared)" },
        Op::QueryRequirements { plane: 0 },
        Op::QueryRequirements { plane: 1 },
        Op::QueryMemoryTypes,
        Op::AllocateMemory { call: "vkAllocateMemory (P010 shared)" },
        Op::BindImage { plane: 0, call: "vkBindImageMemory (P010 Y)" },
        Op::BindImage { plane: 1, call: "vkBindImageMemory (P010 UV)" },
        Op::ExportFd { call: "vkGetMemoryFdKHR (P010 shared)" },
        Op::QueryModifier { plane: 0, call: "vkGetImageDrmFormatModifierPropertiesEXT (P010 Y)" },
        Op::QueryLayout { plane: 0 },
        Op::QueryLayout { plane: 1 },
        Op::Import,
    ];
    proof {
        assert(script@ =~= p010_calls());
        let s = script@;
        reveal_with_fuel(crate::dmabuf_export::layouts_before, 14);
        reveal_with_fuel(crate::dmabuf_export::modifiers_before, 14);
        assert forall|i: int| 0 <= i < s.len() implies #[trigger] crate::dmabuf_export::op_in_place(
            2,
            s,
            i,
        ) by {}
    }
    script
}

/// The driver calls that export a packed XV30 surface.
pub open spec fn xv30_calls() -> Seq<Op> {
    seq![
        Op::CreateImage { plane: 0, call: "vkCreateImage (XV30)" },
        Op::QueryRequirements { plane: 0 },
        Op::QueryMemoryTypes,
        Op::AllocateMemory { call: "vkAllocateMemory (XV30)" },
        Op::BindImage { plane: 0, call: "vkBindImageMemory (XV30)" },
        Op::ExportFd { call: "vkGetMemoryFdKHR (XV30)" },
        Op::QueryLayout { plane: 0 },
        Op::QueryModifier { plane: 0, call: "vkGetImageDrmFormatModifierPropertiesEXT (XV30)" },
        Op::Import,
    ]
}

fn xv30_script() -> (script: Vec<Op>)
    ensures
        script@ == xv30_calls(),
        crate::dmabuf_export::script_ok(1, script@),
{
    let script: Vec<Op> = vec![
        Op::CreateImage { plane: 0, call: "vkCreateImage (XV30)" },
        Op::QueryRequirements { plane: 0 },
        Op::QueryMemoryTypes,
        Op::AllocateMemory { call: "vkAllocateMemory (XV30)" },
        Op::BindImage { plane: 0, call: "vkBindImageMemory (XV30)" },
        Op::ExportFd { call: "vkGetMemoryFdKHR (XV30)" },
        Op::QueryLayout { plane: 0 },
        Op::QueryModifier { plane: 0, call: "vkGetImageDrmFormatModifierPropertiesEXT (XV30)" },
        Op::Import,
    ];
    proof {
        assert(script@ =~= xv30_calls());
        let s = script@;
        reveal_with_fuel(crate::dmabuf_export::layouts_before, 10);
        reveal_with_fuel(crate::dmabuf_export::modifiers_before, 10);
        assert forall|i: int| 0 <= i < s.len() implies #[trigger] crate::dmabuf_export::op_in_place(
            1,
            s,
            i,
        ) by {}
    }
    script
}

/// The driver calls that export a packed XYUV surface.
pub open spec fn yuv444_calls() -> Seq<Op> {
    seq![
        Op::CreateImage { plane: 0, call: "vkCreateImage (XYUV)" },
        Op::QueryRequirements { plane: 0 },
        Op::QueryMemoryTypes,
        Op::AllocateMemory { call: "vkAllocateMemory (XYUV)" },
        Op::BindImage { plane: 0, call: "vkBindImageMemory (XYUV)" },
        Op::ExportFd { call: "vkGetMemoryFdKHR (XYUV)" },
        Op::QueryLayout { plane: 0 },
        Op::QueryModifier { plane: 0, call: "vkGetImageDrmFormatModifierPropertiesEXT (XYUV)" },
        Op::Import,
    ]
}

fn yuv444_script() -> (script: Vec<Op>)
    ensures
        script@ == yuv444_calls(),
        crate::dmabuf_export::script_ok(1, script@),
{
    let script: Vec<Op> = vec![
        Op::CreateImage { plane: 0, call: "vkCreateImage (XYUV)" },
        Op::QueryRequirements { plane: 0 },
        Op::QueryMemoryTypes,
        Op::AllocateMemory { call: "vkAllocateMemory (XYUV)" },
        Op::BindImage { plane: 0, call: "vkBindImageMemory (XYUV)" },
        Op::ExportFd { call: "vkGetMemoryFdKHR (XYUV)" },
        Op::QueryLayout { plane: 0 },
        Op::QueryModifier { plane: 0, call: "vkGetImageDrmFormatModifierPropertiesEXT (XYUV)" },
        Op::Import,
    ];
    proof {
        assert(script@ =~= yuv444_calls());
        let s = script@;
        reveal_with_fuel(crate::dmabuf_export::layouts_before, 10);
        reveal_with_fuel(crate::dmabuf_export::modifiers_before, 10);
        assert forall|i: int| 0 <= i < s.len() implies #[trigger] crate::dmabuf_export::op_in_place(
            1,
            s,
            i,
        ) by {}
    }
    script
}

/// The driver calls that export a planar YUV444P surface.
pub open spec fn yuv444p_calls() -> Seq<Op> {
    seq![
        Op::CreateImage { plane: 0, call: "vkCreateImage (YUV444P Y)" },
        Op::CreateImage { plane: 1, call: "vkCreateImage (YUV444P U)" },
        Op::CreateImage { plane: 2, call: "vkCreateImage (YUV444P V)" },
        Op::QueryRequirements { plane: 0 },
        Op::QueryRequirements { plane: 1 },
        Op::QueryRequirements { plane: 2 },
        Op::QueryMemoryTypes,
        Op::AllocateMemory { call: "vkAllocateMemory (YUV444P shared)" },
        Op::BindImage { plane: 0, call: "vkBindImageMemory (YUV444P Y)" },
        Op::BindImage { plane: 1, call: "vkBindImageMemory (YUV444P U)" },
        Op::BindImage { plane: 2, call: "vkBindImageMemory (YUV444P V)" },
        Op::ExportFd { call: "vkGetMemoryFdKHR (YUV444P shared)" },
        Op::QueryModifier { plane: 0, call: "vkGetImageDrmFormatModifierPropertiesEXT (YUV444P Y)" },
        Op::QueryModifier { plane: 1, call: "vkGetImageDrmFormatModifierPropertiesEXT (YUV444P U)" },
        Op::QueryModifier { plane: 2, call: "vkGetImageDrmFormatModifierPropertiesEXT (YUV444P V)" },
        Op::QueryLayout { plane: 0 },
        Op::QueryLayout { plane: 1 },
        Op::QueryLayout { plane: 2 },
        Op::Import,
    ]
}

fn yuv444p_script() -> (script: Vec<Op>)
    ensures
        script@ == yuv444p_calls(),
        crate::dmabuf_export::script_ok(3, script@),
{
    let script: Vec<Op> = vec![
        Op::CreateImage { plane: 0, call: "vkCreateImage (YUV444P Y)" },
        Op::CreateImage { plane: 1, call: "vkCreateImage (YUV444P U)" },
        Op::CreateImage { plane: 2, call: "vkCreateImage (YUV444P V)" },
        Op::QueryRequirements { plane: 0 },
        Op::QueryRequirements { plane: 1 },
        Op::QueryRequirements { plane: 2 },
        Op::QueryMemoryTypes,
        Op::AllocateMemory { call: "vkAllocateMemory (YUV444P shared)" },
        Op::BindImage { plane: 0, call: "vkBindImageMemory (YUV444P Y)" },
        Op::BindImage { plane: 1, call: "vkBindImageMemory (YUV444P U)" },
        Op::BindImage { plane: 2, call: "vkBindImageMemory (YUV444P V)" },
        Op::ExportFd { call: "vkGetMemoryFdKHR (YUV444P shared)" },
        Op::QueryModifier { plane: 0, call: "vkGetImageDrmFormatModifierPropertiesEXT (YUV444P Y)" },
        Op::QueryModifier { plane: 1, call: "vkGetImageDrmFormatModifierPropertiesEXT (YUV444P U)" },
        Op::QueryModifier { plane: 2, call: "vkGetImageDrmFormatModifierPropertiesEXT (YUV444P V)" },
        Op::QueryLayout { plane: 0 },
        Op::QueryLayout { plane: 1 },
        Op::QueryLayout { plane: 2 },
        Op::Import,
    ];
    proof {
        assert(script@ =~= yuv444p_calls());
        let s = script@;
        reveal_with_fuel(crate::dmabuf_export::layouts_before, 20);
        reveal_with_fuel(crate::dmabuf_export::modifiers_before, 20);
        assert forall|i: int| 0 <= i < s.len() implies #[trigger] crate::dmabuf_export::op_in_place(
            3,
            s,
            i,
        ) by {}
    }
    script
}

/// Begin the export of one texture of the given format. The memory is dedicated to it.
pub fn export_texture_as_dmabuf(
    device: DeviceGate,
    width: u32,
    height: u32,
    format: TextureFormat,
    usage: TextureUsages,
) -> (r: Result<ExportMachine, ExportError>)
    ensures
        !device.dma_buf ==> r == Err::<ExportMachine, ExportError>(ExportError::FeatureUnsupported),
        device.dma_buf ==> match crate::formats::exportable_format(format) {
            None => r == Err::<ExportMachine, ExportError>(ExportError::UnsupportedFormat(format)),
            Some(f) => begins(
                r,
                device,
                seq![image(f, format, width as int, height as int)],
                texture_calls(),
                usage,
                true,
            ),
        },
{
    if !device.dma_buf {
        return Err(ExportError::FeatureUnsupported);
    }
    let vk_format = match wgpu_format_to_vk(format) {
        Some(f) => f,
        None => {
            return Err(ExportError::UnsupportedFormat(format));
        },
    };
    let vk_usage: u32 = wgpu_usage_to_vk(usage);
    if !device.vulkan {
        return Err(ExportError::NotVulkan);
    }
    let planes: Vec<PlaneSpec> = vec![
        PlaneSpec { format: vk_format, texture_format: format, width, height },
    ];
    assert(planes@ =~= seq![image(vk_format, format, width as int, height as int)]);
    Ok(ExportMachine::start(planes, texture_script(), vk_usage, true))
}

/// Begin the export of an NV12 surface: both planes in one allocation.
pub fn export_nv12_shared_dmabuf(
    device: DeviceGate,
    width: u32,
    height: u32,
    usage: TextureUsages,
) -> (r: Result<ExportMachine, ExportError>)
    requires
        device.dma_buf ==> padded(width, LUMA_ALIGN_8BIT) <= u32::MAX,
    ensures
        begins(r, device, nv12_planes(width, height), nv12_calls(), usage, false),
{
    if !device.dma_buf {
        return Err(ExportError::FeatureUnsupported);
    }
    let aligned_w: u32 = next_multiple_of(width, LUMA_ALIGN_8BIT);
    let chroma_w: u32 = div_ceil(aligned_w, 2);
    let chroma_h: u32 = div_ceil(height, 2);
    let vk_usage: u32 = wgpu_usage_to_vk(usage);
    if !device.vulkan {
        return Err(ExportError::NotVulkan);
    }
    let planes: Vec<PlaneSpec> = vec![
        PlaneSpec {
            format: VkFormat::R8Unorm,
            texture_format: TextureFormat::R8Unorm,
            width: aligned_w,
            height,
        },
        PlaneSpec {
            format: VkFormat::R8G8Unorm,
            texture_format: TextureFormat::Rg8Unorm,
            width: chroma_w,
            height: chroma_h,
        },
    ];
    assert(planes@ =~= nv12_planes(width, height));
    Ok(ExportMachine::start(planes, nv12_script(), vk_usage, false))
}

/// Begin the export of a P010 surface: both planes in one allocation.
pub fn export_p010_shared_dmabuf(
    device: DeviceGate,
    width: u32,
    height: u32,
    usage: TextureUsages,
) -> (r: Result<ExportMachine, ExportError>)
    requires
        device.dma_buf ==> padded(width, LUMA_ALIGN_P010) <= u32::MAX,
        device.dma_buf ==> padded(height, HEIGHT_ALIGN) <= u32::MAX,
    ensures
        begins(r, device, p010_planes(width, height), p010_calls(), usage, false),
{
    if !device.dma_buf {
        return Err(ExportError::FeatureUnsupported);
    }
    let aligned_w: u32 = next_multiple_of(width, LUMA_ALIGN_P010);
    let aligned_h: u32 = next_multiple_of(height, HEIGHT_ALIGN);
    let chroma_w: u32 = div_ceil(aligned_w, 2);
    let chroma_h: u32 = div_ceil(aligned_h, 2);
    let vk_usage: u32 = wgpu_usage_to_vk(usage);
    if !device.vulkan {
        return Err(ExportError::NotVulkan);
    }
    let planes: Vec<PlaneSpec> = vec![
        PlaneSpec {
            format: VkFormat::R16Unorm,
            texture_format: TextureFormat::R16Unorm,
            width: aligned_w,
            height: aligned_h,
        },
        PlaneSpec {
            format: VkFormat::R16G16Unorm,
            texture_format: TextureFormat::Rg16Unorm,
            width: chroma_w,
            height: chroma_h,
        },
    ];
    assert(planes@ =~= p010_planes(width, height));
    Ok(ExportMachine::start(planes, p010_script(), vk_usage, false))
}

/// Begin the export of a packed 10-bit 4:4:4 surface.
pub fn export_xv30_shared_dmabuf(
    device: DeviceGate,
    width: u32,
    height: u32,
    usage: TextureUsages,
) -> (r: Result<ExportMachine, ExportError>)
    requires
        device.dma_buf ==> padded(width, LUMA_ALIGN_XV30) <= u32::MAX,
        device.dma_buf ==> padded(height, HEIGHT_ALIGN_XV30) <= u32::MAX,
    ensures
        begins(r, device, xv30_planes(width, height), xv30_calls(), usage, false),
{
    if !device.dma_buf {
        return Err(ExportError::FeatureUnsupported);
    }
    let aligned_w: u32 = next_multiple_of(width, LUMA_ALIGN_XV30);
    let aligned_h: u32 = next_multiple_of(height, HEIGHT_ALIGN_XV30);
    let vk_usage: u32 = wgpu_usage_to_vk(usage);
    if !device.vulkan {
        return Err(ExportError::NotVulkan);
    }
    let planes: Vec<PlaneSpec> = vec![
        PlaneSpec {
            format: VkFormat::A2B10G10R10UnormPack32,
            texture_format: TextureFormat::Rgb10a2Unorm,
            width: aligned_w,
            height: aligned_h,
        },
    ];
    assert(planes@ =~= xv30_planes(width, height));
    Ok(ExportMachine::start(planes, xv30_script(), vk_usage, false))
}

/// Begin the export of a packed 8-bit 4:4:4 surface.
pub fn export_yuv444_shared_dmabuf(
    device: DeviceGate,
    width: u32,
    height: u32,
    usage: TextureUsages,
) -> (r: Result<ExportMachine, ExportError>)
    requires
        device.dma_buf ==> padded(width, LUMA_ALIGN_XYUV) <= u32::MAX,
    ensures
        begins(r, device, yuv444_planes(width, height), yuv444_calls(), usage, false),
{
    if !device.dma_buf {
        return Err(ExportError::FeatureUnsupported);
    }
    let aligned_w: u32 = next_multiple_of(width, LUMA_ALIGN_XYUV);
    let vk_usage: u32 = wgpu_usage_to_vk(usage);
    if !device.vulkan {
        return Err(ExportError::NotVulkan);
    }
    let planes: Vec<PlaneSpec> = vec![
        PlaneSpec {
            format: VkFormat::R8G8B8A8Unorm,
            texture_format: TextureFormat::Rgba8Unorm,
            width: aligned_w,
            height,
        },
    ];
    assert(planes@ =~= yuv444_planes(width, height));
    Ok(ExportMachine::start(planes, yuv444_script(), vk_usage, false))
}

/// Begin the export of a planar 4:4:4 surface: three planes in one allocation.
pub fn export_yuv444p_shared_dmabuf(
    device: DeviceGate,
    width: u32,
    height: u32,
    usage: TextureUsages,
) -> (r: Result<ExportMachine, ExportError>)
    requires
        device.dma_buf ==> padded(width, LUMA_ALIGN_8BIT) <= u32::MAX,
        device.dma_buf ==> padded(height, HEIGHT_ALIGN) <= u32::MAX,
    ensures
        begins(r, device, yuv444p_planes(width, height), yuv444p_calls(), usage, false),
{
    if !device.dma_buf {
        return Err(ExportError::FeatureUnsupported);
    }
    let aligned_w: u32 = next_multiple_of(width, LUMA_ALIGN_8BIT);
    let aligned_h: u32 = next_multiple_of(height, HEIGHT_ALIGN);
    let vk_usage: u32 = wgpu_usage_to_vk(usage);
    if !device.vulkan {
        return Err(ExportError::NotVulkan);
    }
    let plane = PlaneSpec {
        format: VkFormat::R8Unorm,
        texture_format: TextureFormat::R8Unorm,
        width: aligned_w,
        height: aligned_h,
    };
    let planes: Vec<PlaneSpec> = vec![plane, plane, plane];
    assert(planes@ =~= yuv444p_planes(width, height));
    Ok(ExportMachine::start(planes, yuv444p_script(), vk_usage, false))
}

/// Bytes of one texel.
pub open spec fn texel_bytes(f: VkFormat) -> int {
    match f {
        VkFormat::R8Unorm => 1,
        VkFormat::R8G8Unorm => 2,
        VkFormat::R16Unorm => 2,
        VkFormat::R16G16Unorm => 4,
        VkFormat::B8G8R8A8Unorm => 4,
        VkFormat::R8G8B8A8Unorm => 4,
        VkFormat::A2B10G10R10UnormPack32 => 4,
    }
}

/// Bytes in one row of an image, without padding by the driver.
pub open spec fn row_bytes(p: PlaneSpec) -> int {
    p.width * texel_bytes(p.format)
}

#[verifier::spinoff_prover]
proof fn lemma_nv12_rows(width: u32, height: u32)
    requires
        padded(width, LUMA_ALIGN_8BIT) <= u32::MAX,
    ensures
        row_bytes(nv12_planes(width, height)[0]) % 64 == 0,
        row_bytes(nv12_planes(width, height)[1]) == row_bytes(nv12_planes(width, height)[0]),
        nv12_planes(width, height)[0].width >= width,
{
    crate::memory::lemma_round_up(width as int, 64);
}

#[verifier::spinoff_prover]
proof fn lemma_p010_rows(width: u32, height: u32)
    requires
        padded(width, LUMA_ALIGN_P010) <= u32::MAX,
        padded(height, HEIGHT_ALIGN) <= u32::MAX,
    ensures
        row_bytes(p010_planes(width, height)[0]) % 64 == 0,
        row_bytes(p010_planes(width, height)[1]) == row_bytes(p010_planes(width, height)[0]),
        p010_planes(width, height)[0].width >= width,
        p010_planes(width, height)[0].height >= height,
{
    crate::memory::lemma_round_up(width as int, 32);
    crate::memory::lemma_round_up(height as int, 16);
}

#[verifier::spinoff_prover]
proof fn lemma_xv30_rows(width: u32, height: u32)
    requires
        padded(width, LUMA_ALIGN_XV30) <= u32::MAX,
        padded(height, HEIGHT_ALIGN_XV30) <= u32::MAX,
    ensures
        row_bytes(xv30_planes(width, height)[0]) % 128 == 0,
        xv30_planes(width, height)[0].width >= width,
        xv30_planes(width, height)[0].height >= height,
{
    crate::memory::lemma_round_up(width as int, 32);
    crate::memory::lemma_round_up(height as int, 32);
}

#[verifier::spinoff_prover]
proof fn lemma_yuv444_rows(width: u32, height: u32)
    requires
        padded(width, LUMA_ALIGN_XYUV) <= u32::MAX,
    ensures
        row_bytes(yuv444_planes(width, height)[0]) % 64 == 0,
        yuv444_planes(width, height)[0].width >= width,
{
    crate::memory::lemma_round_up(width as int, 16);
}

#[verifier::spinoff_prover]
proof fn lemma_yuv444p_rows(width: u32, height: u32)
    requires
        padded(width, LUMA_ALIGN_8BIT) <= u32::MAX,
        padded(height, HEIGHT_ALIGN) <= u32::MAX,
    ensures
        row_bytes(yuv444p_planes(width, height)[0]) % 64 == 0,
        yuv444p_planes(width, height)[0].width >= width,
        yuv444p_planes(width, height)[0].height >= height,
{
    crate::memory::lemma_round_up(width as int, 64);
    crate::memory::lemma_round_up(height as int, 16);
}

/// The coarser the padding, the further it goes.
#[verifier::spinoff_prover]
proof fn lemma_finer_padding(value: int)
    ensures
        crate::memory::round_up(value, 32) <= crate::memory::round_up(value, 64),
        crate::memory::round_up(value, 16) <= crate::memory::round_up(value, 32),
{
    crate::memory::lemma_round_up(value, 64);
    crate::memory::lemma_round_up(value, 32);
    crate::memory::lemma_round_up(value, 16);
}

/// Whatever the visible width, every row of an exported surface is a multiple of the bytes that
/// the encoder reads at once, and at least as wide as what it shows.
#[verifier::spinoff_prover]
pub proof fn exported_rows_meet_encoder_alignment(width: u32, height: u32)
    requires
        padded(width, LUMA_ALIGN_8BIT) <= u32::MAX,
        padded(height, HEIGHT_ALIGN_XV30) <= u32::MAX,
    ensures
        row_bytes(nv12_planes(width, height)[0]) % 64 == 0,
        row_bytes(nv12_planes(width, height)[1]) == row_bytes(nv12_planes(width, height)[0]),
        row_bytes(p010_planes(width, height)[0]) % 64 == 0,
        row_bytes(p010_planes(width, height)[1]) == row_bytes(p010_planes(width, height)[0]),
        row_bytes(xv30_planes(width, height)[0]) % 128 == 0,
        row_bytes(yuv444_planes(width, height)[0]) % 64 == 0,
        row_bytes(yuv444p_planes(width, height)[0]) % 64 == 0,
        nv12_planes(width, height)[0].width >= width,
        p010_planes(width, height)[0].width >= width,
        xv30_planes(width, height)[0].width >= width,
        yuv444_planes(width, height)[0].width >= width,
        yuv444p_planes(width, height)[0].width >= width,
        p010_planes(width, height)[0].height >= height,
        xv30_planes(width, height)[0].height >= height,
        yuv444p_planes(width, height)[0].height >= height,
{
    lemma_finer_padding(width as int);
    lemma_finer_padding(height as int);
    lemma_nv12_rows(width, height);
    lemma_p010_rows(width, height);
    lemma_xv30_rows(width, height);
    lemma_yuv444_rows(width, height);
    lemma_yuv444p_rows(width, height);
}

/// Where an exported texture lies in its DMA-BUF.
#[derive(Clone, Copy, Debug, PartialEq, Eq, Structural)]
pub struct DmaBufExport {
    pub drm_format_modifier: u64,
    pub stride: u64,
    pub offset: u64,
    pub size: u64,
}

/// Where the planes of an exported NV12 surface lie in its DMA-BUF.
#[derive(Clone, Copy, Debug, PartialEq, Eq, Structural)]
pub struct SharedNv12Export {
    pub size: u64,
    pub modifier: u64,
    pub y_offset: u64,
    pub y_pitch: u64,
    pub uv_offset: u64,
    pub uv_pitch: u64,
}

/// Where the planes of an exported P010 surface lie in its DMA-BUF.
#[derive(Clone, Copy, Debug, PartialEq, Eq, Structural)]
pub struct SharedP010Export {
    pub size: u64,
    pub modifier: u64,
    pub y_offset: u64,
    pub y_pitch: u64,
    pub uv_offset: u64,
    pub uv_pitch: u64,
}

/// Where an exported packed 10-bit 4:4:4 surface lies in its DMA-BUF.
#[derive(Clone, Copy, Debug, PartialEq, Eq, Structural)]
pub struct SharedXv30Export {
    pub size: u64,
    pub modifier: u64,
    pub offset: u64,
    pub pitch: u64,
}

/// Where an exported packed 8-bit 4:4:4 surface lies in its DMA-BUF.
#[derive(Clone, Copy, Debug, PartialEq, Eq, Structural)]
pub struct SharedYuv444Export {
    pub size: u64,
    pub modifier: u64,
    pub offset: u64,
    pub pitch: u64,
}

/// Where the planes of an exported planar 4:4:4 surface lie in its DMA-BUF.
#[derive(Clone, Copy, Debug, PartialEq, Eq, Structural)]
pub struct SharedYuv444pExport {
    pub size: u64,
    pub modifier: u64,
    pub y_offset: u64,
    pub y_pitch: u64,
    pub u_offset: u64,
    pub u_pitch: u64,
    pub v_offset: u64,
    pub v_pitch: u64,
}

impl DmaBufExport {
    /// Where the planes of a finished export lie, as the descriptor has it.
    pub open spec fn of(x: ExportedPlanes) -> DmaBufExport {
        DmaBufExport {
            drm_format_modifier: x.modifier,
            stride: x.planes@[0].row_pitch,
            offset: x.planes@[0].offset,
            size: x.size,
        }
    }

    /// The descriptor of a finished one-plane export.
    pub fn from_planes(x: &ExportedPlanes) -> (r: DmaBufExport)
        requires
            x.planes@.len() == 1,
        ensures
            r == (DmaBufExport {
                drm_format_modifier: x.modifier,
                stride: x.planes@[0].row_pitch,
                offset: x.planes@[0].offset,
                size: x.size,
            }),
            r == DmaBufExport::of(*x),
    {
        DmaBufExport {
            drm_format_modifier: x.modifier,
            stride: x.planes[0].row_pitch,
            offset: x.planes[0].offset,
            size: x.size,
        }
    }
}

impl SharedNv12Export {
    /// Where the planes of a finished export lie, as the descriptor has it.
    pub open spec fn of(x: ExportedPlanes) -> SharedNv12Export {
        SharedNv12Export {
            size: x.size,
            modifier: x.modifier,
            y_offset: x.planes@[0].offset,
            y_pitch: x.planes@[0].row_pitch,
            uv_offset: x.planes@[1].offset,
            uv_pitch: x.planes@[1].row_pitch,
        }
    }

    /// The descriptor of a finished NV12 export.
    pub fn from_planes(x: &ExportedPlanes) -> (r: SharedNv12Export)
        requires
            x.planes@.len() == 2,
        ensures
            r == (SharedNv12Export {
                size: x.size,
                modifier: x.modifier,
                y_offset: x.planes@[0].offset,
                y_pitch: x.planes@[0].row_pitch,
                uv_offset: x.planes@[1].offset,
                uv_pitch: x.planes@[1].row_pitch,
            }),
            r == SharedNv12Export::of(*x),
    {
        SharedNv12Export {
            size: x.size,
            modifier: x.modifier,
            y_offset: x.planes[0].offset,
            y_pitch: x.planes[0].row_pitch,
            uv_offset: x.planes[1].offset,
            uv_pitch: x.planes[1].row_pitch,
        }
    }
}

impl SharedP010Export {
    /// Where the planes of a finished export lie, as the descriptor has it.
    pub open spec fn of(x: ExportedPlanes) -> SharedP010Export {
        SharedP010Export {
            size: x.size,
            modifier: x.modifier,
            y_offset: x.planes@[0].offset,
            y_pitch: x.planes@[0].row_pitch,
            uv_offset: x.planes@[1].offset,
            uv_pitch: x.planes@[1].row_pitch,
        }
    }

    /// The descriptor of a finished P010 export.
    pub fn from_planes(x: &ExportedPlanes) -> (r: SharedP010Export)
        requires
            x.planes@.len() == 2,
        ensures
            r == (SharedP010Export {
                size: x.size,
                modifier: x.modifier,
                y_offset: x.planes@[0].offset,
                y_pitch: x.planes@[0].row_pitch,
                uv_offset: x.planes@[1].offset,
                uv_pitch: x.planes@[1].row_pitch,
            }),
            r == SharedP010Export::of(*x),
    {
        SharedP010Export {
            size: x.size,
            modifier: x.modifier,
            y_offset: x.planes[0].offset,
            y_pitch: x.planes[0].row_pitch,
            uv_offset: x.planes[1].offset,
            uv_pitch: x.planes[1].row_pitch,
        }
    }
}

impl SharedXv30Export {
    /// Where the planes of a finished export lie, as the descriptor has it.
    pub open spec fn of(x: ExportedPlanes) -> SharedXv30Export {
        SharedXv30Export {
            size: x.size,
            modifier: x.modifier,
            offset: x.planes@[0].offset,
            pitch: x.planes@[0].row_pitch,
        }
    }

    /// The descriptor of a finished packed 10-bit 4:4:4 export.
    pub fn from_planes(x: &ExportedPlanes) -> (r: SharedXv30Export)
        requires
            x.planes@.len() == 1,
        ensures
            r == (SharedXv30Export {
                size: x.size,
                modifier: x.modifier,
                offset: x.planes@[0].offset,
                pitch: x.planes@[0].row_pitch,
            }),
            r == SharedXv30Export::of(*x),
    {
        SharedXv30Export {
            size: x.size,
            modifier: x.modifier,
            offset: x.planes[0].offset,
            pitch: x.planes[0].row_pitch,
        }
    }
}

impl SharedYuv444Export {
    /// Where the planes of a finished export lie, as the descriptor has it.
    pub open spec fn of(x: ExportedPlanes) -> SharedYuv444Export {
        SharedYuv444Export {
            size: x.size,
            modifier: x.modifier,
            offset: x.planes@[0].offset,
            pitch: x.planes@[0].row_pitch,
        }
    }

    /// The descriptor of a finished packed 8-bit 4:4:4 export.
    pub fn from_planes(x: &ExportedPlanes) -> (r: SharedYuv444Export)
        requires
            x.planes@.len() == 1,
        ensures
            r == (SharedYuv444Export {
                size: x.size,
                modifier: x.modifier,
                offset: x.planes@[0].offset,
                pitch: x.planes@[0].row_pitch,
            }),
            r == SharedYuv444Export::of(*x),
    {
        SharedYuv444Export {
            size: x.size,
            modifier: x.modifier,
            offset: x.planes[0].offset,
            pitch: x.planes[0].row_pitch,
        }
    }
}

impl SharedYuv444pExport {
    /// Where the planes of a finished export lie, as the descriptor has it.
    pub open spec fn of(x: ExportedPlanes) -> SharedYuv444pExport {
        SharedYuv444pExport {
            size: x.size,
            modifier: x.modifier,
            y_offset: x.planes@[0].offset,
            y_pitch: x.planes@[0].row_pitch,
            u_offset: x.planes@[1].offset,
            u_pitch: x.planes@[1].row_pitch,
            v_offset: x.planes@[2].offset,
            v_pitch: x.planes@[2].row_pitch,
        }
    }

    /// The descriptor of a finished planar 4:4:4 export.
    pub fn from_planes(x: &ExportedPlanes) -> (r: SharedYuv444pExport)
        requires
            x.planes@.len() == 3,
        ensures
            r == (SharedYuv444pExport {
                size: x.size,
                modifier: x.modifier,
                y_offset: x.planes@[0].offset,
                y_pitch: x.planes@[0].row_pitch,
                u_offset: x.planes@[1].offset,
                u_pitch: x.planes@[1].row_pitch,
                v_offset: x.planes@[2].offset,
                v_pitch: x.planes@[2].row_pitch,
            }),
            r == SharedYuv444pExport::of(*x),
    {
        SharedYuv444pExport {
            size: x.size,
            modifier: x.modifier,
            y_offset: x.planes[0].offset,
            y_pitch: x.planes[0].row_pitch,
            u_offset: x.planes[1].offset,
            u_pitch: x.planes[1].row_pitch,
            v_offset: x.planes[2].offset,
            v_pitch: x.planes[2].row_pitch,
        }
    }
}

/// The plane shows a frame of `width` x `height` samples, and is padded by less than the given
/// numbers of columns and rows.
pub open spec fn shows(p: PlaneSpec, width: int, height: int, columns: int, rows: int) -> bool {
    &&& width <= p.width < width + columns
    &&& height <= p.height < height + rows
}

/// Every plane of a 4:4:4 surface, and the luma plane of every other, shows the whole frame at
/// full resolution, with no more padding than the encoder asks for, and in rows of whole blocks.
/// All planes of one 4:4:4 surface have one extent.
#[verifier::spinoff_prover]
pub proof fn full_planes_show_the_whole_frame(width: u32, height: u32)
    requires
        padded(width, LUMA_ALIGN_8BIT) <= u32::MAX,
        padded(height, HEIGHT_ALIGN_XV30) <= u32::MAX,
    ensures
        ({
            let (w, h) = (width as int, height as int);
            let p = yuv444p_planes(width, height);
            &&& p.len() == 3
            &&& forall|i: int|
                0 <= i < 3 ==> {
                    &&& shows(#[trigger] p[i], w, h, 64, 16)
                    &&& row_bytes(p[i]) % 64 == 0 && p[i].height % 16 == 0
                    &&& p[i].width == p[0].width && p[i].height == p[0].height
                }
        }),
        ({
            let p = yuv444_planes(width, height);
            p.len() == 1 && shows(p[0], width as int, height as int, 16, 1) && row_bytes(p[0]) % 64
                == 0
        }),
        ({
            let p = xv30_planes(width, height);
            p.len() == 1 && shows(p[0], width as int, height as int, 32, 32) && row_bytes(p[0])
                % 128 == 0 && p[0].height % 32 == 0
        }),
        shows(nv12_planes(width, height)[0], width as int, height as int, 64, 1),
        row_bytes(nv12_planes(width, height)[0]) % 64 == 0,
        shows(p010_planes(width, height)[0], width as int, height as int, 32, 16),
        row_bytes(p010_planes(width, height)[0]) % 64 == 0,
        p010_planes(width, height)[0].height % 16 == 0,
{
    lemma_finer_padding(width as int);
    lemma_finer_padding(height as int);
    crate::memory::lemma_round_up(width as int, 64);
    crate::memory::lemma_round_up(width as int, 32);
    crate::memory::lemma_round_up(width as int, 16);
    crate::memory::lemma_round_up(height as int, 32);
    crate::memory::lemma_round_up(height as int, 16);
    exported_rows_meet_encoder_alignment(width, height);
}

/// A 4:2:0 surface has a chroma plane of one sample for two by two luma samples, an odd row left
/// over having its own: it shows half of the frame in each direction, and its rows are as long as
/// those of the luma plane.
#[verifier::spinoff_prover]
pub proof fn chroma_planes_show_half_of_the_frame(width: u32, height: u32)
    requires
        padded(width, LUMA_ALIGN_8BIT) <= u32::MAX,
        padded(height, HEIGHT_ALIGN_XV30) <= u32::MAX,
    ensures
        ({
            let p = nv12_planes(width, height);
            &&& p.len() == 2
            &&& 2 * p[1].width == p[0].width
            &&& p[0].height <= 2 * p[1].height <= p[0].height + 1
            &&& row_bytes(p[1]) == row_bytes(p[0])
        }),
        ({
            let p = p010_planes(width, height);
            &&& p.len() == 2
            &&& 2 * p[1].width == p[0].width
            &&& 2 * p[1].height == p[0].height
            &&& row_bytes(p[1]) == row_bytes(p[0])
        }),
{
    lemma_finer_padding(width as int);
    lemma_finer_padding(height as int);
    crate::memory::lemma_round_up(width as int, 64);
    crate::memory::lemma_round_up(width as int, 32);
    crate::memory::lemma_round_up(height as int, 16);
    exported_rows_meet_encoder_alignment(width, height);
}

/// Each plane has one channel for luma or one chroma component, two for a pair of them, or four
/// where everything is packed, and as many bits as the surface is named for. Its image has the
/// channels under which it is then used, and where a single texture of that kind can be exported,
/// it is exported in the same format.
pub proof fn planes_have_the_channels_of_their_samples(width: u32, height: u32)
    ensures
        ({
            let nv12 = nv12_planes(width, height);
            let p010 = p010_planes(width, height);
            let xv30 = xv30_planes(width, height);
            let yuv444 = yuv444_planes(width, height);
            let yuv444p = yuv444p_planes(width, height);
            &&& has_channels(nv12[0], 1, 8) && has_channels(nv12[1], 2, 8)
            &&& has_channels(p010[0], 1, 16) && has_channels(p010[1], 2, 16)
            &&& has_channels(xv30[0], 4, 10)
            &&& has_channels(yuv444[0], 4, 8) && yuv444[0].format == VkFormat::R8G8B8A8Unorm
            &&& yuv444[0].texture_format == TextureFormat::Rgba8Unorm
            &&& forall|i: int| 0 <= i < 3 ==> has_channels(#[trigger] yuv444p[i], 1, 8)
        }),
{
}

/// The image of a plane has so many channels of so many bits, for Vulkan and for the renderer.
pub open spec fn has_channels(p: PlaneSpec, count: int, bits: int) -> bool {
    &&& crate::formats::channels(p.format) == (count, bits)
    &&& crate::formats::texture_channels(p.texture_format) == (count, bits)
    &&& crate::formats::exportable_format(p.texture_format) matches Some(f) ==> f == p.format
}

/// An export begins exactly on a device with the DMA-BUF feature that runs on Vulkan. Without the
/// feature that is the reason, whatever the backend.
pub proof fn only_vulkan_devices_with_dma_buf_export(device: DeviceGate)
    ensures
        device.refusal() is None <==> device.dma_buf && device.vulkan,
        device.refusal() matches Some(e) ==> (e is FeatureUnsupported <==> !device.dma_buf),
        device.refusal() matches Some(e) ==> (e is NotVulkan <==> device.dma_buf
            && !device.vulkan),
{
}

/// An export begins with the images of its planes, asked for the uses of the caller, and nothing
/// done yet: the first driver call creates the first image.
pub proof fn exports_begin_with_the_first_image(
    planes: Seq<PlaneSpec>,
    calls: Seq<Op>,
    usage: u32,
    dedicated: bool,
)
    requires
        crate::dmabuf_export::script_ok(planes.len() as int, calls),
    ensures
        ({
            let st = crate::dmabuf_export::ExportState::start(planes, calls, usage, dedicated);
            &&& st.step() == (crate::dmabuf_export::Step::CreateImage {
                plane: 0,
                image: planes[0],
                usage,
            })
            &&& st.dedicated == dedicated
            &&& st.failure is None && st.acquired.len() == 0 && st.reqs.len() == 0
        }),
{
    assert(crate::dmabuf_export::op_in_place(planes.len() as int, calls, 0));
}

/// The text begins with the other one.
pub open spec fn begins_with(text: Seq<char>, start: Seq<char>) -> bool {
    text.len() >= start.len() && text.take(start.len() as int) == start
}

/// A failure of the operation is reported under the Vulkan function that it calls.
pub open spec fn is_named_after_its_function(op: Op) -> bool {
    match op {
        Op::CreateImage { call, .. } => begins_with(call@, "vkCreateImage"@),
        Op::AllocateMemory { call } => begins_with(call@, "vkAllocateMemory"@),
        Op::BindImage { call, .. } => begins_with(call@, "vkBindImageMemory"@),
        Op::ExportFd { call } => begins_with(call@, "vkGetMemoryFdKHR"@),
        Op::QueryModifier { call, .. } => begins_with(
            call@,
            "vkGetImageDrmFormatModifierPropertiesEXT"@,
        ),
        _ => true,
    }
}

/// A script that exports `n` planes in the proper order, each call under the function's name, and
/// reads the modifier of the first plane before any other.
pub open spec fn is_script_for(n: int, script: Seq<Op>) -> bool {
    &&& crate::dmabuf_export::script_ok(n, script)
    &&& forall|i: int| 0 <= i < script.len() ==> is_named_after_its_function(#[trigger] script[i])
    &&& forall|i: int|
        0 <= i < script.len() && #[trigger] script[i] is QueryModifier
            && crate::dmabuf_export::modifiers_before(script, i) == 0
            ==> script[i]->QueryModifier_plane == 0
}

#[verifier::spinoff_prover]
proof fn lemma_texture_names()
    ensures
        begins_with("vkCreateImage"@, "vkCreateImage"@),
        begins_with("vkAllocateMemory"@, "vkAllocateMemory"@),
        begins_with("vkBindImageMemory"@, "vkBindImageMemory"@),
        begins_with("vkGetMemoryFdKHR"@, "vkGetMemoryFdKHR"@),
        begins_with("vkGetImageDrmFormatModifierPropertiesEXT"@, "vkGetImageDrmFormatModifierPropertiesEXT"@),
{
    assert(begins_with("vkCreateImage"@, "vkCreateImage"@)) by {
        reveal_strlit("vkCreateImage");
        assert("vkCreateImage"@.take("vkCreateImage"@.len() as int) =~= "vkCreateImage"@);
    }
    assert(begins_with("vkAllocateMemory"@, "vkAllocateMemory"@)) by {
        reveal_strlit("vkAllocateMemory");
        assert("vkAllocateMemory"@.take("vkAllocateMemory"@.len() as int) =~= "vkAllocateMemory"@);
    }
    assert(begins_with("vkBindImageMemory"@, "vkBindImageMemory"@)) by {
        reveal_strlit("vkBindImageMemory");
        assert("vkBindImageMemory"@.take("vkBindImageMemory"@.len() as int) =~= "vkBindImageMemory"@);
    }
    assert(begins_with("vkGetMemoryFdKHR"@, "vkGetMemoryFdKHR"@)) by {
        reveal_strlit("vkGetMemoryFdKHR");
        assert("vkGetMemoryFdKHR"@.take("vkGetMemoryFdKHR"@.len() as int) =~= "vkGetMemoryFdKHR"@);
    }
    assert(begins_with("vkGetImageDrmFormatModifierPropertiesEXT"@, "vkGetImageDrmFormatModifierPropertiesEXT"@)) by {
        reveal_strlit("vkGetImageDrmFormatModifierPropertiesEXT");
        assert("vkGetImageDrmFormatModifierPropertiesEXT"@.take("vkGetImageDrmFormatModifierPropertiesEXT"@.len() as int) =~= "vkGetImageDrmFormatModifierPropertiesEXT"@);
    }
}

#[verifier::spinoff_prover]
proof fn lemma_texture_script()
    ensures
        is_script_for(1, texture_calls()),
{
    let s = texture_calls();
    lemma_texture_names();
    reveal_with_fuel(crate::dmabuf_export::layouts_before, 10);
    reveal_with_fuel(crate::dmabuf_export::modifiers_before, 10);
    assert forall|i: int| 0 <= i < s.len() implies #[trigger] crate::dmabuf_export::op_in_place(
        1,
        s,
        i,
    ) by {}
    assert forall|i: int| 0 <= i < s.len() implies is_named_after_its_function(
        #[trigger] s[i],
    ) by {}
}

#[verifier::spinoff_prover]
proof fn lemma_nv12_names()
    ensures
        begins_with("vkCreateImage (NV12 shared)"@, "vkCreateImage"@),
        begins_with("vkAllocateMemory (NV12 shared)"@, "vkAllocateMemory"@),
        begins_with("vkBindImageMemory (Y)"@, "vkBindImageMemory"@),
        begins_with("vkBindImageMemory (UV)"@, "vkBindImageMemory"@),
        begins_with("vkGetMemoryFdKHR (NV12 shared)"@, "vkGetMemoryFdKHR"@),
        begins_with("vkGetImageDrmFormatModifierPropertiesEXT (Y)"@, "vkGetImageDrmFormatModifierPropertiesEXT"@),
{
    assert(begins_with("vkCreateImage (NV12 shared)"@, "vkCreateImage"@)) by {
        reveal_strlit("vkCreateImage (NV12 shared)");
        reveal_strlit("vkCreateImage");
        assert("vkCreateImage (NV12 shared)"@.take("vkCreateImage"@.len() as int) =~= "vkCreateImage"@);
    }
    assert(begins_with("vkAllocateMemory (NV12 shared)"@, "vkAllocateMemory"@)) by {
        reveal_strlit("vkAllocateMemory (NV12 shared)");
        reveal_strlit("vkAllocateMemory");
        assert("vkAllocateMemory (NV12 shared)"@.take("vkAllocateMemory"@.len() as int) =~= "vkAllocateMemory"@);
    }
    assert(begins_with("vkBindImageMemory (Y)"@, "vkBindImageMemory"@)) by {
        reveal_strlit("vkBindImageMemory (Y)");
        reveal_strlit("vkBindImageMemory");
        assert("vkBindImageMemory (Y)"@.take("vkBindImageMemory"@.len() as int) =~= "vkBindImageMemory"@);
    }
    assert(begins_with("vkBindImageMemory (UV)"@, "vkBindImageMemory"@)) by {
        reveal_strlit("vkBindImageMemory (UV)");
        reveal_strlit("vkBindImageMemory");
        assert("vkBindImageMemory (UV)"@.take("vkBindImageMemory"@.len() as int) =~= "vkBindImageMemory"@);
    }
    assert(begins_with("vkGetMemoryFdKHR (NV12 shared)"@, "vkGetMemoryFdKHR"@)) by {
        reveal_strlit("vkGetMemoryFdKHR (NV12 shared)");
        reveal_strlit("vkGetMemoryFdKHR");
        assert("vkGetMemoryFdKHR (NV12 shared)"@.take("vkGetMemoryFdKHR"@.len() as int) =~= "vkGetMemoryFdKHR"@);
    }
    assert(begins_with("vkGetImageDrmFormatModifierPropertiesEXT (Y)"@, "vkGetImageDrmFormatModifierPropertiesEXT"@)) by {
        reveal_strlit("vkGetImageDrmFormatModifierPropertiesEXT (Y)");
        reveal_strlit("vkGetImageDrmFormatModifierPropertiesEXT");
        assert("vkGetImageDrmFormatModifierPropertiesEXT (Y)"@.take("vkGetImageDrmFormatModifierPropertiesEXT"@.len() as int) =~= "vkGetImageDrmFormatModifierPropertiesEXT"@);
    }
}

#[verifier::spinoff_prover]
proof fn lemma_nv12_script()
    ensures
        is_script_for(2, nv12_calls()),
{
    let s = nv12_calls();
    lemma_nv12_names();
    reveal_with_fuel(crate::dmabuf_export::layouts_before, 14);
    reveal_with_fuel(crate::dmabuf_export::modifiers_before, 14);
    assert forall|i: int| 0 <= i < s.len() implies #[trigger] crate::dmabuf_export::op_in_place(
        2,
        s,
        i,
    ) by {}
    assert forall|i: int| 0 <= i < s.len() implies is_named_after_its_function(
        #[trigger] s[i],
    ) by {}
}

#[verifier::spinoff_prover]
proof fn lemma_p010_names()
    ensures
        begins_with("vkCreateImage (P010 shared)"@, "vkCreateImage"@),
        begins_with("vkAllocateMemory (P010 shared)"@, "vkAllocateMemory"@),
        begins_with("vkBindImageMemory (P010 Y)"@, "vkBindImageMemory"@),
        begins_with("vkBindImageMemory (P010 UV)"@, "vkBindImageMemory"@),
        begins_with("vkGetMemoryFdKHR (P010 shared)"@, "vkGetMemoryFdKHR"@),
        begins_with("vkGetImageDrmFormatModifierPropertiesEXT (P010 Y)"@, "vkGetImageDrmFormatModifierPropertiesEXT"@),
{
    assert(begins_with("vkCreateImage (P010 shared)"@, "vkCreateImage"@)) by {
        reveal_strlit("vkCreateImage (P010 shared)");
        reveal_strlit("vkCreateImage");
        assert("vkCreateImage (P010 shared)"@.take("vkCreateImage"@.len() as int) =~= "vkCreateImage"@);
    }
    assert(begins_with("vkAllocateMemory (P010 shared)"@, "vkAllocateMemory"@)) by {
        reveal_strlit("vkAllocateMemory (P010 shared)");
        reveal_strlit("vkAllocateMemory");
        assert("vkAllocateMemory (P010 shared)"@.take("vkAllocateMemory"@.len() as int) =~= "vkAllocateMemory"@);
    }
    assert(begins_with("vkBindImageMemory (P010 Y)"@, "vkBindImageMemory"@)) by {
        reveal_strlit("vkBindImageMemory (P010 Y)");
        reveal_strlit("vkBindImageMemory");
        assert("vkBindImageMemory (P010 Y)"@.take("vkBindImageMemory"@.len() as int) =~= "vkBindImageMemory"@);
    }
    assert(begins_with("vkBindImageMemory (P010 UV)"@, "vkBindImageMemory"@)) by {
        reveal_strlit("vkBindImageMemory (P010 UV)");
        reveal_strlit("vkBindImageMemory");
        assert("vkBindImageMemory (P010 UV)"@.take("vkBindImageMemory"@.len() as int) =~= "vkBindImageMemory"@);
    }
    assert(begins_with("vkGetMemoryFdKHR (P010 shared)"@, "vkGetMemoryFdKHR"@)) by {
        reveal_strlit("vkGetMemoryFdKHR (P010 shared)");
        reveal_strlit("vkGetMemoryFdKHR");
        assert("vkGetMemoryFdKHR (P010 shared)"@.take("vkGetMemoryFdKHR"@.len() as int) =~= "vkGetMemoryFdKHR"@);
    }
    assert(begins_with("vkGetImageDrmFormatModifierPropertiesEXT (P010 Y)"@, "vkGetImageDrmFormatModifierPropertiesEXT"@)) by {
        reveal_strlit("vkGetImageDrmFormatModifierPropertiesEXT (P010 Y)");
        reveal_strlit("vkGetImageDrmFormatModifierPropertiesEXT");
        assert("vkGetImageDrmFormatModifierPropertiesEXT (P010 Y)"@.take("vkGetImageDrmFormatModifierPropertiesEXT"@.len() as int) =~= "vkGetImageDrmFormatModifierPropertiesEXT"@);
    }
}

#[verifier::spinoff_prover]
proof fn lemma_p010_script()
    ensures
        is_script_for(2, p010_calls()),
{
    let s = p010_calls();
    lemma_p010_names();
    reveal_with_fuel(crate::dmabuf_export::layouts_before, 14);
    reveal_with_fuel(crate::dmabuf_export::modifiers_before, 14);
    assert forall|i: int| 0 <= i < s.len() implies #[trigger] crate::dmabuf_export::op_in_place(
        2,
        s,
        i,
    ) by {}
    assert forall|i: int| 0 <= i < s.len() implies is_named_after_its_function(
        #[trigger] s[i],
    ) by {}
}

#[verifier::spinoff_prover]
proof fn lemma_xv30_names()
    ensures
        begins_with("vkCreateImage (XV30)"@, "vkCreateImage"@),
        begins_with("vkAllocateMemory (XV30)"@, "vkAllocateMemory"@),
        begins_with("vkBindImageMemory (XV30)"@, "vkBindImageMemory"@),
        begins_with("vkGetMemoryFdKHR (XV30)"@, "vkGetMemoryFdKHR"@),
        begins_with("vkGetImageDrmFormatModifierPropertiesEXT (XV30)"@, "vkGetImageDrmFormatModifierPropertiesEXT"@),
{
    assert(begins_with("vkCreateImage (XV30)"@, "vkCreateImage"@)) by {
        reveal_strlit("vkCreateImage (XV30)");
        reveal_strlit("vkCreateImage");
        assert("vkCreateImage (XV30)"@.take("vkCreateImage"@.len() as int) =~= "vkCreateImage"@);
    }
    assert(begins_with("vkAllocateMemory (XV30)"@, "vkAllocateMemory"@)) by {
        reveal_strlit("vkAllocateMemory (XV30)");
        reveal_strlit("vkAllocateMemory");
        assert("vkAllocateMemory (XV30)"@.take("vkAllocateMemory"@.len() as int) =~= "vkAllocateMemory"@);
    }
    assert(begins_with("vkBindImageMemory (XV30)"@, "vkBindImageMemory"@)) by {
        reveal_strlit("vkBindImageMemory (XV30)");
        reveal_strlit("vkBindImageMemory");
        assert("vkBindImageMemory (XV30)"@.take("vkBindImageMemory"@.len() as int) =~= "vkBindImageMemory"@);
    }
    assert(begins_with("vkGetMemoryFdKHR (XV30)"@, "vkGetMemoryFdKHR"@)) by {
        reveal_strlit("vkGetMemoryFdKHR (XV30)");
        reveal_strlit("vkGetMemoryFdKHR");
        assert("vkGetMemoryFdKHR (XV30)"@.take("vkGetMemoryFdKHR"@.len() as int) =~= "vkGetMemoryFdKHR"@);
    }
    assert(begins_with("vkGetImageDrmFormatModifierPropertiesEXT (XV30)"@, "vkGetImageDrmFormatModifierPropertiesEXT"@)) by {
        reveal_strlit("vkGetImageDrmFormatModifierPropertiesEXT (XV30)");
        reveal_strlit("vkGetImageDrmFormatModifierPropertiesEXT");
        assert("vkGetImageDrmFormatModifierPropertiesEXT (XV30)"@.take("vkGetImageDrmFormatModifierPropertiesEXT"@.len() as int) =~= "vkGetImageDrmFormatModifierPropertiesEXT"@);
    }
}

#[verifier::spinoff_prover]
proof fn lemma_xv30_script()
    ensures
        is_script_for(1, xv30_calls()),
{
    let s = xv30_calls();
    lemma_xv30_names();
    reveal_with_fuel(crate::dmabuf_export::layouts_before, 10);
    reveal_with_fuel(crate::dmabuf_export::modifiers_before, 10);
    assert forall|i: int| 0 <= i < s.len() implies #[trigger] crate::dmabuf_export::op_in_place(
        1,
        s,
        i,
    ) by {}
    assert forall|i: int| 0 <= i < s.len() implies is_named_after_its_function(
        #[trigger] s[i],
    ) by {}
}

#[verifier::spinoff_prover]
proof fn lemma_yuv444_names()
    ensures
        begins_with("vkCreateImage (XYUV)"@, "vkCreateImage"@),
        begins_with("vkAllocateMemory (XYUV)"@, "vkAllocateMemory"@),
        begins_with("vkBindImageMemory (XYUV)"@, "vkBindImageMemory"@),
        begins_with("vkGetMemoryFdKHR (XYUV)"@, "vkGetMemoryFdKHR"@),
        begins_with("vkGetImageDrmFormatModifierPropertiesEXT (XYUV)"@, "vkGetImageDrmFormatModifierPropertiesEXT"@),
{
    assert(begins_with("vkCreateImage (XYUV)"@, "vkCreateImage"@)) by {
        reveal_strlit("vkCreateImage (XYUV)");
        reveal_strlit("vkCreateImage");
        assert("vkCreateImage (XYUV)"@.take("vkCreateImage"@.len() as int) =~= "vkCreateImage"@);
    }
    assert(begins_with("vkAllocateMemory (XYUV)"@, "vkAllocateMemory"@)) by {
        reveal_strlit("vkAllocateMemory (XYUV)");
        reveal_strlit("vkAllocateMemory");
        assert("vkAllocateMemory (XYUV)"@.take("vkAllocateMemory"@.len() as int) =~= "vkAllocateMemory"@);
    }
    assert(begins_with("vkBindImageMemory (XYUV)"@, "vkBindImageMemory"@)) by {
        reveal_strlit("vkBindImageMemory (XYUV)");
        reveal_strlit("vkBindImageMemory");
        assert("vkBindImageMemory (XYUV)"@.take("vkBindImageMemory"@.len() as int) =~= "vkBindImageMemory"@);
    }
    assert(begins_with("vkGetMemoryFdKHR (XYUV)"@, "vkGetMemoryFdKHR"@)) by {
        reveal_strlit("vkGetMemoryFdKHR (XYUV)");
        reveal_strlit("vkGetMemoryFdKHR");
        assert("vkGetMemoryFdKHR (XYUV)"@.take("vkGetMemoryFdKHR"@.len() as int) =~= "vkGetMemoryFdKHR"@);
    }
    assert(begins_with("vkGetImageDrmFormatModifierPropertiesEXT (XYUV)"@, "vkGetImageDrmFormatModifierPropertiesEXT"@)) by {
        reveal_strlit("vkGetImageDrmFormatModifierPropertiesEXT (XYUV)");
        reveal_strlit("vkGetImageDrmFormatModifierPropertiesEXT");
        assert("vkGetImageDrmFormatModifierPropertiesEXT (XYUV)"@.take("vkGetImageDrmFormatModifierPropertiesEXT"@.len() as int) =~= "vkGetImageDrmFormatModifierPropertiesEXT"@);
    }
}

#[verifier::spinoff_prover]
proof fn lemma_yuv444_script()
    ensures
        is_script_for(1, yuv444_calls()),
{
    let s = yuv444_calls();
    lemma_yuv444_names();
    reveal_with_fuel(crate::dmabuf_export::layouts_before, 10);
    reveal_with_fuel(crate::dmabuf_export::modifiers_before, 10);
    assert forall|i: int| 0 <= i < s.len() implies #[trigger] crate::dmabuf_export::op_in_place(
        1,
        s,
        i,
    ) by {}
    assert forall|i: int| 0 <= i < s.len() implies is_named_after_its_function(
        #[trigger] s[i],
    ) by {}
}

#[verifier::spinoff_prover]
proof fn lemma_yuv444p_names()
    ensures
        begins_with("vkCreateImage (YUV444P Y)"@, "vkCreateImage"@),
        begins_with("vkCreateImage (YUV444P U)"@, "vkCreateImage"@),
        begins_with("vkCreateImage (YUV444P V)"@, "vkCreateImage"@),
        begins_with("vkAllocateMemory (YUV444P shared)"@, "vkAllocateMemory"@),
        begins_with("vkBindImageMemory (YUV444P Y)"@, "vkBindImageMemory"@),
        begins_with("vkBindImageMemory (YUV444P U)"@, "vkBindImageMemory"@),
        begins_with("vkBindImageMemory (YUV444P V)"@, "vkBindImageMemory"@),
        begins_with("vkGetMemoryFdKHR (YUV444P shared)"@, "vkGetMemoryFdKHR"@),
        begins_with("vkGetImageDrmFormatModifierPropertiesEXT (YUV444P Y)"@, "vkGetImageDrmFormatModifierPropertiesEXT"@),
        begins_with("vkGetImageDrmFormatModifierPropertiesEXT (YUV444P U)"@, "vkGetImageDrmFormatModifierPropertiesEXT"@),
        begins_with("vkGetImageDrmFormatModifierPropertiesEXT (YUV444P V)"@, "vkGetImageDrmFormatModifierPropertiesEXT"@),
{
    assert(begins_with("vkCreateImage (YUV444P Y)"@, "vkCreateImage"@)) by {
        reveal_strlit("vkCreateImage (YUV444P Y)");
        reveal_strlit("vkCreateImage");
        assert("vkCreateImage (YUV444P Y)"@.take("vkCreateImage"@.len() as int) =~= "vkCreateImage"@);
    }
    assert(begins_with("vkCreateImage (YUV444P U)"@, "vkCreateImage"@)) by {
        reveal_strlit("vkCreateImage (YUV444P U)");
        reveal_strlit("vkCreateImage");
        assert("vkCreateImage (YUV444P U)"@.take("vkCreateImage"@.len() as int) =~= "vkCreateImage"@);
    }
    assert(begins_with("vkCreateImage (YUV444P V)"@, "vkCreateImage"@)) by {
        reveal_strlit("vkCreateImage (YUV444P V)");
        reveal_strlit("vkCreateImage");
        assert("vkCreateImage (YUV444P V)"@.take("vkCreateImage"@.len() as int) =~= "vkCreateImage"@);
    }
    assert(begins_with("vkAllocateMemory (YUV444P shared)"@, "vkAllocateMemory"@)) by {
        reveal_strlit("vkAllocateMemory (YUV444P shared)");
        reveal_strlit("vkAllocateMemory");
        assert("vkAllocateMemory (YUV444P shared)"@.take("vkAllocateMemory"@.len() as int) =~= "vkAllocateMemory"@);
    }
    assert(begins_with("vkBindImageMemory (YUV444P Y)"@, "vkBindImageMemory"@)) by {
        reveal_strlit("vkBindImageMemory (YUV444P Y)");
        reveal_strlit("vkBindImageMemory");
        assert("vkBindImageMemory (YUV444P Y)"@.take("vkBindImageMemory"@.len() as int) =~= "vkBindImageMemory"@);
    }
    assert(begins_with("vkBindImageMemory (YUV444P U)"@, "vkBindImageMemory"@)) by {
        reveal_strlit("vkBindImageMemory (YUV444P U)");
        reveal_strlit("vkBindImageMemory");
        assert("vkBindImageMemory (YUV444P U)"@.take("vkBindImageMemory"@.len() as int) =~= "vkBindImageMemory"@);
    }
    assert(begins_with("vkBindImageMemory (YUV444P V)"@, "vkBindImageMemory"@)) by {
        reveal_strlit("vkBindImageMemory (YUV444P V)");
        reveal_strlit("vkBindImageMemory");
        assert("vkBindImageMemory (YUV444P V)"@.take("vkBindImageMemory"@.len() as int) =~= "vkBindImageMemory"@);
    }
    assert(begins_with("vkGetMemoryFdKHR (YUV444P shared)"@, "vkGetMemoryFdKHR"@)) by {
        reveal_strlit("vkGetMemoryFdKHR (YUV444P shared)");
        reveal_strlit("vkGetMemoryFdKHR");
        assert("vkGetMemoryFdKHR (YUV444P shared)"@.take("vkGetMemoryFdKHR"@.len() as int) =~= "vkGetMemoryFdKHR"@);
    }
    assert(begins_with("vkGetImageDrmFormatModifierPropertiesEXT (YUV444P Y)"@, "vkGetImageDrmFormatModifierPropertiesEXT"@)) by {
        reveal_strlit("vkGetImageDrmFormatModifierPropertiesEXT (YUV444P Y)");
        reveal_strlit("vkGetImageDrmFormatModifierPropertiesEXT");
        assert("vkGetImageDrmFormatModifierPropertiesEXT (YUV444P Y)"@.take("vkGetImageDrmFormatModifierPropertiesEXT"@.len() as int) =~= "vkGetImageDrmFormatModifierPropertiesEXT"@);
    }
    assert(begins_with("vkGetImageDrmFormatModifierPropertiesEXT (YUV444P U)"@, "vkGetImageDrmFormatModifierPropertiesEXT"@)) by {
        reveal_strlit("vkGetImageDrmFormatModifierPropertiesEXT (YUV444P U)");
        reveal_strlit("vkGetImageDrmFormatModifierPropertiesEXT");
        assert("vkGetImageDrmFormatModifierPropertiesEXT (YUV444P U)"@.take("vkGetImageDrmFormatModifierPropertiesEXT"@.len() as int) =~= "vkGetImageDrmFormatModifierPropertiesEXT"@);
    }
    assert(begins_with("vkGetImageDrmFormatModifierPropertiesEXT (YUV444P V)"@, "vkGetImageDrmFormatModifierPropertiesEXT"@)) by {
        reveal_strlit("vkGetImageDrmFormatModifierPropertiesEXT (YUV444P V)");
        reveal_strlit("vkGetImageDrmFormatModifierPropertiesEXT");
        assert("vkGetImageDrmFormatModifierPropertiesEXT (YUV444P V)"@.take("vkGetImageDrmFormatModifierPropertiesEXT"@.len() as int) =~= "vkGetImageDrmFormatModifierPropertiesEXT"@);
    }
}

#[verifier::spinoff_prover]
proof fn lemma_yuv444p_script()
    ensures
        is_script_for(3, yuv444p_calls()),
{
    let s = yuv444p_calls();
    lemma_yuv444p_names();
    reveal_with_fuel(crate::dmabuf_export::layouts_before, 20);
    reveal_with_fuel(crate::dmabuf_export::modifiers_before, 20);
    assert forall|i: int| 0 <= i < s.len() implies #[trigger] crate::dmabuf_export::op_in_place(
        3,
        s,
        i,
    ) by {}
    assert forall|i: int| 0 <= i < s.len() implies is_named_after_its_function(
        #[trigger] s[i],
    ) by {}
}

/// Every export makes the calls that its planes need, in the proper order, and reports a failure
/// under the name of the function that failed.
pub proof fn every_export_makes_the_calls_it_needs()
    ensures
        is_script_for(1, texture_calls()),
        is_script_for(2, nv12_calls()),
        is_script_for(2, p010_calls()),
        is_script_for(1, xv30_calls()),
        is_script_for(1, yuv444_calls()),
        is_script_for(3, yuv444p_calls()),
{
    lemma_texture_script();
    lemma_nv12_script();
    lemma_p010_script();
    lemma_xv30_script();
    lemma_yuv444_script();
    lemma_yuv444p_script();
}

/// The modifier, the size and the first plane's place of a descriptor are those of the export,
/// whatever the surface.
pub proof fn descriptors_say_where_the_planes_lie(x: ExportedPlanes)
    ensures
        ({
            let first = x.planes@[0];
            let d = DmaBufExport::of(x);
            let xv30 = SharedXv30Export::of(x);
            let yuv444 = SharedYuv444Export::of(x);
            &&& d.size == x.size && d.drm_format_modifier == x.modifier
            &&& (d.offset, d.stride) == (first.offset, first.row_pitch)
            &&& xv30.size == x.size && xv30.modifier == x.modifier
            &&& (xv30.offset, xv30.pitch) == (first.offset, first.row_pitch)
            &&& yuv444.size == x.size && yuv444.modifier == x.modifier
            &&& (yuv444.offset, yuv444.pitch) == (first.offset, first.row_pitch)
        }),
        ({
            let (y, uv) = (x.planes@[0], x.planes@[1]);
            let nv12 = SharedNv12Export::of(x);
            let p010 = SharedP010Export::of(x);
            &&& nv12.size == x.size && nv12.modifier == x.modifier
            &&& (nv12.y_offset, nv12.y_pitch) == (y.offset, y.row_pitch)
            &&& (nv12.uv_offset, nv12.uv_pitch) == (uv.offset, uv.row_pitch)
            &&& p010.size == x.size && p010.modifier == x.modifier
            &&& (p010.y_offset, p010.y_pitch) == (y.offset, y.row_pitch)
            &&& (p010.uv_offset, p010.uv_pitch) == (uv.offset, uv.row_pitch)
        }),
        ({
            let (y, u, v) = (x.planes@[0], x.planes@[1], x.planes@[2]);
            let d = SharedYuv444pExport::of(x);
            &&& d.size == x.size && d.modifier == x.modifier
            &&& (d.y_offset, d.y_pitch) == (y.offset, y.row_pitch)
            &&& (d.u_offset, d.u_pitch) == (u.offset, u.row_pitch)
            &&& (d.v_offset, d.v_pitch) == (v.offset, v.row_pitch)
        }),
{
}

/// An export that begins is an export of these planes, with nothing done yet, and it begins unless
/// the device refuses, which is what is reported.
pub proof fn exports_begin_unless_the_device_refuses(
    r: Result<ExportMachine, ExportError>,
    device: DeviceGate,
    planes: Seq<PlaneSpec>,
    calls: Seq<Op>,
    usage: TextureUsages,
    dedicated: bool,
)
    requires
        begins(r, device, planes, calls, usage, dedicated),
    ensures
        r is Ok <==> device.refusal() is None,
        r matches Err(e) ==> device.refusal() == Some(e),
        r matches Ok(m) ==> {
            &&& m@.planes == planes && m@.script == calls && m@.dedicated == dedicated
            &&& m@.pc == 0 && m@.acquired.len() == 0 && m@.released == 0 && m@.failure is None
        },
{
}

} // verus!
