//! Pixel formats and texture usages in the vocabularies that an export passes between.
use vstd::prelude::*;

verus! {

/// A texture format of the rendering API, as far as the converters tell formats apart.
#[derive(Clone, Copy, Debug, PartialEq, Eq, Structural)]
pub enum TextureFormat {
    R8Unorm,
    Rg8Unorm,
    R16Unorm,
    Rg16Unorm,
    Bgra8Unorm,
    Rgba8Unorm,
    Rgb10a2Unorm,
    /// Any format that no converter reads or writes.
    Other,
}

/// A Vulkan image format.
#[derive(Clone, Copy, Debug, PartialEq, Eq, Structural)]
pub enum VkFormat {
    R8Unorm,
    R8G8Unorm,
    R16Unorm,
    R16G16Unorm,
    B8G8R8A8Unorm,
    R8G8B8A8Unorm,
    A2B10G10R10UnormPack32,
}

impl VkFormat {
    /// The number of the format in Vulkan's `VkFormat` enumeration.
    pub open spec fn raw_spec(self) -> i32 {
        match self {
            VkFormat::R8Unorm => 9,
            VkFormat::R8G8Unorm => 16,
            VkFormat::R8G8B8A8Unorm => 37,
            VkFormat::B8G8R8A8Unorm => 44,
            VkFormat::A2B10G10R10UnormPack32 => 64,
            VkFormat::R16Unorm => 70,
            VkFormat::R16G16Unorm => 77,
        }
    }

    /// The number of the format in Vulkan's `VkFormat` enumeration.
    pub fn raw(self) -> (r: i32)
        ensures
            r == self.raw_spec(),
    {
        match self {
            VkFormat::R8Unorm => 9,
            VkFormat::R8G8Unorm => 16,
            VkFormat::R8G8B8A8Unorm => 37,
            VkFormat::B8G8R8A8Unorm => 44,
            VkFormat::A2B10G10R10UnormPack32 => 64,
            VkFormat::R16Unorm => 70,
            VkFormat::R16G16Unorm => 77,
        }
    }
}

/// The Vulkan format of a texture format that single textures are exported in.
pub open spec fn exportable_format(f: TextureFormat) -> Option<VkFormat> {
    match f {
        TextureFormat::R8Unorm => Some(VkFormat::R8Unorm),
        TextureFormat::Rg8Unorm => Some(VkFormat::R8G8Unorm),
        TextureFormat::R16Unorm => Some(VkFormat::R16Unorm),
        TextureFormat::Rg16Unorm => Some(VkFormat::R16G16Unorm),
        TextureFormat::Bgra8Unorm => Some(VkFormat::B8G8R8A8Unorm),
        _ => None,
    }
}

/// Translate a texture format that can be exported alone to Vulkan. `None` for every other one.
pub fn wgpu_format_to_vk(f: TextureFormat) -> (r: Option<VkFormat>)
    ensures
        r == exportable_format(f),
{
    match f {
        TextureFormat::R8Unorm => Some(VkFormat::R8Unorm),
        TextureFormat::Rg8Unorm => Some(VkFormat::R8G8Unorm),
        TextureFormat::R16Unorm => Some(VkFormat::R16Unorm),
        TextureFormat::Rg16Unorm => Some(VkFormat::R16G16Unorm),
        TextureFormat::Bgra8Unorm => Some(VkFormat::B8G8R8A8Unorm),
        _ => None,
    }
}

/// What a texture may be used for.
#[derive(Clone, Copy, Debug, PartialEq, Eq, Structural)]
pub struct TextureUsages {
    pub copy_src: bool,
    pub copy_dst: bool,
    pub texture_binding: bool,
    pub storage_binding: bool,
    pub render_attachment: bool,
}

/// The same, as the layer that places barriers names it.
#[derive(Clone, Copy, Debug, PartialEq, Eq, Structural)]
pub struct TextureUses {
    pub copy_src: bool,
    pub copy_dst: bool,
    pub resource: bool,
    pub storage_read_write: bool,
    pub color_target: bool,
}

pub const VK_IMAGE_USAGE_TRANSFER_SRC: u32 = 0x01;

pub const VK_IMAGE_USAGE_TRANSFER_DST: u32 = 0x02;

pub const VK_IMAGE_USAGE_SAMPLED: u32 = 0x04;

pub const VK_IMAGE_USAGE_STORAGE: u32 = 0x08;

pub const VK_IMAGE_USAGE_COLOR_ATTACHMENT: u32 = 0x10;

/// `bit` where `on`, else nothing.
pub open spec fn flag(on: bool, bit: u32) -> int {
    if on {
        bit as int
    } else {
        0
    }
}

/// The `VkImageUsageFlags` of a usage: the sum of the bits of what it allows.
pub open spec fn image_usage_bits(u: TextureUsages) -> int {
    flag(u.copy_src, VK_IMAGE_USAGE_TRANSFER_SRC) + flag(u.copy_dst, VK_IMAGE_USAGE_TRANSFER_DST)
        + flag(u.texture_binding, VK_IMAGE_USAGE_SAMPLED) + flag(
        u.storage_binding,
        VK_IMAGE_USAGE_STORAGE,
    ) + flag(u.render_attachment, VK_IMAGE_USAGE_COLOR_ATTACHMENT)
}

/// Map a texture usage to Vulkan's `VkImageUsageFlags`.
pub fn wgpu_usage_to_vk(u: TextureUsages) -> (r: u32)
    ensures
        r == image_usage_bits(u),
{
    let mut out: u32 = 0;
    if u.copy_src {
        assert(out | 0x01 == out + 0x01) by (bit_vector)
            requires
                out == 0,
        ;
        out = out | VK_IMAGE_USAGE_TRANSFER_SRC;
    }
    if u.copy_dst {
        assert(out | 0x02 == out + 0x02) by (bit_vector)
            requires
                out < 0x02,
        ;
        out = out | VK_IMAGE_USAGE_TRANSFER_DST;
    }
    if u.texture_binding {
        assert(out | 0x04 == out + 0x04) by (bit_vector)
            requires
                out < 0x04,
        ;
        out = out | VK_IMAGE_USAGE_SAMPLED;
    }
    if u.storage_binding {
        assert(out | 0x08 == out + 0x08) by (bit_vector)
            requires
                out < 0x08,
        ;
        out = out | VK_IMAGE_USAGE_STORAGE;
    }
    if u.render_attachment {
        assert(out | 0x10 == out + 0x10) by (bit_vector)
            requires
                out < 0x10,
        ;
        out = out | VK_IMAGE_USAGE_COLOR_ATTACHMENT;
    }
    out
}

/// The barrier layer's name for a usage. A storage binding is declared readable and writable,
/// the most permissive of that layer's storage states.
pub open spec fn barrier_uses(u: TextureUsages) -> TextureUses {
    TextureUses {
        copy_src: u.copy_src,
        copy_dst: u.copy_dst,
        resource: u.texture_binding,
        storage_read_write: u.storage_binding,
        color_target: u.render_attachment,
    }
}

/// Map a texture usage to the vocabulary of the layer that places barriers.
pub fn wgpu_usage_to_hal_uses(u: TextureUsages) -> (r: TextureUses)
    ensures
        r == barrier_uses(u),
{
    TextureUses {
        copy_src: u.copy_src,
        copy_dst: u.copy_dst,
        resource: u.texture_binding,
        storage_read_write: u.storage_binding,
        color_target: u.render_attachment,
    }
}

/// The image's Vulkan usage and what the barrier layer is told of it never disagree on an
/// operation: each bit is set exactly where its counterpart is.
pub proof fn usage_mappings_agree(u: TextureUsages, bits: u32)
    requires
        bits == image_usage_bits(u),
    ensures
        (bits & VK_IMAGE_USAGE_TRANSFER_SRC != 0) == barrier_uses(u).copy_src,
        (bits & VK_IMAGE_USAGE_TRANSFER_DST != 0) == barrier_uses(u).copy_dst,
        (bits & VK_IMAGE_USAGE_SAMPLED != 0) == barrier_uses(u).resource,
        (bits & VK_IMAGE_USAGE_STORAGE != 0) == barrier_uses(u).storage_read_write,
        (bits & VK_IMAGE_USAGE_COLOR_ATTACHMENT != 0) == barrier_uses(u).color_target,
        bits & !0x1fu32 == 0,
{
    let (a, b, c, d, e) = (
        flag(u.copy_src, 1) as u32,
        flag(u.copy_dst, 2) as u32,
        flag(u.texture_binding, 4) as u32,
        flag(u.storage_binding, 8) as u32,
        flag(u.render_attachment, 16) as u32,
    );
    assert((bits & 1 != 0) == (a == 1) && (bits & 2 != 0) == (b == 2) && (bits & 4 != 0) == (c == 4)
        && (bits & 8 != 0) == (d == 8) && (bits & 16 != 0) == (e == 16) && bits & !0x1fu32 == 0)
        by (bit_vector)
        requires
            a == 0 || a == 1,
            b == 0 || b == 2,
            c == 0 || c == 4,
            d == 0 || d == 8,
            e == 0 || e == 16,
            bits == a + b + c + d + e,
    ;
}

/// The numbers of the formats lie as Vulkan lays them out: seven ways to read each arrangement of
/// channels, one arrangement behind the other. Two channels come behind one, four behind three of
/// either order, and the 16-bit formats are seven apart too.
pub proof fn format_numbers_follow_the_layout_of_vulkan()
    ensures
        VkFormat::R8Unorm.raw_spec() == 9,
        VkFormat::R8G8Unorm.raw_spec() == VkFormat::R8Unorm.raw_spec() + 7,
        VkFormat::R8G8B8A8Unorm.raw_spec() == VkFormat::R8G8Unorm.raw_spec() + 3 * 7,
        VkFormat::B8G8R8A8Unorm.raw_spec() == VkFormat::R8G8B8A8Unorm.raw_spec() + 7,
        VkFormat::A2B10G10R10UnormPack32.raw_spec() == VkFormat::B8G8R8A8Unorm.raw_spec() + 2 * 7
            + 6,
        VkFormat::R16Unorm.raw_spec() == VkFormat::A2B10G10R10UnormPack32.raw_spec() + 6,
        VkFormat::R16G16Unorm.raw_spec() == VkFormat::R16Unorm.raw_spec() + 7,
{
}

/// A Vulkan format has the channels of the texture format: how many there are, and how many bits
/// each has. In a packed format the bits of the colours count.
pub open spec fn channels(f: VkFormat) -> (int, int) {
    match f {
        VkFormat::R8Unorm => (1, 8),
        VkFormat::R8G8Unorm => (2, 8),
        VkFormat::R16Unorm => (1, 16),
        VkFormat::R16G16Unorm => (2, 16),
        VkFormat::B8G8R8A8Unorm => (4, 8),
        VkFormat::R8G8B8A8Unorm => (4, 8),
        VkFormat::A2B10G10R10UnormPack32 => (4, 10),
    }
}

/// The channels of a texture format, and how many bits each has.
pub open spec fn texture_channels(f: TextureFormat) -> (int, int) {
    match f {
        TextureFormat::R8Unorm => (1, 8),
        TextureFormat::Rg8Unorm => (2, 8),
        TextureFormat::R16Unorm => (1, 16),
        TextureFormat::Rg16Unorm => (2, 16),
        TextureFormat::Bgra8Unorm => (4, 8),
        TextureFormat::Rgba8Unorm => (4, 8),
        TextureFormat::Rgb10a2Unorm => (4, 10),
        TextureFormat::Other => (0, 0),
    }
}

/// A texture is exported in the Vulkan format with its own channels, blue first exactly if its
/// own have blue first. The planes of video frames and captured frames can be exported, and no
/// others.
pub proof fn textures_are_exported_with_their_channels(f: TextureFormat)
    ensures
        exportable_format(f) matches Some(v) ==> channels(v) == texture_channels(f),
        exportable_format(f) matches Some(v) ==> (v == VkFormat::B8G8R8A8Unorm <==> f
            == TextureFormat::Bgra8Unorm),
        exportable_format(f) is Some <==> 1 <= texture_channels(f).0 <= 2 || f
            == TextureFormat::Bgra8Unorm,
{
}

/// Each use is one bit of Vulkan's mask, set exactly where the use is allowed, and the layer that
/// places barriers is told of exactly the same uses.
pub proof fn every_use_has_its_own_bit(u: TextureUsages, bits: u32)
    requires
        bits == image_usage_bits(u),
    ensures
        (bits & 1 != 0) == u.copy_src && barrier_uses(u).copy_src == u.copy_src,
        (bits & 2 != 0) == u.copy_dst && barrier_uses(u).copy_dst == u.copy_dst,
        (bits & 4 != 0) == u.texture_binding && barrier_uses(u).resource == u.texture_binding,
        (bits & 8 != 0) == u.storage_binding && barrier_uses(u).storage_read_write
            == u.storage_binding,
        (bits & 16 != 0) == u.render_attachment && barrier_uses(u).color_target
            == u.render_attachment,
{
    usage_mappings_agree(u, bits);
}

} // verus!
