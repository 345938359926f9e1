//! IOSurface bridges: captured surfaces to surfaces that the hardware encoder takes.
//!
//! Two bridges share a pool of destination surfaces. The NV12 bridge scales the planes of a
//! surface; the BGRA bridge resizes in RGB and only then subsamples chroma. Scaling and conversion
//! run on the GPU. This module decides what a bridge accepts, which pool slot a frame goes to, and
//! what the planes of a surface look like.
use vstd::prelude::*;

use crate::bridges::AdapterFeatures;
use crate::convert::{dispatch_texels, Dispatch};
use crate::formats::TextureFormat;

verus! {

/// Pool slots of a bridge by default: the encoder's frames in flight and one of headroom.
pub const DEFAULT_POOL_DEPTH: usize = 4;

/// `'420v'`: 8-bit 4:2:0, video range.
pub const NV12_VIDEO_RANGE_FOURCC: u32 = 0x34323076;

/// `'420f'`: 8-bit 4:2:0, full range.
pub const NV12_FULL_RANGE_FOURCC: u32 = 0x34323066;

/// `'x420'`: 10-bit 4:2:0, video range.
pub const X420_FOURCC: u32 = 0x78343230;

/// `'xf20'`: 10-bit 4:2:0, full range.
pub const XF20_FOURCC: u32 = 0x78663230;

/// `'P010'`: 10-bit 4:2:0 as decoders emit it.
pub const P010_FOURCC: u32 = 0x50303130;

/// `'444v'`: 8-bit 4:4:4, video range.
pub const NV24_VIDEO_RANGE_FOURCC: u32 = 0x34343476;

/// `'444f'`: 8-bit 4:4:4, full range.
pub const NV24_FULL_RANGE_FOURCC: u32 = 0x34343466;

/// `'x444'`: 10-bit 4:4:4, video range.
pub const X444_FOURCC: u32 = 0x78343434;

/// `'xf44'`: 10-bit 4:4:4, full range.
pub const XF44_FOURCC: u32 = 0x78663434;

/// `'P410'`: 10-bit 4:4:4 as decoders emit it.
pub const P410_FOURCC: u32 = 0x50343130;

/// `'BGRA'`: what the BGRA bridge takes.
pub const BGRA_FOURCC: u32 = 0x42475241;

/// The code of four characters, the first in the highest byte.
pub open spec fn surface_code(a: char, b: char, c: char, d: char) -> int {
    crate::modifier_query::fourcc_code(d, c, b, a)
}

/// Every surface code constant spells its name.
pub proof fn surface_constants_spell_their_names()
    ensures
        NV12_VIDEO_RANGE_FOURCC == surface_code('4', '2', '0', 'v'),
        NV12_FULL_RANGE_FOURCC == surface_code('4', '2', '0', 'f'),
        X420_FOURCC == surface_code('x', '4', '2', '0'),
        XF20_FOURCC == surface_code('x', 'f', '2', '0'),
        P010_FOURCC == surface_code('P', '0', '1', '0'),
        NV24_VIDEO_RANGE_FOURCC == surface_code('4', '4', '4', 'v'),
        NV24_FULL_RANGE_FOURCC == surface_code('4', '4', '4', 'f'),
        X444_FOURCC == surface_code('x', '4', '4', '4'),
        XF44_FOURCC == surface_code('x', 'f', '4', '4'),
        P410_FOURCC == surface_code('P', '4', '1', '0'),
        BGRA_FOURCC == surface_code('B', 'G', 'R', 'A'),
{
}

/// How chroma is sampled.
#[derive(Clone, Copy, Debug, PartialEq, Eq, Structural)]
pub enum ChromaSubsampling {
    Yuv420,
    Yuv444,
}

/// Why a bridge was not made, or a frame not taken.
#[derive(Clone, Copy, Debug, PartialEq, Eq)]
pub enum BridgeError {
    /// A surface without pixels.
    ZeroDim { src: (u32, u32), dst: (u32, u32) },
    /// Source and destination are the same size: the encoder can take the source as it is.
    NoScaleNeeded { dims: (u32, u32) },
    /// A known code that the encoder or the renderer does not take.
    UnsupportedFourcc { chroma: ChromaSubsampling, bit_depth: u8, fourcc: u32 },
    /// A code of no known family.
    UnknownFourcc { fourcc: u32 },
    /// A 10-bit code on a device without 16-bit formats.
    TenBitStorageUnsupported { fourcc: u32 },
    /// A source that is not BGRA.
    SourceNotBgra { fourcc: u32 },
    /// A source of other dimensions than the bridge's.
    InputDimMismatch { width: u32, height: u32, input_w: u32, input_h: u32 },
    /// Every slot is held by a frame in flight.
    PoolExhausted { depth: usize },
}

/// Chroma sampling and bit depth of the families of surface codes.
pub open spec fn family(fourcc: u32) -> Option<(ChromaSubsampling, u8)> {
    if fourcc == NV12_VIDEO_RANGE_FOURCC || fourcc == NV12_FULL_RANGE_FOURCC {
        Some((ChromaSubsampling::Yuv420, 8))
    } else if fourcc == X420_FOURCC || fourcc == XF20_FOURCC || fourcc == P010_FOURCC {
        Some((ChromaSubsampling::Yuv420, 10))
    } else if fourcc == NV24_VIDEO_RANGE_FOURCC || fourcc == NV24_FULL_RANGE_FOURCC {
        Some((ChromaSubsampling::Yuv444, 8))
    } else if fourcc == X444_FOURCC || fourcc == XF44_FOURCC || fourcc == P410_FOURCC {
        Some((ChromaSubsampling::Yuv444, 10))
    } else {
        None
    }
}

/// The family of a surface code. Full-range and decoder codes are identified too, so that a
/// session that cannot proceed can say why.
pub fn chroma_bit_depth_for_fourcc(fourcc: u32) -> (r: Option<(ChromaSubsampling, u8)>)
    ensures
        r == family(fourcc),
{
    match fourcc {
        NV12_VIDEO_RANGE_FOURCC | NV12_FULL_RANGE_FOURCC => Some((ChromaSubsampling::Yuv420, 8)),
        X420_FOURCC | XF20_FOURCC | P010_FOURCC => Some((ChromaSubsampling::Yuv420, 10)),
        NV24_VIDEO_RANGE_FOURCC | NV24_FULL_RANGE_FOURCC => Some((ChromaSubsampling::Yuv444, 8)),
        X444_FOURCC | XF44_FOURCC | P410_FOURCC => Some((ChromaSubsampling::Yuv444, 10)),
        _ => None,
    }
}

/// The surface stores 10 bits per sample.
pub open spec fn is_ten_bit(fourcc: u32) -> bool {
    family(fourcc) matches Some((_, depth)) && depth == 10
}

/// Bytes per element of the luma and the chroma plane.
pub open spec fn element_bytes(fourcc: u32) -> (i64, i64) {
    if is_ten_bit(fourcc) {
        (2, 4)
    } else {
        (1, 2)
    }
}

/// Bytes per element of the luma and the chroma plane: 8-bit samples take a byte each, 10-bit
/// samples two; a chroma element is a pair. Unknown codes count as 8-bit.
pub fn nv12_bytes_per_element(fourcc: u32) -> (r: (i64, i64))
    ensures
        r == if is_ten_bit(fourcc) {
            (2i64, 4i64)
        } else {
            (1i64, 2i64)
        },
        r == element_bytes(fourcc),
{
    match fourcc {
        NV12_VIDEO_RANGE_FOURCC | NV12_FULL_RANGE_FOURCC => (1, 2),
        X420_FOURCC | XF20_FOURCC | P010_FOURCC => (2, 4),
        NV24_VIDEO_RANGE_FOURCC | NV24_FULL_RANGE_FOURCC => (1, 2),
        X444_FOURCC | XF44_FOURCC | P410_FOURCC => (2, 4),
        _ => (1, 2),
    }
}

/// A Metal pixel format of a plane.
#[derive(Clone, Copy, Debug, PartialEq, Eq, Structural)]
pub enum MetalFormat {
    R8Unorm,
    Rg8Unorm,
    R16Unorm,
    Rg16Unorm,
}

/// A plane's format in both APIs.
#[derive(Clone, Copy, Debug, PartialEq, Eq, Structural)]
pub struct PlaneFormat {
    pub metal: MetalFormat,
    pub wgpu: TextureFormat,
}

/// The 4:2:0 codes with 10 bits per sample.
pub open spec fn is_ten_bit_420(fourcc: u32) -> bool {
    family(fourcc) == Some((ChromaSubsampling::Yuv420, 10u8))
}

/// The formats of the luma and the chroma plane.
pub open spec fn plane_formats(fourcc: u32) -> (PlaneFormat, PlaneFormat) {
    if is_ten_bit_420(fourcc) {
        (
            PlaneFormat { metal: MetalFormat::R16Unorm, wgpu: TextureFormat::R16Unorm },
            PlaneFormat { metal: MetalFormat::Rg16Unorm, wgpu: TextureFormat::Rg16Unorm },
        )
    } else {
        (
            PlaneFormat { metal: MetalFormat::R8Unorm, wgpu: TextureFormat::R8Unorm },
            PlaneFormat { metal: MetalFormat::Rg8Unorm, wgpu: TextureFormat::Rg8Unorm },
        )
    }
}

/// The formats of the luma and the chroma plane: 16-bit for 10-bit 4:2:0, else 8-bit.
pub fn plane_wgpu_formats(fourcc: u32) -> (r: (PlaneFormat, PlaneFormat))
    ensures
        r == if is_ten_bit_420(fourcc) {
            (
                PlaneFormat { metal: MetalFormat::R16Unorm, wgpu: TextureFormat::R16Unorm },
                PlaneFormat { metal: MetalFormat::Rg16Unorm, wgpu: TextureFormat::Rg16Unorm },
            )
        } else {
            (
                PlaneFormat { metal: MetalFormat::R8Unorm, wgpu: TextureFormat::R8Unorm },
                PlaneFormat { metal: MetalFormat::Rg8Unorm, wgpu: TextureFormat::Rg8Unorm },
            )
        },
        r == plane_formats(fourcc),
{
    match fourcc {
        X420_FOURCC | XF20_FOURCC | P010_FOURCC => (
            PlaneFormat { metal: MetalFormat::R16Unorm, wgpu: TextureFormat::R16Unorm },
            PlaneFormat { metal: MetalFormat::Rg16Unorm, wgpu: TextureFormat::Rg16Unorm },
        ),
        _ => (
            PlaneFormat { metal: MetalFormat::R8Unorm, wgpu: TextureFormat::R8Unorm },
            PlaneFormat { metal: MetalFormat::Rg8Unorm, wgpu: TextureFormat::Rg8Unorm },
        ),
    }
}

/// The name of the Metal function that converts BGRA to the given code, if there is one.
pub open spec fn converter_of(fourcc: u32) -> Option<&'static str> {
    match family(fourcc) {
        Some((ChromaSubsampling::Yuv420, depth)) => Some(
            if depth == 10 {
                "bgra_to_x420"
            } else {
                "bgra_to_420v"
            },
        ),
        _ => None,
    }
}

/// The name of the Metal function that converts BGRA to the given 4:2:0 code.
pub fn bgra_to_420_function(dst_fourcc: u32) -> (r: Result<&'static str, BridgeError>)
    ensures
        match family(dst_fourcc) {
            Some((ChromaSubsampling::Yuv420, depth)) => r == Ok::<&'static str, BridgeError>(
                if depth == 10 {
                    "bgra_to_x420"
                } else {
                    "bgra_to_420v"
                },
            ),
            _ => r == Err::<&'static str, BridgeError>(
                BridgeError::UnknownFourcc { fourcc: dst_fourcc },
            ),
        },
        match converter_of(dst_fourcc) {
            Some(name) => r == Ok::<&'static str, BridgeError>(name),
            None => r is Err,
        },
{
    match dst_fourcc {
        NV12_VIDEO_RANGE_FOURCC | NV12_FULL_RANGE_FOURCC => Ok("bgra_to_420v"),
        X420_FOURCC | XF20_FOURCC | P010_FOURCC => Ok("bgra_to_x420"),
        _ => Err(BridgeError::UnknownFourcc { fourcc: dst_fourcc }),
    }
}

/// A plane of a surface to be allocated.
#[derive(Clone, Copy, Debug, PartialEq, Eq, Structural)]
pub struct SurfacePlane {
    pub width: u32,
    pub height: u32,
    pub bytes_per_element: i64,
}

/// The two planes of a surface to be allocated.
pub open spec fn planes_of(width: u32, height: u32, fourcc: u32) -> (SurfacePlane, SurfacePlane) {
    (
        SurfacePlane { width, height, bytes_per_element: element_bytes(fourcc).0 },
        SurfacePlane {
            width: width / 2,
            height: height / 2,
            bytes_per_element: element_bytes(fourcc).1,
        },
    )
}

/// The two planes of a surface to be allocated: luma at full, chroma at half resolution. Row
/// pitches are left to the allocator, which knows what the encoder accepts.
pub fn surface_planes(width: u32, height: u32, fourcc: u32) -> (r: (SurfacePlane, SurfacePlane))
    ensures
        r == (
            SurfacePlane {
                width,
                height,
                bytes_per_element: if is_ten_bit(fourcc) {
                    2
                } else {
                    1
                },
            },
            SurfacePlane {
                width: width / 2,
                height: height / 2,
                bytes_per_element: if is_ten_bit(fourcc) {
                    4
                } else {
                    2
                },
            },
        ),
        r == planes_of(width, height, fourcc),
{
    let (luma_bpe, chroma_bpe) = nv12_bytes_per_element(fourcc);
    (
        SurfacePlane { width, height, bytes_per_element: luma_bpe },
        SurfacePlane { width: width / 2, height: height / 2, bytes_per_element: chroma_bpe },
    )
}

/// What a bridge device can do beyond 8 bits.
#[derive(Clone, Copy, Debug, PartialEq, Eq, Structural)]
pub struct BridgeDeviceCapabilities {
    pub supports_10bit: bool,
}

/// What a bridge can do on an adapter: nothing where it lacks adapter-specific format features;
/// else 10 bits exactly where it has 16-bit formats, which the device then asks for too.
pub fn bridge_device_capabilities(adapter: AdapterFeatures) -> (r: Option<BridgeDeviceCapabilities>)
    ensures
        r == if adapter.adapter_formats {
            Some(BridgeDeviceCapabilities { supports_10bit: adapter.norm16 })
        } else {
            None
        },
        r == capabilities_of(adapter),
{
    if !adapter.adapter_formats {
        return None;
    }
    Some(BridgeDeviceCapabilities { supports_10bit: adapter.norm16 })
}

/// One destination surface of the pool.
#[derive(Clone, Copy, Debug, PartialEq, Eq, Structural)]
pub struct PoolSlot {
    /// A frame in flight holds the surface.
    pub in_use: bool,
    /// The surface carries the source's colour tags.
    pub attachments_seeded: bool,
}

/// The destination surfaces of a bridge.
pub struct IOSurfacePool {
    slots: Vec<PoolSlot>,
}

impl View for IOSurfacePool {
    type V = Seq<PoolSlot>;

    closed spec fn view(&self) -> Seq<PoolSlot> {
        self.slots@
    }
}

/// The pool with slot `i` taken.
pub open spec fn with_slot_taken(pool: Seq<PoolSlot>, i: int) -> Seq<PoolSlot> {
    pool.update(i, PoolSlot { in_use: true, ..pool[i] })
}

/// The pool with slot `i` given back.
pub open spec fn with_slot_freed(pool: Seq<PoolSlot>, i: int) -> Seq<PoolSlot> {
    pool.update(i, PoolSlot { in_use: false, ..pool[i] })
}

/// `i` is the first slot that nothing holds.
pub open spec fn first_free(pool: Seq<PoolSlot>, i: int) -> bool {
    0 <= i < pool.len() && !pool[i].in_use && forall|j: int| 0 <= j < i ==> #[trigger] pool[j].in_use
}

impl IOSurfacePool {
    /// A pool of `depth` free slots, none of them tagged yet.
    pub fn new(depth: usize) -> (p: Self)
        ensures
            p@ == Seq::new(
                depth as nat,
                |i: int| PoolSlot { in_use: false, attachments_seeded: false },
            ),
    {
        let mut slots: Vec<PoolSlot> = Vec::new();
        let mut i: usize = 0;
        while i < depth
            invariant
                i <= depth,
                slots@ == Seq::new(
                    i as nat,
                    |i: int| PoolSlot { in_use: false, attachments_seeded: false },
                ),
            decreases depth - i,
        {
            slots.push(PoolSlot { in_use: false, attachments_seeded: false });
            i = i + 1;
        }
        IOSurfacePool { slots }
    }

    /// How many slots there are.
    pub fn depth(&self) -> (r: usize)
        ensures
            r == self@.len(),
    {
        self.slots.len()
    }

    /// Take the first free slot.
    pub fn acquire(&mut self) -> (r: Option<usize>)
        ensures
            match r {
                Some(i) => first_free(old(self)@, i as int) && final(self)@ == with_slot_taken(
                    old(self)@,
                    i as int,
                ),
                None => final(self)@ == old(self)@ && forall|j: int|
                    0 <= j < old(self)@.len() ==> #[trigger] old(self)@[j].in_use,
            },
    {
        let ghost before = self@;
        let mut i: usize = 0;
        while i < self.slots.len()
            invariant
                self@ == before,
                before == old(self)@,
                i <= self.slots@.len(),
                forall|j: int| 0 <= j < i ==> #[trigger] before[j].in_use,
            decreases self.slots@.len() - i,
        {
            let slot = self.slots[i];
            if !slot.in_use {
                self.slots.set(
                    i,
                    PoolSlot { in_use: true, attachments_seeded: slot.attachments_seeded },
                );
                assert(self@ =~= with_slot_taken(before, i as int));
                return Some(i);
            }
            i = i + 1;
        }
        None
    }

    /// Give a slot back. An index beyond the pool is ignored.
    pub fn release(&mut self, idx: usize)
        ensures
            final(self)@ == if idx < old(self)@.len() {
                with_slot_freed(old(self)@, idx as int)
            } else {
                old(self)@
            },
    {
        if idx < self.slots.len() {
            let slot = self.slots[idx];
            self.slots.set(
                idx,
                PoolSlot { in_use: false, attachments_seeded: slot.attachments_seeded },
            );
        }
    }

    /// Must the source's colour tags be copied to this slot's surface now? True the first time a
    /// slot is asked about, never again: the tags stay the same for a bridge's lifetime.
    pub fn seed_attachments(&mut self, idx: usize) -> (r: bool)
        requires
            idx < old(self)@.len(),
        ensures
            r == !old(self)@[idx as int].attachments_seeded,
            final(self)@ == old(self)@.update(
                idx as int,
                PoolSlot { attachments_seeded: true, ..old(self)@[idx as int] },
            ),
    {
        let slot = self.slots[idx];
        self.slots.set(idx, PoolSlot { in_use: slot.in_use, attachments_seeded: true });
        assert(self@ =~= old(self)@.update(
            idx as int,
            PoolSlot { attachments_seeded: true, ..old(self)@[idx as int] },
        ));
        !slot.attachments_seeded
    }
}

/// How many slots are held.
pub open spec fn held(pool: Seq<PoolSlot>) -> nat
    decreases pool.len(),
{
    if pool.len() == 0 {
        0
    } else {
        held(pool.drop_last()) + if pool.last().in_use {
            1nat
        } else {
            0nat
        }
    }
}

proof fn lemma_held_update(pool: Seq<PoolSlot>, i: int, slot: PoolSlot)
    requires
        0 <= i < pool.len(),
    ensures
        held(pool.update(i, slot)) == held(pool) + (if slot.in_use {
            1int
        } else {
            0
        }) - (if pool[i].in_use {
            1int
        } else {
            0
        }),
    decreases pool.len(),
{
    if i < pool.len() - 1 {
        assert(pool.update(i, slot).drop_last() =~= pool.drop_last().update(i, slot));
        lemma_held_update(pool.drop_last(), i, slot);
    } else {
        assert(pool.update(i, slot).drop_last() =~= pool.drop_last());
    }
}

/// A slot is never handed out twice: while the first holder keeps it, a second acquisition gives
/// another slot. One more slot is held after each.
pub proof fn outstanding_slots_differ(pool: Seq<PoolSlot>, i: int, j: int)
    requires
        first_free(pool, i),
        first_free(with_slot_taken(pool, i), j),
    ensures
        i != j,
        held(with_slot_taken(pool, i)) == held(pool) + 1,
        held(with_slot_taken(with_slot_taken(pool, i), j)) == held(pool) + 2,
{
    lemma_held_update(pool, i, PoolSlot { in_use: true, ..pool[i] });
    let taken = with_slot_taken(pool, i);
    lemma_held_update(taken, j, PoolSlot { in_use: true, ..taken[j] });
}

/// Giving an acquired slot back leaves the pool as it was.
pub proof fn release_undoes_acquire(pool: Seq<PoolSlot>, i: int)
    requires
        first_free(pool, i),
    ensures
        with_slot_freed(with_slot_taken(pool, i), i) == pool,
{
    assert(with_slot_freed(with_slot_taken(pool, i), i) =~= pool);
}

/// What the renderer's and the encoder's own tables say of a surface code.
#[derive(Clone, Copy, Debug, PartialEq, Eq, Structural)]
pub struct FourccSupport {
    /// The renderer imports it.
    pub renderer: bool,
    /// The encoder takes it as input. This set is the narrower one: a decoder may emit codes that
    /// no encoder takes.
    pub encoder: bool,
}

/// A surface, by what it says of itself.
#[derive(Clone, Copy, Debug, PartialEq, Eq, Structural)]
pub struct IOSurfaceFrame {
    pub pixel_format: u32,
    pub width: u32,
    pub height: u32,
}

/// One frame on its way: the pool slot it holds, and the surface the encoder is handed. Whoever
/// has it gives the slot back once the encoder is done.
#[derive(Clone, Copy, Debug, PartialEq, Eq, Structural)]
pub struct PooledIOSurface {
    pub slot_idx: usize,
    pub frame: IOSurfaceFrame,
}

/// One of the four extents is zero.
pub open spec fn has_zero(src: (u32, u32), dst: (u32, u32)) -> bool {
    src.0 == 0 || src.1 == 0 || dst.0 == 0 || dst.1 == 0
}

/// Why no bridge that scales planes is made, if none is.
pub open spec fn nv12_refusal(
    src: (u32, u32),
    dst: (u32, u32),
    fourcc: u32,
    support: FourccSupport,
    norm16: bool,
) -> Option<BridgeError> {
    if has_zero(src, dst) {
        Some(BridgeError::ZeroDim { src, dst })
    } else if src == dst {
        Some(BridgeError::NoScaleNeeded { dims: src })
    } else {
        match family(fourcc) {
            None => Some(BridgeError::UnknownFourcc { fourcc }),
            Some((chroma, bit_depth)) => if !support.renderer || !support.encoder {
                Some(BridgeError::UnsupportedFourcc { chroma, bit_depth, fourcc })
            } else if bit_depth == 10 && !norm16 {
                Some(BridgeError::TenBitStorageUnsupported { fourcc })
            } else {
                None
            },
        }
    }
}

/// Why no bridge that converts BGRA is made, if none is. It makes 4:2:0 only, and converts
/// without resizing too.
pub open spec fn bgra_refusal(
    src: (u32, u32),
    dst: (u32, u32),
    fourcc: u32,
    support: FourccSupport,
    norm16: bool,
) -> Option<BridgeError> {
    if has_zero(src, dst) {
        Some(BridgeError::ZeroDim { src, dst })
    } else {
        match family(fourcc) {
            None => Some(BridgeError::UnknownFourcc { fourcc }),
            Some((chroma, bit_depth)) => if chroma != ChromaSubsampling::Yuv420 || !support.renderer
                || !support.encoder {
                Some(BridgeError::UnsupportedFourcc { chroma, bit_depth, fourcc })
            } else if bit_depth == 10 && !norm16 {
                Some(BridgeError::TenBitStorageUnsupported { fourcc })
            } else {
                None
            },
        }
    }
}

/// A pool with every slot free and none tagged.
pub open spec fn fresh_pool(depth: usize) -> Seq<PoolSlot> {
    Seq::new(depth as nat, |i: int| PoolSlot { in_use: false, attachments_seeded: false })
}

/// A horizontal chroma offset in source pixels, as a fraction.
#[derive(Clone, Copy, Debug, PartialEq, Eq, Structural)]
pub struct ChromaOffset {
    pub numerator: i64,
    pub denominator: i64,
}

/// Where a scaler finds luma of column `2 * j`, in source pixels times `2 * dst_w`: the middle of
/// the pixel scaled, less half a pixel.
pub open spec fn luma_found_at(src_w: int, dst_w: int, j: int) -> int {
    (4 * j + 1) * src_w - dst_w
}

/// Where a scaler finds chroma of column `j`, likewise: the middle of the sample scaled, less half
/// a sample, which is a pixel, and moved by the offset.
pub open spec fn chroma_found_at(src_w: int, dst_w: int, offset: ChromaOffset, j: int) -> int {
    (4 * j + 2) * src_w - 2 * dst_w + offset.numerator
}

/// With the offset, chroma that lies on the left one of its luma columns is still found on it.
pub open spec fn keeps_cosited(src_w: int, dst_w: int, offset: ChromaOffset) -> bool {
    &&& offset.denominator == 2 * dst_w
    &&& forall|j: int| #[trigger]
        chroma_found_at(src_w, dst_w, offset, j) == luma_found_at(src_w, dst_w, j)
}

/// The horizontal correction that left-cosited chroma needs when a row of `src_w` pixels is
/// scaled to `dst_w`: minus half of what the scale exceeds one, `-(src_w / dst_w - 1) / 2`.
/// Vertically no correction is needed.
pub fn cosited_chroma_offset(src_w: u32, dst_w: u32) -> (r: ChromaOffset)
    requires
        dst_w > 0,
    ensures
        r.denominator == 2 * dst_w,
        r.numerator == dst_w - src_w,
        keeps_cosited(src_w as int, dst_w as int, r),
{
    let r = ChromaOffset {
        numerator: dst_w as i64 - src_w as i64,
        denominator: 2 * (dst_w as i64),
    };
    assert forall|j: int| #[trigger]
        chroma_found_at(src_w as int, dst_w as int, r, j) == luma_found_at(
        src_w as int,
        dst_w as int,
        j,
    ) by {
        assert((4 * j + 2) * src_w == (4 * j + 1) * src_w + src_w) by (nonlinear_arith);
    }
    r
}

/// Scaling down by a whole factor needs minus half a pixel for every whole that the factor
/// exceeds one; an unscaled row needs none.
pub proof fn chroma_offset_of_whole_scales(dst_w: int, scale: int)
    requires
        dst_w > 0,
    ensures
        2 * (dst_w - scale * dst_w) == (1 - scale) * (2 * dst_w),
{
    assert(2 * (dst_w - scale * dst_w) == (1 - scale) * (2 * dst_w)) by (nonlinear_arith);
}

/// How one plane is scaled.
#[derive(Clone, Copy, Debug, PartialEq, Eq)]
pub struct PlaneScaler {
    pub src_dims: (u32, u32),
    pub dst_dims: (u32, u32),
    /// The plane's elements are 16 bits wide, not 8.
    pub sixteen_bit: bool,
    /// The horizontal correction of a chroma plane. A luma plane needs none.
    pub chroma_offset: Option<ChromaOffset>,
}

/// A bridge that scales the planes of a surface.
pub struct Nv12IOSurfaceBridge {
    src_dims: (u32, u32),
    dst_dims: (u32, u32),
    dst_fourcc: u32,
    pool: IOSurfacePool,
}

impl Nv12IOSurfaceBridge {
    pub closed spec fn spec_src_dims(self) -> (u32, u32) {
        self.src_dims
    }

    pub closed spec fn spec_dst_dims(self) -> (u32, u32) {
        self.dst_dims
    }

    pub closed spec fn spec_dst_fourcc(self) -> u32 {
        self.dst_fourcc
    }

    /// The state of the destination surfaces.
    pub closed spec fn slots(self) -> Seq<PoolSlot> {
        self.pool@
    }

    /// The two bridges differ in their pools at most.
    pub open spec fn same_geometry(self, other: Self) -> bool {
        self.spec_src_dims() == other.spec_src_dims() && self.spec_dst_dims()
            == other.spec_dst_dims() && self.spec_dst_fourcc() == other.spec_dst_fourcc()
    }

    /// A bridge with the default pool.
    pub fn new(
        src_dims: (u32, u32),
        dst_dims: (u32, u32),
        dst_fourcc: u32,
        support: FourccSupport,
        norm16: bool,
    ) -> (r: Result<Self, BridgeError>)
        ensures
            match nv12_refusal(src_dims, dst_dims, dst_fourcc, support, norm16) {
                Some(e) => r == Err::<Self, BridgeError>(e),
                None => r matches Ok(b) && b.spec_src_dims() == src_dims && b.spec_dst_dims()
                    == dst_dims && b.spec_dst_fourcc() == dst_fourcc && b.slots() == fresh_pool(
                    DEFAULT_POOL_DEPTH,
                ),
            },
    {
        Self::with_pool_depth(src_dims, dst_dims, dst_fourcc, support, norm16, DEFAULT_POOL_DEPTH)
    }

    /// A bridge with `pool_depth` destination surfaces.
    pub fn with_pool_depth(
        src_dims: (u32, u32),
        dst_dims: (u32, u32),
        dst_fourcc: u32,
        support: FourccSupport,
        norm16: bool,
        pool_depth: usize,
    ) -> (r: Result<Self, BridgeError>)
        requires
            pool_depth > 0,
        ensures
            match nv12_refusal(src_dims, dst_dims, dst_fourcc, support, norm16) {
                Some(e) => r == Err::<Self, BridgeError>(e),
                None => r matches Ok(b) && b.spec_src_dims() == src_dims && b.spec_dst_dims()
                    == dst_dims && b.spec_dst_fourcc() == dst_fourcc && b.slots() == fresh_pool(
                    pool_depth,
                ),
            },
    {
        if src_dims.0 == 0 || src_dims.1 == 0 || dst_dims.0 == 0 || dst_dims.1 == 0 {
            return Err(BridgeError::ZeroDim { src: src_dims, dst: dst_dims });
        }
        if src_dims.0 == dst_dims.0 && src_dims.1 == dst_dims.1 {
            return Err(BridgeError::NoScaleNeeded { dims: src_dims });
        }
        let (chroma, bit_depth) = match chroma_bit_depth_for_fourcc(dst_fourcc) {
            Some(f) => f,
            None => {
                return Err(BridgeError::UnknownFourcc { fourcc: dst_fourcc });
            },
        };
        if !support.renderer || !support.encoder {
            return Err(BridgeError::UnsupportedFourcc { chroma, bit_depth, fourcc: dst_fourcc });
        }
        if bit_depth == 10 && !norm16 {
            return Err(BridgeError::TenBitStorageUnsupported { fourcc: dst_fourcc });
        }
        Ok(
            Nv12IOSurfaceBridge {
                src_dims,
                dst_dims,
                dst_fourcc,
                pool: IOSurfacePool::new(pool_depth),
            },
        )
    }

    /// The horizontal offset of the chroma scaler.
    pub fn chroma_offset(&self) -> (r: ChromaOffset)
        requires
            self.spec_dst_dims().0 > 0,
        ensures
            r.denominator == 2 * self.spec_dst_dims().0,
            r.numerator == self.spec_dst_dims().0 - self.spec_src_dims().0,
            keeps_cosited(self.spec_src_dims().0 as int, self.spec_dst_dims().0 as int, r),
    {
        cosited_chroma_offset(self.src_dims.0, self.dst_dims.0)
    }

    /// How the luma and the chroma plane are scaled: luma at full size, chroma at half of it with
    /// the correction for its siting, both 16 bits wide exactly where the samples have 10 bits.
    pub fn plane_scalers(&self) -> (r: (PlaneScaler, PlaneScaler))
        requires
            self.spec_dst_dims().0 > 0,
        ensures
            r.0 == (PlaneScaler {
                src_dims: self.spec_src_dims(),
                dst_dims: self.spec_dst_dims(),
                sixteen_bit: is_ten_bit(self.spec_dst_fourcc()),
                chroma_offset: None,
            }),
            r.1.src_dims == (self.spec_src_dims().0 / 2, self.spec_src_dims().1 / 2),
            r.1.dst_dims == (self.spec_dst_dims().0 / 2, self.spec_dst_dims().1 / 2),
            r.1.sixteen_bit == is_ten_bit(self.spec_dst_fourcc()),
            r.1.chroma_offset matches Some(offset) && offset.denominator == 2
                * self.spec_dst_dims().0 && offset.numerator == self.spec_dst_dims().0
                - self.spec_src_dims().0,
            scales_planes(
                self.spec_src_dims(),
                self.spec_dst_dims(),
                self.spec_dst_fourcc(),
                r.0,
                r.1,
            ),
    {
        let sixteen_bit: bool = match chroma_bit_depth_for_fourcc(self.dst_fourcc) {
            Some((_, bit_depth)) => bit_depth == 10,
            None => false,
        };
        (
            PlaneScaler {
                src_dims: self.src_dims,
                dst_dims: self.dst_dims,
                sixteen_bit,
                chroma_offset: None,
            },
            PlaneScaler {
                src_dims: (self.src_dims.0 / 2, self.src_dims.1 / 2),
                dst_dims: (self.dst_dims.0 / 2, self.dst_dims.1 / 2),
                sixteen_bit,
                chroma_offset: Some(self.chroma_offset()),
            },
        )
    }

    /// Take a destination surface for one frame.
    pub fn scale_to_iosurface(&mut self) -> (r: Result<PooledIOSurface, BridgeError>)
        ensures
            final(self).same_geometry(*old(self)),
            match r {
                Ok(p) => {
                    &&& first_free(old(self).slots(), p.slot_idx as int)
                    &&& final(self).slots() == with_slot_taken(
                        old(self).slots(),
                        p.slot_idx as int,
                    )
                    &&& p.frame == (IOSurfaceFrame {
                        pixel_format: old(self).spec_dst_fourcc(),
                        width: old(self).spec_dst_dims().0,
                        height: old(self).spec_dst_dims().1,
                    })
                },
                Err(e) => {
                    &&& e == (BridgeError::PoolExhausted { depth: old(self).slots().len() as usize })
                    &&& final(self).slots() == old(self).slots()
                    &&& forall|j: int|
                        0 <= j < old(self).slots().len() ==> (
                        #[trigger] old(self).slots()[j]).in_use
                },
            },
    {
        let depth: usize = self.pool.depth();
        match self.pool.acquire() {
            None => Err(BridgeError::PoolExhausted { depth }),
            Some(slot_idx) => Ok(
                PooledIOSurface {
                    slot_idx,
                    frame: IOSurfaceFrame {
                        pixel_format: self.dst_fourcc,
                        width: self.dst_dims.0,
                        height: self.dst_dims.1,
                    },
                },
            ),
        }
    }

    /// Must the source's colour tags be copied to this slot's surface now?
    pub fn seed_attachments(&mut self, slot_idx: usize) -> (r: bool)
        requires
            slot_idx < old(self).slots().len(),
        ensures
            final(self).same_geometry(*old(self)),
            r == !old(self).slots()[slot_idx as int].attachments_seeded,
            final(self).slots() == old(self).slots().update(
                slot_idx as int,
                PoolSlot { attachments_seeded: true, ..old(self).slots()[slot_idx as int] },
            ),
    {
        self.pool.seed_attachments(slot_idx)
    }

    /// Give a surface back: the encoder is done with it, or the frame failed on the way.
    pub fn release(&mut self, slot_idx: usize)
        ensures
            final(self).same_geometry(*old(self)),
            final(self).slots() == if slot_idx < old(self).slots().len() {
                with_slot_freed(old(self).slots(), slot_idx as int)
            } else {
                old(self).slots()
            },
    {
        self.pool.release(slot_idx);
    }

    /// Source dimensions of the bridge.
    pub fn src_dims(&self) -> (r: (u32, u32))
        ensures
            r == self.spec_src_dims(),
    {
        self.src_dims
    }

    /// Destination dimensions of the bridge.
    pub fn dst_dims(&self) -> (r: (u32, u32))
        ensures
            r == self.spec_dst_dims(),
    {
        self.dst_dims
    }
}

/// A bridge that resizes BGRA surfaces and converts them to 4:2:0.
pub struct BgraIOSurfaceBridge {
    src_dims: (u32, u32),
    dst_dims: (u32, u32),
    dst_fourcc: u32,
    pool: IOSurfacePool,
}

impl BgraIOSurfaceBridge {
    /// How many workgroups convert a frame, in each direction.
    pub open spec fn workgroups(self) -> (int, int) {
        crate::convert::covering(
            self.spec_dst_dims().0 as int / 2,
            self.spec_dst_dims().1 as int / 2,
        )
    }

    pub closed spec fn spec_src_dims(self) -> (u32, u32) {
        self.src_dims
    }

    pub closed spec fn spec_dst_dims(self) -> (u32, u32) {
        self.dst_dims
    }

    pub closed spec fn spec_dst_fourcc(self) -> u32 {
        self.dst_fourcc
    }

    /// The state of the destination surfaces.
    pub closed spec fn slots(self) -> Seq<PoolSlot> {
        self.pool@
    }

    /// The two bridges differ in their pools at most.
    pub open spec fn same_geometry(self, other: Self) -> bool {
        self.spec_src_dims() == other.spec_src_dims() && self.spec_dst_dims()
            == other.spec_dst_dims() && self.spec_dst_fourcc() == other.spec_dst_fourcc()
    }

    /// Why a source surface is not taken, if it is not.
    pub open spec fn source_refusal(self, src: IOSurfaceFrame) -> Option<BridgeError> {
        if src.pixel_format != BGRA_FOURCC {
            Some(BridgeError::SourceNotBgra { fourcc: src.pixel_format })
        } else if src.width != self.spec_src_dims().0 || src.height != self.spec_src_dims().1 {
            Some(
                BridgeError::InputDimMismatch {
                    width: self.spec_src_dims().0,
                    height: self.spec_src_dims().1,
                    input_w: src.width,
                    input_h: src.height,
                },
            )
        } else {
            None
        }
    }

    /// A bridge with the default pool.
    pub fn new(
        src_dims: (u32, u32),
        dst_dims: (u32, u32),
        dst_fourcc: u32,
        support: FourccSupport,
        norm16: bool,
    ) -> (r: Result<Self, BridgeError>)
        ensures
            match bgra_refusal(src_dims, dst_dims, dst_fourcc, support, norm16) {
                Some(e) => r == Err::<Self, BridgeError>(e),
                None => r matches Ok(b) && b.spec_src_dims() == src_dims && b.spec_dst_dims()
                    == dst_dims && b.spec_dst_fourcc() == dst_fourcc && b.slots() == fresh_pool(
                    DEFAULT_POOL_DEPTH,
                ),
            },
    {
        Self::with_pool_depth(src_dims, dst_dims, dst_fourcc, support, norm16, DEFAULT_POOL_DEPTH)
    }

    /// A bridge with `pool_depth` destination surfaces.
    pub fn with_pool_depth(
        src_dims: (u32, u32),
        dst_dims: (u32, u32),
        dst_fourcc: u32,
        support: FourccSupport,
        norm16: bool,
        pool_depth: usize,
    ) -> (r: Result<Self, BridgeError>)
        requires
            pool_depth > 0,
        ensures
            match bgra_refusal(src_dims, dst_dims, dst_fourcc, support, norm16) {
                Some(e) => r == Err::<Self, BridgeError>(e),
                None => r matches Ok(b) && b.spec_src_dims() == src_dims && b.spec_dst_dims()
                    == dst_dims && b.spec_dst_fourcc() == dst_fourcc && b.slots() == fresh_pool(
                    pool_depth,
                ),
            },
    {
        if src_dims.0 == 0 || src_dims.1 == 0 || dst_dims.0 == 0 || dst_dims.1 == 0 {
            return Err(BridgeError::ZeroDim { src: src_dims, dst: dst_dims });
        }
        let (chroma, bit_depth) = match chroma_bit_depth_for_fourcc(dst_fourcc) {
            Some(f) => f,
            None => {
                return Err(BridgeError::UnknownFourcc { fourcc: dst_fourcc });
            },
        };
        if chroma != ChromaSubsampling::Yuv420 || !support.renderer || !support.encoder {
            return Err(BridgeError::UnsupportedFourcc { chroma, bit_depth, fourcc: dst_fourcc });
        }
        if bit_depth == 10 && !norm16 {
            return Err(BridgeError::TenBitStorageUnsupported { fourcc: dst_fourcc });
        }
        Ok(
            BgraIOSurfaceBridge {
                src_dims,
                dst_dims,
                dst_fourcc,
                pool: IOSurfacePool::new(pool_depth),
            },
        )
    }

    /// Take a destination surface for one source frame. A frame that the bridge was not made for
    /// is refused before the pool is touched.
    pub fn convert_to_iosurface(&mut self, src: IOSurfaceFrame) -> (r: Result<
        PooledIOSurface,
        BridgeError,
    >)
        ensures
            final(self).same_geometry(*old(self)),
            match r {
                Ok(p) => {
                    &&& old(self).source_refusal(src) is None
                    &&& first_free(old(self).slots(), p.slot_idx as int)
                    &&& final(self).slots() == with_slot_taken(
                        old(self).slots(),
                        p.slot_idx as int,
                    )
                    &&& p.frame == (IOSurfaceFrame {
                        pixel_format: old(self).spec_dst_fourcc(),
                        width: old(self).spec_dst_dims().0,
                        height: old(self).spec_dst_dims().1,
                    })
                },
                Err(e) => {
                    &&& final(self).slots() == old(self).slots()
                    &&& match old(self).source_refusal(src) {
                        Some(refusal) => e == refusal,
                        None => e == (BridgeError::PoolExhausted {
                            depth: old(self).slots().len() as usize,
                        }) && forall|j: int|
                            0 <= j < old(self).slots().len() ==> (
                            #[trigger] old(self).slots()[j]).in_use,
                    }
                },
            },
    {
        if src.pixel_format != BGRA_FOURCC {
            return Err(BridgeError::SourceNotBgra { fourcc: src.pixel_format });
        }
        if src.width != self.src_dims.0 || src.height != self.src_dims.1 {
            return Err(
                BridgeError::InputDimMismatch {
                    width: self.src_dims.0,
                    height: self.src_dims.1,
                    input_w: src.width,
                    input_h: src.height,
                },
            );
        }
        let depth: usize = self.pool.depth();
        match self.pool.acquire() {
            None => Err(BridgeError::PoolExhausted { depth }),
            Some(slot_idx) => Ok(
                PooledIOSurface {
                    slot_idx,
                    frame: IOSurfaceFrame {
                        pixel_format: self.dst_fourcc,
                        width: self.dst_dims.0,
                        height: self.dst_dims.1,
                    },
                },
            ),
        }
    }

    /// Must the frame be resized before it is converted?
    pub fn needs_resize(&self) -> (r: bool)
        ensures
            r == (self.spec_src_dims() != self.spec_dst_dims()),
    {
        self.src_dims.0 != self.dst_dims.0 || self.src_dims.1 != self.dst_dims.1
    }

    /// Workgroups of the conversion pass: one invocation per chroma sample.
    pub fn dispatch(&self) -> (d: Dispatch)
        ensures
            (d.groups_x as int, d.groups_y as int) == crate::convert::covering(
                self.spec_dst_dims().0 as int / 2,
                self.spec_dst_dims().1 as int / 2,
            ),
            (d.groups_x as int, d.groups_y as int) == self.workgroups(),
    {
        dispatch_texels(self.dst_dims.0 / 2, self.dst_dims.1 / 2)
    }

    /// Must the source's colour tags be copied to this slot's surface now?
    pub fn seed_attachments(&mut self, slot_idx: usize) -> (r: bool)
        requires
            slot_idx < old(self).slots().len(),
        ensures
            final(self).same_geometry(*old(self)),
            r == !old(self).slots()[slot_idx as int].attachments_seeded,
            final(self).slots() == old(self).slots().update(
                slot_idx as int,
                PoolSlot { attachments_seeded: true, ..old(self).slots()[slot_idx as int] },
            ),
    {
        self.pool.seed_attachments(slot_idx)
    }

    /// Give a surface back: the encoder is done with it, or the frame failed on the way.
    pub fn release(&mut self, slot_idx: usize)
        ensures
            final(self).same_geometry(*old(self)),
            final(self).slots() == if slot_idx < old(self).slots().len() {
                with_slot_freed(old(self).slots(), slot_idx as int)
            } else {
                old(self).slots()
            },
    {
        self.pool.release(slot_idx);
    }

    /// Source dimensions of the bridge.
    pub fn src_dims(&self) -> (r: (u32, u32))
        ensures
            r == self.spec_src_dims(),
    {
        self.src_dims
    }

    /// Destination dimensions of the bridge.
    pub fn dst_dims(&self) -> (r: (u32, u32))
        ensures
            r == self.spec_dst_dims(),
    {
        self.dst_dims
    }
}

/// The 4:2:0 codes with 8 bits per sample, spelled out.
pub open spec fn is_eight_bit_420_code(fourcc: u32) -> bool {
    fourcc == surface_code('4', '2', '0', 'v') || fourcc == surface_code('4', '2', '0', 'f')
}

/// The 4:2:0 codes with 10 bits per sample, spelled out.
pub open spec fn is_ten_bit_420_code(fourcc: u32) -> bool {
    fourcc == surface_code('x', '4', '2', '0') || fourcc == surface_code('x', 'f', '2', '0')
        || fourcc == surface_code('P', '0', '1', '0')
}

/// The 4:4:4 codes with 8 bits per sample, spelled out.
pub open spec fn is_eight_bit_444_code(fourcc: u32) -> bool {
    fourcc == surface_code('4', '4', '4', 'v') || fourcc == surface_code('4', '4', '4', 'f')
}

/// The 4:4:4 codes with 10 bits per sample, spelled out.
pub open spec fn is_ten_bit_444_code(fourcc: u32) -> bool {
    fourcc == surface_code('x', '4', '4', '4') || fourcc == surface_code('x', 'f', '4', '4')
        || fourcc == surface_code('P', '4', '1', '0')
}

/// A code belongs to the family that its characters spell, and any other to none.
pub proof fn codes_spell_their_family(fourcc: u32)
    ensures
        family(fourcc) == Some((ChromaSubsampling::Yuv420, 8u8)) <==> is_eight_bit_420_code(fourcc),
        family(fourcc) == Some((ChromaSubsampling::Yuv420, 10u8)) <==> is_ten_bit_420_code(fourcc),
        family(fourcc) == Some((ChromaSubsampling::Yuv444, 8u8)) <==> is_eight_bit_444_code(fourcc),
        family(fourcc) == Some((ChromaSubsampling::Yuv444, 10u8)) <==> is_ten_bit_444_code(fourcc),
        family(fourcc) is None <==> !is_eight_bit_420_code(fourcc) && !is_ten_bit_420_code(fourcc)
            && !is_eight_bit_444_code(fourcc) && !is_ten_bit_444_code(fourcc),
{
}

/// A BGRA bridge is made for all extents without a zero, equal or not, and every 4:2:0 code that
/// renderer and encoder both take, if it has 8 bits or the device has 16-bit formats; and it is
/// made in no other case. So whether one is made is the same for any other extents without a zero.
pub proof fn bgra_bridges_are_made_whatever_the_extents(
    src: (u32, u32),
    dst: (u32, u32),
    other_src: (u32, u32),
    other_dst: (u32, u32),
    fourcc: u32,
    support: FourccSupport,
    norm16: bool,
)
    ensures
        bgra_refusal(src, dst, fourcc, support, norm16) is None <==> {
            &&& src.0 > 0 && src.1 > 0 && dst.0 > 0 && dst.1 > 0
            &&& support.renderer && support.encoder
            &&& is_eight_bit_420_code(fourcc) || is_ten_bit_420_code(fourcc) && norm16
        },
        src.0 > 0 && src.1 > 0 && dst.0 > 0 && dst.1 > 0 && other_src.0 > 0 && other_src.1 > 0
            && other_dst.0 > 0 && other_dst.1 > 0 ==> bgra_refusal(
            src,
            dst,
            fourcc,
            support,
            norm16,
        ) == bgra_refusal(other_src, other_dst, fourcc, support, norm16),
{
}

/// A bridge that scales planes is made for all extents without a zero that differ and every known
/// code that renderer and encoder both take, if it has 8 bits or the device has 16-bit formats;
/// and it is made in no other case.
pub proof fn plane_bridges_are_made_where_there_is_something_to_scale(
    src: (u32, u32),
    dst: (u32, u32),
    fourcc: u32,
    support: FourccSupport,
    norm16: bool,
)
    ensures
        nv12_refusal(src, dst, fourcc, support, norm16) is None <==> {
            &&& src.0 > 0 && src.1 > 0 && dst.0 > 0 && dst.1 > 0
            &&& src.0 != dst.0 || src.1 != dst.1
            &&& support.renderer && support.encoder
            &&& {
                ||| is_eight_bit_420_code(fourcc) || is_eight_bit_444_code(fourcc)
                ||| (is_ten_bit_420_code(fourcc) || is_ten_bit_444_code(fourcc)) && norm16
            }
        },
{
}

/// Each refusal names what is wrong, and what the bridge was asked for: an extent of zero first,
/// then for planes that there is nothing to scale, then an unknown code, then one that is not
/// taken, then 10 bits on a device without 16-bit formats.
pub proof fn refusals_name_what_is_wrong(
    src: (u32, u32),
    dst: (u32, u32),
    fourcc: u32,
    support: FourccSupport,
    norm16: bool,
)
    ensures
        ({
            let zero = src.0 == 0 || src.1 == 0 || dst.0 == 0 || dst.1 == 0;
            let known = family(fourcc) is Some;
            let taken = support.renderer && support.encoder;
            let bgra = bgra_refusal(src, dst, fourcc, support, norm16);
            let nv12 = nv12_refusal(src, dst, fourcc, support, norm16);
            let no_pixels = Some(BridgeError::ZeroDim { src, dst });
            let same_size = Some(BridgeError::NoScaleNeeded { dims: dst });
            let unknown = Some(BridgeError::UnknownFourcc { fourcc });
            let no_storage = Some(BridgeError::TenBitStorageUnsupported { fourcc });
            &&& bgra == no_pixels <==> zero
            &&& nv12 == no_pixels <==> zero
            &&& bgra != same_size
            &&& nv12 == same_size <==> !zero && src == dst
            &&& bgra == unknown <==> !zero && !known
            &&& nv12 == unknown <==> !zero && src != dst && !known
            &&& bgra == no_storage <==> !zero && is_ten_bit_420_code(fourcc) && taken && !norm16
            &&& (bgra matches Some(BridgeError::UnsupportedFourcc { chroma, bit_depth, fourcc: f })
                ==> f == fourcc && family(fourcc) == Some((chroma, bit_depth)))
            &&& (nv12 matches Some(BridgeError::UnsupportedFourcc { chroma, bit_depth, fourcc: f })
                ==> f == fourcc && family(fourcc) == Some((chroma, bit_depth)))
            &&& (bgra matches Some(BridgeError::InputDimMismatch { .. }) ==> false)
            &&& (bgra matches Some(BridgeError::PoolExhausted { .. }) ==> false)
        }),
{
}

/// Where both bridges can be made at all they take the same codes: they differ in 4:4:4, which
/// only planes have, and in equal extents, where planes need no scaling.
pub proof fn both_bridges_take_the_same_codes(
    src: (u32, u32),
    dst: (u32, u32),
    fourcc: u32,
    support: FourccSupport,
    norm16: bool,
)
    requires
        src != dst,
        is_eight_bit_420_code(fourcc) || is_ten_bit_420_code(fourcc),
    ensures
        bgra_refusal(src, dst, fourcc, support, norm16) == nv12_refusal(
            src,
            dst,
            fourcc,
            support,
            norm16,
        ),
{
}

/// A BGRA bridge takes a source exactly if it is BGRA and of the extent that the bridge was made
/// for.
pub proof fn bgra_bridges_take_the_sources_they_were_made_for(
    bridge: BgraIOSurfaceBridge,
    src: IOSurfaceFrame,
)
    ensures
        bridge.source_refusal(src) is None <==> src.pixel_format == surface_code('B', 'G', 'R', 'A')
            && (src.width, src.height) == bridge.spec_src_dims(),
        bridge.source_refusal(src) == Some(
            BridgeError::SourceNotBgra { fourcc: src.pixel_format },
        ) <==> src.pixel_format != surface_code('B', 'G', 'R', 'A'),
{
}

/// Samples of 8 bits take a byte and samples of 10 bits two; a chroma element is a pair of
/// samples. The formats of the planes are as wide for 4:2:0, one channel for luma and two for
/// chroma, the same in both APIs.
pub proof fn elements_hold_their_samples(fourcc: u32)
    ensures
        element_bytes(fourcc).1 == 2 * element_bytes(fourcc).0,
        element_bytes(fourcc).0 == 2 <==> is_ten_bit_420_code(fourcc) || is_ten_bit_444_code(
            fourcc,
        ),
        element_bytes(fourcc).0 == 1 || element_bytes(fourcc).0 == 2,
        ({
            let bits: int = if is_ten_bit_420_code(fourcc) {
                16
            } else {
                8
            };
            let (luma, chroma) = plane_formats(fourcc);
            &&& crate::formats::texture_channels(luma.wgpu) == (1int, bits)
            &&& crate::formats::texture_channels(chroma.wgpu) == (2int, bits)
            &&& metal_channels(luma.metal) == (1int, bits)
            &&& metal_channels(chroma.metal) == (2int, bits)
        }),
{
}

/// The channels of a Metal format, and how many bits each has.
pub open spec fn metal_channels(f: MetalFormat) -> (int, int) {
    match f {
        MetalFormat::R8Unorm => (1, 8),
        MetalFormat::Rg8Unorm => (2, 8),
        MetalFormat::R16Unorm => (1, 16),
        MetalFormat::Rg16Unorm => (2, 16),
    }
}

/// A surface has luma for every pixel, and one chroma element for two by two pixels, an odd
/// column or row left over having none. A row of chroma is no longer than a row of luma.
pub proof fn surfaces_have_chroma_for_four_pixels(width: u32, height: u32, fourcc: u32)
    ensures
        ({
            let (luma, chroma) = planes_of(width, height, fourcc);
            &&& luma.width == width && luma.height == height
            &&& width - 1 <= 2 * chroma.width <= width
            &&& height - 1 <= 2 * chroma.height <= height
            &&& luma.bytes_per_element == element_bytes(fourcc).0
            &&& chroma.bytes_per_element == element_bytes(fourcc).1
            &&& chroma.width * chroma.bytes_per_element <= luma.width * luma.bytes_per_element
        }),
{
}

/// The converter writes as many bits as the code has; a code that is no 4:2:0 code has none.
pub proof fn converters_write_the_bits_of_the_code(fourcc: u32)
    ensures
        converter_of(fourcc) is Some <==> is_eight_bit_420_code(fourcc) || is_ten_bit_420_code(
            fourcc,
        ),
        is_eight_bit_420_code(fourcc) ==> (converter_of(fourcc)->0)@ == "bgra_to_420v"@,
        is_ten_bit_420_code(fourcc) ==> (converter_of(fourcc)->0)@ == "bgra_to_x420"@,
{
}

/// A new pool has as many slots as it was asked for, all free and none tagged.
pub proof fn new_pools_are_free(depth: usize)
    ensures
        fresh_pool(depth).len() == depth,
        held(fresh_pool(depth)) == 0,
        forall|i: int|
            0 <= i < depth ==> !(#[trigger] fresh_pool(depth)[i]).in_use && !fresh_pool(
                depth,
            )[i].attachments_seeded,
    decreases depth,
{
    if depth > 0 {
        new_pools_are_free((depth - 1) as usize);
        assert(fresh_pool(depth).drop_last() == fresh_pool((depth - 1) as usize));
    }
}

proof fn lemma_held_all(pool: Seq<PoolSlot>)
    ensures
        held(pool) <= pool.len(),
        held(pool) == pool.len() <==> forall|i: int| 0 <= i < pool.len() ==> #[trigger] pool[i].in_use,
    decreases pool.len(),
{
    if pool.len() > 0 {
        let front = pool.drop_last();
        lemma_held_all(front);
        if held(pool) == pool.len() {
            assert forall|i: int| 0 <= i < pool.len() implies #[trigger] pool[i].in_use by {
                if i < front.len() {
                    assert(front[i].in_use);
                }
            }
        } else if forall|i: int| 0 <= i < pool.len() ==> #[trigger] pool[i].in_use {
            assert forall|i: int| 0 <= i < front.len() implies #[trigger] front[i].in_use by {
                assert(pool[i].in_use);
            }
            assert(pool[pool.len() - 1].in_use);
        }
    }
}

proof fn lemma_first_free(pool: Seq<PoolSlot>, i: int) -> (first: int)
    requires
        0 <= i < pool.len(),
        !pool[i].in_use,
    ensures
        first_free(pool, first),
    decreases i,
{
    if exists|j: int| 0 <= j < i && !(#[trigger] pool[j]).in_use {
        let j = choose|j: int| 0 <= j < i && !(#[trigger] pool[j]).in_use;
        lemma_first_free(pool, j)
    } else {
        i
    }
}

/// A pool gives out slots until all are held, and not one more.
pub proof fn slots_are_given_out_until_all_are_held(pool: Seq<PoolSlot>)
    ensures
        (exists|i: int| first_free(pool, i)) <==> held(pool) < pool.len(),
        forall|i: int, j: int|
            #![trigger first_free(pool, i), pool[j]]
            first_free(pool, i) && 0 <= j < pool.len() && !pool[j].in_use ==> 0 <= i <= j
                && !pool[i].in_use,
{
    lemma_held_all(pool);
    if held(pool) < pool.len() {
        let i = choose|i: int| 0 <= i < pool.len() && !(#[trigger] pool[i]).in_use;
        let first = lemma_first_free(pool, i);
        assert(first_free(pool, first));
    }
}

/// Taking a slot and giving it back touch that slot alone, and leave its tags.
pub proof fn slots_keep_to_themselves(pool: Seq<PoolSlot>, i: int, j: int)
    requires
        0 <= i < pool.len(),
        0 <= j < pool.len(),
    ensures
        with_slot_taken(pool, i).len() == pool.len(),
        with_slot_freed(pool, i).len() == pool.len(),
        with_slot_taken(pool, i)[i].in_use,
        !with_slot_freed(pool, i)[i].in_use,
        j != i ==> with_slot_taken(pool, i)[j] == pool[j] && with_slot_freed(pool, i)[j] == pool[j],
        with_slot_taken(pool, i)[j].attachments_seeded == pool[j].attachments_seeded,
        with_slot_freed(pool, i)[j].attachments_seeded == pool[j].attachments_seeded,
{
}

/// What the bridges can do on an adapter.
pub open spec fn capabilities_of(adapter: AdapterFeatures) -> Option<BridgeDeviceCapabilities> {
    if adapter.adapter_formats {
        Some(BridgeDeviceCapabilities { supports_10bit: adapter.norm16 })
    } else {
        None
    }
}

/// The two scalers read planes of a source and write planes of a target surface, element for
/// element, and leave chroma on its luma column.
pub open spec fn scales_planes(
    src: (u32, u32),
    dst: (u32, u32),
    fourcc: u32,
    luma: PlaneScaler,
    chroma: PlaneScaler,
) -> bool {
    let from = planes_of(src.0, src.1, fourcc);
    let to = planes_of(dst.0, dst.1, fourcc);
    &&& luma.src_dims == (from.0.width, from.0.height)
    &&& luma.dst_dims == (to.0.width, to.0.height)
    &&& chroma.src_dims == (from.1.width, from.1.height)
    &&& chroma.dst_dims == (to.1.width, to.1.height)
    &&& luma.sixteen_bit == (to.0.bytes_per_element == 2)
    &&& chroma.sixteen_bit == (to.1.bytes_per_element == 4)
    &&& luma.chroma_offset is None
    &&& chroma.chroma_offset is Some
    &&& keeps_cosited(src.0 as int, dst.0 as int, chroma.chroma_offset->0)
}

/// A device for the bridges is had from any adapter with the format features, and 16-bit formats
/// decide on 10-bit surfaces alone.
pub proof fn sixteen_bit_formats_decide_on_ten_bits(adapter: AdapterFeatures)
    ensures
        capabilities_of(adapter) is Some <==> adapter.adapter_formats,
        adapter.adapter_formats ==> (capabilities_of(adapter)->0.supports_10bit <==>
            adapter.norm16),
{
}

/// A bridge starts one invocation for every chroma sample of the target surface, and no workgroup
/// is idle.
pub proof fn every_chroma_sample_is_converted_once(b: BgraIOSurfaceBridge)
    ensures
        ({
            let chroma = planes_of(b.spec_dst_dims().0, b.spec_dst_dims().1, b.spec_dst_fourcc()).1;
            let (x, y) = b.workgroups();
            &&& 8 * (x - 1) < chroma.width <= 8 * x
            &&& 8 * (y - 1) < chroma.height <= 8 * y
        }),
{
}

/// A bridge keeps its geometry where its extents and its code are what they were.
pub proof fn bridges_keep_their_geometry(
    a: BgraIOSurfaceBridge,
    b: BgraIOSurfaceBridge,
    c: Nv12IOSurfaceBridge,
    d: Nv12IOSurfaceBridge,
)
    ensures
        a.same_geometry(b) ==> a.spec_src_dims() == b.spec_src_dims() && a.spec_dst_dims()
            == b.spec_dst_dims() && a.spec_dst_fourcc() == b.spec_dst_fourcc(),
        c.same_geometry(d) ==> c.spec_src_dims() == d.spec_src_dims() && c.spec_dst_dims()
            == d.spec_dst_dims() && c.spec_dst_fourcc() == d.spec_dst_fourcc(),
        a.same_geometry(a),
        c.same_geometry(c),
{
}

} // verus!
