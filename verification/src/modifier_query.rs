//! Which DRM format modifiers the GPU can import or write.
//!
//! A capture side must offer exactly the modifiers that it can consume: more, and frames arrive
//! that cannot be imported; fewer, and every tiled buffer is rejected. The driver lists its
//! modifiers with what each can be used for; this module names the format to ask about and keeps
//! the modifiers with the use that is needed.
use vstd::prelude::*;

use crate::formats::VkFormat;

verus! {

/// `DRM_FORMAT_ARGB8888`.
pub const FOURCC_AR24: u32 = 0x34325241;

/// `DRM_FORMAT_XRGB8888`.
pub const FOURCC_XR24: u32 = 0x34325258;

/// `DRM_FORMAT_R8`: the Y plane of NV12 and NV24.
pub const FOURCC_R8: u32 = 0x20203852;

/// `DRM_FORMAT_GR88`: the UV plane of NV12 and NV24.
pub const FOURCC_GR88: u32 = 0x38385247;

/// `DRM_FORMAT_R16`: the Y plane of P010 and P410.
pub const FOURCC_R16: u32 = 0x20363152;

/// `DRM_FORMAT_GR1616`: the UV plane of P010 and P410.
pub const FOURCC_GR32: u32 = 0x32335247;

/// `DRM_FORMAT_XYUV8888`: packed 8-bit 4:4:4.
pub const FOURCC_XYUV: u32 = 0x56555958;

/// `DRM_FORMAT_XV30`: packed 10-bit 4:4:4.
pub const FOURCC_XV30: u32 = 0x30335658;

/// `DRM_FORMAT_NV12`: what the encoder imports for 8-bit 4:2:0.
pub const FOURCC_NV12: u32 = 0x3231564e;

/// The code of four characters, the first in the lowest byte.
pub open spec fn fourcc_code(a: char, b: char, c: char, d: char) -> int {
    a as int + 0x100 * (b as int) + 0x1_0000 * (c as int) + 0x100_0000 * (d as int)
}

/// Every code constant spells its name.
pub proof fn fourcc_constants_spell_their_names()
    ensures
        FOURCC_AR24 == fourcc_code('A', 'R', '2', '4'),
        FOURCC_XR24 == fourcc_code('X', 'R', '2', '4'),
        FOURCC_R8 == fourcc_code('R', '8', ' ', ' '),
        FOURCC_GR88 == fourcc_code('G', 'R', '8', '8'),
        FOURCC_R16 == fourcc_code('R', '1', '6', ' '),
        FOURCC_GR32 == fourcc_code('G', 'R', '3', '2'),
        FOURCC_XYUV == fourcc_code('X', 'Y', 'U', 'V'),
        FOURCC_XV30 == fourcc_code('X', 'V', '3', '0'),
        FOURCC_NV12 == fourcc_code('N', 'V', '1', '2'),
{
}

/// Why a modifier query gave no list.
#[derive(Debug)]
pub enum ModifierQueryError {
    /// No adapter is available.
    NoAdapter,
    /// The device could not be opened, for the reason given.
    Device(String),
    /// The adapter lacks DMA-BUF support or adapter-specific format features.
    FeatureUnsupported,
    /// The device is not backed by Vulkan.
    NotVulkan,
    /// No Vulkan format corresponds to this code.
    UnsupportedFourcc(u32),
}

/// A modifier the driver lists for a format, with what images of it can be used for.
#[derive(Clone, Copy, Debug, PartialEq, Eq, Structural)]
pub struct ModifierProperties {
    pub modifier: u64,
    /// Vulkan's `VkFormatFeatureFlags`.
    pub tiling_features: u32,
}

/// The feature bit of formats that shaders can sample.
pub const FORMAT_FEATURE_SAMPLED_IMAGE: u32 = 0x1;

/// The feature bit of formats that compute shaders can write.
pub const FORMAT_FEATURE_STORAGE_IMAGE: u32 = 0x2;

/// What opening a device for a query and asking its driver came to.
#[derive(Debug)]
pub enum ModifierProbe {
    NoAdapter,
    MissingFeatures,
    DeviceFailed(String),
    NotVulkan,
    /// What the driver lists for the format.
    Listed(Vec<ModifierProperties>),
}

/// The Vulkan format that a DMA-BUF of the given code binds to.
pub open spec fn vk_format_of(drm_fourcc: u32) -> Option<VkFormat> {
    if drm_fourcc == FOURCC_AR24 || drm_fourcc == FOURCC_XR24 {
        Some(VkFormat::B8G8R8A8Unorm)
    } else if drm_fourcc == FOURCC_R8 {
        Some(VkFormat::R8Unorm)
    } else if drm_fourcc == FOURCC_GR88 {
        Some(VkFormat::R8G8Unorm)
    } else if drm_fourcc == FOURCC_R16 {
        Some(VkFormat::R16Unorm)
    } else if drm_fourcc == FOURCC_GR32 {
        Some(VkFormat::R16G16Unorm)
    } else if drm_fourcc == FOURCC_XYUV {
        Some(VkFormat::R8G8B8A8Unorm)
    } else if drm_fourcc == FOURCC_XV30 {
        Some(VkFormat::A2B10G10R10UnormPack32)
    } else {
        None
    }
}

/// Map a DRM code to the Vulkan format that an importer uses for it.
///
/// Both BGRA capture codes share a format: Vulkan has no form without alpha, and the shaders
/// ignore it.
pub fn drm_fourcc_to_vk_format(drm_fourcc: u32) -> (r: Result<VkFormat, ModifierQueryError>)
    ensures
        match vk_format_of(drm_fourcc) {
            Some(f) => r == Ok::<VkFormat, ModifierQueryError>(f),
            None => r == Err::<VkFormat, ModifierQueryError>(
                ModifierQueryError::UnsupportedFourcc(drm_fourcc),
            ),
        },
{
    match drm_fourcc {
        FOURCC_AR24 | FOURCC_XR24 => Ok(VkFormat::B8G8R8A8Unorm),
        FOURCC_R8 => Ok(VkFormat::R8Unorm),
        FOURCC_GR88 => Ok(VkFormat::R8G8Unorm),
        FOURCC_R16 => Ok(VkFormat::R16Unorm),
        FOURCC_GR32 => Ok(VkFormat::R16G16Unorm),
        FOURCC_XYUV => Ok(VkFormat::R8G8B8A8Unorm),
        FOURCC_XV30 => Ok(VkFormat::A2B10G10R10UnormPack32),
        other => Err(ModifierQueryError::UnsupportedFourcc(other)),
    }
}

/// The listed modifiers with every bit of `required`, in the driver's order.
pub open spec fn modifiers_with(props: Seq<ModifierProperties>, required: u32) -> Seq<u64> {
    props.filter(|p: ModifierProperties| p.tiling_features & required == required).map_values(
        |p: ModifierProperties| p.modifier,
    )
}

fn filter_modifiers(props: &Vec<ModifierProperties>, required: u32) -> (r: Vec<u64>)
    ensures
        r@ == modifiers_with(props@, required),
{
    let mut out: Vec<u64> = Vec::new();
    let mut i: usize = 0;
    let ghost keep = |p: ModifierProperties| p.tiling_features & required == required;
    proof {
        assert(props@.take(0).filter(keep) =~= Seq::<ModifierProperties>::empty()) by {
            reveal(Seq::filter);
        }
    }
    while i < props.len()
        invariant
            i <= props@.len(),
            keep == (|p: ModifierProperties| p.tiling_features & required == required),
            out@ == modifiers_with(props@.take(i as int), required),
        decreases props@.len() - i,
    {
        let p = props[i];
        proof {
            let next = props@.take(i + 1);
            assert(next.drop_last() =~= props@.take(i as int));
            reveal(Seq::filter);
            assert(next.last() == p);
            assert(modifiers_with(next, required) =~= if keep(p) {
                modifiers_with(props@.take(i as int), required).push(p.modifier)
            } else {
                modifiers_with(props@.take(i as int), required)
            });
        }
        if p.tiling_features & required == required {
            out.push(p.modifier);
        }
        i = i + 1;
    }
    assert(props@.take(i as int) =~= props@);
    out
}

/// `r` is the answer to a query: an unknown code is refused before anything is opened, then what
/// went wrong on the way to the driver, then the listed modifiers with the feature.
pub open spec fn answers(
    r: Result<Vec<u64>, ModifierQueryError>,
    drm_fourcc: u32,
    probe: ModifierProbe,
    required: u32,
) -> bool {
    if vk_format_of(drm_fourcc) is None {
        r == Err::<Vec<u64>, ModifierQueryError>(ModifierQueryError::UnsupportedFourcc(drm_fourcc))
    } else {
        match probe {
            ModifierProbe::NoAdapter => r == Err::<Vec<u64>, ModifierQueryError>(
                ModifierQueryError::NoAdapter,
            ),
            ModifierProbe::MissingFeatures => r == Err::<Vec<u64>, ModifierQueryError>(
                ModifierQueryError::FeatureUnsupported,
            ),
            ModifierProbe::DeviceFailed(why) => r == Err::<Vec<u64>, ModifierQueryError>(
                ModifierQueryError::Device(why),
            ),
            ModifierProbe::NotVulkan => r == Err::<Vec<u64>, ModifierQueryError>(
                ModifierQueryError::NotVulkan,
            ),
            ModifierProbe::Listed(props) => r matches Ok(m) && m@ == modifiers_with(
                props@,
                required,
            ),
        }
    }
}

fn query_dmabuf_modifiers(drm_fourcc: u32, probe: ModifierProbe, required_feature: u32) -> (r: Result<
    Vec<u64>,
    ModifierQueryError,
>)
    ensures
        answers(r, drm_fourcc, probe, required_feature),
{
    match drm_fourcc_to_vk_format(drm_fourcc) {
        Err(e) => {
            return Err(e);
        },
        Ok(_) => {},
    }
    match probe {
        ModifierProbe::NoAdapter => Err(ModifierQueryError::NoAdapter),
        ModifierProbe::MissingFeatures => Err(ModifierQueryError::FeatureUnsupported),
        ModifierProbe::DeviceFailed(why) => Err(ModifierQueryError::Device(why)),
        ModifierProbe::NotVulkan => Err(ModifierQueryError::NotVulkan),
        ModifierProbe::Listed(props) => Ok(filter_modifiers(&props, required_feature)),
    }
}

/// The modifiers with which shaders can sample a DMA-BUF of the given code. This is the list to
/// offer to a compositor.
pub fn importable_dmabuf_modifiers(drm_fourcc: u32, probe: ModifierProbe) -> (r: Result<
    Vec<u64>,
    ModifierQueryError,
>)
    ensures
        answers(r, drm_fourcc, probe, FORMAT_FEATURE_SAMPLED_IMAGE),
{
    query_dmabuf_modifiers(drm_fourcc, probe, FORMAT_FEATURE_SAMPLED_IMAGE)
}

/// The modifiers with which compute shaders can write a DMA-BUF of the given code. A GPU may
/// sample a 16-bit format that it cannot write; the 10-bit converters ask here first.
pub fn storable_dmabuf_modifiers(drm_fourcc: u32, probe: ModifierProbe) -> (r: Result<
    Vec<u64>,
    ModifierQueryError,
>)
    ensures
        answers(r, drm_fourcc, probe, FORMAT_FEATURE_STORAGE_IMAGE),
{
    query_dmabuf_modifiers(drm_fourcc, probe, FORMAT_FEATURE_STORAGE_IMAGE)
}

/// Is the modifier in the list?
pub fn lists_modifier(modifiers: &Vec<u64>, modifier: u64) -> (r: bool)
    ensures
        r == modifiers@.contains(modifier),
{
    let mut i: usize = 0;
    while i < modifiers.len()
        invariant
            i <= modifiers@.len(),
            forall|j: int| 0 <= j < i ==> modifiers@[j] != modifier,
        decreases modifiers@.len() - i,
    {
        if modifiers[i] == modifier {
            assert(modifiers@[i as int] == modifier);
            return true;
        }
        i = i + 1;
    }
    false
}

/// Offering is exact: a modifier is in the answer to a query if and only if the driver lists it
/// with the required feature.
pub proof fn a_modifier_is_offered_exactly_where_the_driver_supports_it(
    props: Seq<ModifierProperties>,
    required: u32,
    modifier: u64,
)
    ensures
        modifiers_with(props, required).contains(modifier) <==> exists|i: int|
            0 <= i < props.len() && (#[trigger] props[i]).modifier == modifier
                && props[i].tiling_features & required == required,
    decreases props.len(),
{
    let keep = |p: ModifierProperties| p.tiling_features & required == required;
    let all = modifiers_with(props, required);
    reveal(Seq::filter);
    if props.len() > 0 {
        let rest = props.drop_last();
        let last = props.last();
        let before = modifiers_with(rest, required);
        a_modifier_is_offered_exactly_where_the_driver_supports_it(rest, required, modifier);
        assert(all =~= if keep(last) {
            before.push(last.modifier)
        } else {
            before
        });
        if before.contains(modifier) {
            let i = choose|i: int|
                0 <= i < rest.len() && (#[trigger] rest[i]).modifier == modifier
                    && rest[i].tiling_features & required == required;
            assert(props[i] == rest[i]);
            let j = choose|j: int| 0 <= j < before.len() && before[j] == modifier;
            assert(all[j] == modifier);
        } else if keep(last) && last.modifier == modifier {
            assert(props[props.len() - 1] == last);
            assert(all[before.len() as int] == modifier);
        } else {
            assert forall|i: int| 0 <= i < props.len() && (#[trigger] props[i]).modifier
                == modifier implies props[i].tiling_features & required != required by {
                if i < rest.len() {
                    assert(rest[i] == props[i]);
                }
            }
        }
    }
}

/// A DMA-BUF is bound with the channels that its code names: one of 8 or 16 bits for luma, two for
/// a chroma pair, four of 8 bits for captured frames and packed 4:4:4, and packed 10 bits.
pub proof fn codes_are_bound_with_their_channels(drm_fourcc: u32)
    ensures
        vk_format_of(drm_fourcc) matches Some(f) ==> crate::formats::channels(f) == (
        if drm_fourcc == fourcc_code('R', '8', ' ', ' ') {
            (1int, 8int)
        } else if drm_fourcc == fourcc_code('G', 'R', '8', '8') {
            (2int, 8int)
        } else if drm_fourcc == fourcc_code('R', '1', '6', ' ') {
            (1int, 16int)
        } else if drm_fourcc == fourcc_code('G', 'R', '3', '2') {
            (2int, 16int)
        } else if drm_fourcc == fourcc_code('X', 'V', '3', '0') {
            (4int, 10int)
        } else {
            (4int, 8int)
        }),
        vk_format_of(drm_fourcc) == Some(VkFormat::B8G8R8A8Unorm) <==> drm_fourcc == fourcc_code(
            'A',
            'R',
            '2',
            '4',
        ) || drm_fourcc == fourcc_code('X', 'R', '2', '4'),
        vk_format_of(drm_fourcc) == Some(VkFormat::R8G8B8A8Unorm) <==> drm_fourcc == fourcc_code(
            'X',
            'Y',
            'U',
            'V',
        ),
        drm_fourcc == fourcc_code('R', '8', ' ', ' ') || drm_fourcc == fourcc_code(
            'G',
            'R',
            '8',
            '8',
        ) || drm_fourcc == fourcc_code('R', '1', '6', ' ') || drm_fourcc == fourcc_code(
            'G',
            'R',
            '3',
            '2',
        ) || drm_fourcc == fourcc_code('X', 'V', '3', '0') ==> vk_format_of(drm_fourcc) is Some,
{
}

/// The planes of an exported surface and the codes that an encoder imports them under agree on
/// the format.
pub proof fn exported_planes_have_the_format_of_their_code(width: u32, height: u32)
    ensures
        vk_format_of(FOURCC_R8) == Some(crate::surfaces::nv12_planes(width, height)[0].format),
        vk_format_of(FOURCC_GR88) == Some(crate::surfaces::nv12_planes(width, height)[1].format),
        vk_format_of(FOURCC_R16) == Some(crate::surfaces::p010_planes(width, height)[0].format),
        vk_format_of(FOURCC_GR32) == Some(crate::surfaces::p010_planes(width, height)[1].format),
        vk_format_of(FOURCC_XV30) == Some(crate::surfaces::xv30_planes(width, height)[0].format),
        vk_format_of(FOURCC_XYUV) == Some(crate::surfaces::yuv444_planes(width, height)[0].format),
{
}

/// A modifier is offered for sampling where the driver's lowest feature bit is set for it, and
/// for writing where the next one is.
pub proof fn features_are_the_bits_of_vulkan(p: ModifierProperties)
    ensures
        modifiers_with(seq![p], FORMAT_FEATURE_SAMPLED_IMAGE).contains(p.modifier) <==> p.tiling_features
            & 1 != 0,
        modifiers_with(seq![p], FORMAT_FEATURE_STORAGE_IMAGE).contains(p.modifier) <==> p.tiling_features
            & 2 != 0,
{
    let bits = p.tiling_features;
    assert((bits & 1 == 1 <==> bits & 1 != 0) && (bits & 2 == 2 <==> bits & 2 != 0))
        by (bit_vector);
    a_modifier_is_offered_exactly_where_the_driver_supports_it(seq![p], 1, p.modifier);
    a_modifier_is_offered_exactly_where_the_driver_supports_it(seq![p], 2, p.modifier);
    assert(seq![p][0] == p);
}

/// A query gives a list exactly if the code is known and the driver could be asked; otherwise it
/// says why not, an unknown code before anything else.
pub proof fn queries_answer_or_say_why_not(
    r: Result<Vec<u64>, ModifierQueryError>,
    drm_fourcc: u32,
    probe: ModifierProbe,
    required: u32,
)
    requires
        answers(r, drm_fourcc, probe, required),
    ensures
        r is Ok <==> vk_format_of(drm_fourcc) is Some && probe is Listed,
        r matches Err(e) ==> {
            &&& e is UnsupportedFourcc <==> vk_format_of(drm_fourcc) is None
            &&& vk_format_of(drm_fourcc) is Some ==> {
                &&& e is NoAdapter <==> probe is NoAdapter
                &&& e is FeatureUnsupported <==> probe is MissingFeatures
                &&& e is Device <==> probe is DeviceFailed
                &&& e is NotVulkan <==> probe is NotVulkan
            }
        },
{
}

} // verus!
