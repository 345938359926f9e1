//! Surfaces, their export, the converters in front of them, and dumped frames.
use ash::vk;
use tether::bridges::{
    AdapterFeatures, Bgra2P010DmaBuf, Bgra2Xv30DmaBuf, Nv12DmaBuf, Nv12DmaBufError, P010DmaBufError,
    SourceTexture, Xv30DmaBufError, Yuv444DmaBuf, Yuv444DmaBufError, Yuv444pDmaBuf,
    Yuv444pDmaBufError,
};
use tether::convert::{
    dispatch_chroma, dispatch_texels, padded_row, strip_row_padding, Bgra2Nv12, ConvertError,
    DeviceProbe, Dispatch, Nv12Planes,
};
use tether::dmabuf_export::{
    ExportError, ExportMachine, ExportedPlanes, PlaneLayout, PlaneSpec, Reply, Resource, Step,
};
use tether::formats::{
    wgpu_format_to_vk, wgpu_usage_to_hal_uses, wgpu_usage_to_vk, TextureFormat, TextureUsages,
    TextureUses, VkFormat,
};
use tether::frame_dump::{
    dump_geometry, fourcc_label, is_full_range, pack_rgba, padded_copy_row, read_le_u16,
    sanitize_filename_part, yuv420_samples, BridgeFrameDump, YuvSample,
};
use tether::iosurface::{
    bgra_to_420_function, bridge_device_capabilities, chroma_bit_depth_for_fourcc,
    cosited_chroma_offset, nv12_bytes_per_element, plane_wgpu_formats, surface_planes,
    BgraIOSurfaceBridge, BridgeError, ChromaSubsampling, FourccSupport, IOSurfaceFrame,
    IOSurfacePool, MetalFormat, Nv12IOSurfaceBridge, BGRA_FOURCC, NV12_FULL_RANGE_FOURCC,
    NV12_VIDEO_RANGE_FOURCC, P010_FOURCC, X420_FOURCC, X444_FOURCC, XF20_FOURCC,
};
use tether::memory::{
    align_up, div_ceil, find_memory_type, next_multiple_of, plan_memory, requirements_fit,
    select_memory_type, MemoryRequirements, MEMORY_PROPERTY_DEVICE_LOCAL,
};
use tether::modifier_query::{
    drm_fourcc_to_vk_format, importable_dmabuf_modifiers, lists_modifier, storable_dmabuf_modifiers,
    ModifierProbe, ModifierProperties, ModifierQueryError, FORMAT_FEATURE_SAMPLED_IMAGE,
    FORMAT_FEATURE_STORAGE_IMAGE,
};
use tether::surfaces::{
    export_nv12_shared_dmabuf, export_p010_shared_dmabuf, export_texture_as_dmabuf,
    export_xv30_shared_dmabuf, export_yuv444_shared_dmabuf, export_yuv444p_shared_dmabuf,
    DeviceGate, DmaBufExport, SharedNv12Export, SharedP010Export, SharedXv30Export,
    SharedYuv444pExport,
};

const READY: DeviceGate = DeviceGate { dma_buf: true, vulkan: true };
const STORAGE: TextureUsages = TextureUsages {
    copy_src: true,
    copy_dst: false,
    texture_binding: false,
    storage_binding: true,
    render_attachment: false,
};
const BOTH: FourccSupport = FourccSupport { renderer: true, encoder: true };

fn raw(fourcc: &[u8; 4]) -> i32 {
    match drm_fourcc_to_vk_format(u32::from_le_bytes(*fourcc)) {
        Ok(f) => f.raw(),
        Err(e) => panic!("{e:?}"),
    }
}

#[test]
fn drm_fourcc_table_covers_10_bit_biplanar_planes() {
    assert_eq!(raw(b"R16 "), vk::Format::R16_UNORM.as_raw());
    assert_eq!(raw(b"GR32"), vk::Format::R16G16_UNORM.as_raw());
}

#[test]
fn drm_fourcc_table_covers_xyuv_and_nv12_planes() {
    assert_eq!(raw(b"XYUV"), vk::Format::R8G8B8A8_UNORM.as_raw());
    assert_eq!(raw(b"R8  "), vk::Format::R8_UNORM.as_raw());
    assert_eq!(raw(b"GR88"), vk::Format::R8G8_UNORM.as_raw());
}

#[test]
fn drm_fourcc_table_covers_xv30() {
    assert_eq!(raw(b"XV30"), vk::Format::A2B10G10R10_UNORM_PACK32.as_raw());
}

#[test]
fn drm_fourcc_table_still_handles_existing_8_bit_inputs() {
    assert_eq!(raw(b"AR24"), vk::Format::B8G8R8A8_UNORM.as_raw());
    assert_eq!(raw(b"XR24"), vk::Format::B8G8R8A8_UNORM.as_raw());
}

#[test]
fn drm_fourcc_table_rejects_unknown_codes() {
    assert!(matches!(
        drm_fourcc_to_vk_format(0xDEADBEEFu32),
        Err(ModifierQueryError::UnsupportedFourcc(0xDEADBEEF))
    ));
}

#[test]
fn modifiers_are_offered_where_the_driver_supports_the_use() {
    let listed = || {
        ModifierProbe::Listed(vec![
            ModifierProperties { modifier: 0, tiling_features: FORMAT_FEATURE_SAMPLED_IMAGE },
            ModifierProperties { modifier: 7, tiling_features: FORMAT_FEATURE_STORAGE_IMAGE },
            ModifierProperties { modifier: 9, tiling_features: 0x3 },
            ModifierProperties { modifier: 11, tiling_features: 0x4 },
        ])
    };
    let r16 = u32::from_le_bytes(*b"R16 ");
    assert_eq!(importable_dmabuf_modifiers(r16, listed()).unwrap(), vec![0, 9]);
    let storable = storable_dmabuf_modifiers(r16, listed()).unwrap();
    assert_eq!(storable, vec![7, 9]);
    assert!(lists_modifier(&storable, 9));
    assert!(!lists_modifier(&storable, 0));
    assert_eq!(FORMAT_FEATURE_SAMPLED_IMAGE, vk::FormatFeatureFlags::SAMPLED_IMAGE.as_raw());
    assert_eq!(FORMAT_FEATURE_STORAGE_IMAGE, vk::FormatFeatureFlags::STORAGE_IMAGE.as_raw());
}

#[test]
fn modifier_queries_fail_for_a_reason() {
    let r8 = u32::from_le_bytes(*b"R8  ");
    assert!(matches!(
        importable_dmabuf_modifiers(r8, ModifierProbe::NoAdapter),
        Err(ModifierQueryError::NoAdapter)
    ));
    assert!(matches!(
        importable_dmabuf_modifiers(r8, ModifierProbe::MissingFeatures),
        Err(ModifierQueryError::FeatureUnsupported)
    ));
    assert!(matches!(
        storable_dmabuf_modifiers(r8, ModifierProbe::NotVulkan),
        Err(ModifierQueryError::NotVulkan)
    ));
    assert!(matches!(
        storable_dmabuf_modifiers(r8, ModifierProbe::DeviceFailed("lost".to_string())),
        Err(ModifierQueryError::Device(why)) if why == "lost"
    ));
}

#[test]
fn formats_are_those_of_vulkan() {
    let pairs = [
        (TextureFormat::R8Unorm, vk::Format::R8_UNORM),
        (TextureFormat::Rg8Unorm, vk::Format::R8G8_UNORM),
        (TextureFormat::R16Unorm, vk::Format::R16_UNORM),
        (TextureFormat::Rg16Unorm, vk::Format::R16G16_UNORM),
        (TextureFormat::Bgra8Unorm, vk::Format::B8G8R8A8_UNORM),
    ];
    for (ours, theirs) in pairs {
        assert_eq!(wgpu_format_to_vk(ours).map(|f| f.raw()), Some(theirs.as_raw()), "{ours:?}");
    }
    assert_eq!(wgpu_format_to_vk(TextureFormat::Other), None);
}

#[test]
fn usages_are_those_of_vulkan() {
    let all = TextureUsages {
        copy_src: true,
        copy_dst: true,
        texture_binding: true,
        storage_binding: true,
        render_attachment: true,
    };
    let flags = vk::ImageUsageFlags::TRANSFER_SRC
        | vk::ImageUsageFlags::TRANSFER_DST
        | vk::ImageUsageFlags::SAMPLED
        | vk::ImageUsageFlags::STORAGE
        | vk::ImageUsageFlags::COLOR_ATTACHMENT;
    assert_eq!(wgpu_usage_to_vk(all), flags.as_raw());
    assert_eq!(
        wgpu_usage_to_vk(STORAGE),
        (vk::ImageUsageFlags::TRANSFER_SRC | vk::ImageUsageFlags::STORAGE).as_raw()
    );
    assert_eq!(
        wgpu_usage_to_hal_uses(STORAGE),
        TextureUses {
            copy_src: true,
            copy_dst: false,
            resource: false,
            storage_read_write: true,
            color_target: false,
        }
    );
}

#[test]
fn memory_is_planned_by_alignment() {
    assert_eq!(align_up(0, 256), 0);
    assert_eq!(align_up(1, 256), 256);
    assert_eq!(align_up(256, 256), 256);
    assert_eq!(next_multiple_of(1921, 64), 1984);
    assert_eq!(div_ceil(7, 2), 4);
    let reqs = [
        MemoryRequirements { size: 100, alignment: 64, type_bits: 0b110 },
        MemoryRequirements { size: 10, alignment: 256, type_bits: 0b011 },
        MemoryRequirements { size: 1, alignment: 16, type_bits: 0b111 },
    ];
    assert!(requirements_fit(&reqs));
    let plan = plan_memory(&reqs, 1);
    assert_eq!(plan.offsets, vec![0, 256, 512]);
    assert_eq!(plan.type_index, 1);
    assert_eq!(plan.total_size, 513);
}

#[test]
fn device_local_memory_is_preferred() {
    let types = [0, MEMORY_PROPERTY_DEVICE_LOCAL, 0];
    assert_eq!(find_memory_type(&types, 0b111, MEMORY_PROPERTY_DEVICE_LOCAL), Some(1));
    assert_eq!(find_memory_type(&types, 0b101, MEMORY_PROPERTY_DEVICE_LOCAL), None);
    assert_eq!(select_memory_type(&types, 0b111), Some(1));
    assert_eq!(select_memory_type(&types, 0b100), Some(2));
    assert_eq!(select_memory_type(&types, 0), None);
}

/// Drive an export against a driver that answers with the given requirements, layouts and
/// modifier. The call with the number `fail_at` fails.
fn drive(
    machine: ExportMachine,
    reqs: &[MemoryRequirements],
    fail_at: usize,
) -> (Vec<Step>, Result<ExportedPlanes, ExportError>) {
    let mut machine = machine;
    let mut steps = Vec::new();
    loop {
        let step = machine.next_step();
        if step == Step::Stop {
            return (steps, machine.finish());
        }
        steps.push(step);
        let can_fail = !matches!(
            step,
            Step::QueryRequirements { .. }
                | Step::QueryMemoryTypes
                | Step::QueryLayout { .. }
                | Step::Import
                | Step::Release(_)
        );
        let reply = if can_fail && steps.len() == fail_at {
            Reply::Failed(-1000)
        } else {
            match step {
                Step::QueryRequirements { plane } => Reply::Requirements(reqs[plane]),
                Step::QueryMemoryTypes => Reply::MemoryTypes(vec![MEMORY_PROPERTY_DEVICE_LOCAL]),
                Step::QueryModifier { .. } => Reply::Modifier(42),
                Step::QueryLayout { plane } => Reply::Layout(PlaneLayout {
                    offset: 0,
                    row_pitch: 1984 + plane as u64,
                }),
                _ => Reply::Done,
            }
        };
        machine.advance(reply);
    }
}

fn two_planes() -> [MemoryRequirements; 2] {
    [
        MemoryRequirements { size: 2_000_000, alignment: 4096, type_bits: 1 },
        MemoryRequirements { size: 1_000_000, alignment: 4096, type_bits: 1 },
    ]
}

#[test]
fn an_nv12_export_lays_out_both_planes() {
    let machine = match export_nv12_shared_dmabuf(READY, 1921, 1081, STORAGE) {
        Ok(m) => m,
        Err(e) => panic!("{e:?}"),
    };
    let (steps, end) = drive(machine, &two_planes(), 0);
    assert_eq!(
        steps[0],
        Step::CreateImage {
            plane: 0,
            image: PlaneSpec {
                format: VkFormat::R8Unorm,
                texture_format: TextureFormat::R8Unorm,
                width: 1984,
                height: 1081,
            },
            usage: wgpu_usage_to_vk(STORAGE),
        }
    );
    assert_eq!(
        steps[1],
        Step::CreateImage {
            plane: 1,
            image: PlaneSpec {
                format: VkFormat::R8G8Unorm,
                texture_format: TextureFormat::Rg8Unorm,
                width: 992,
                height: 541,
            },
            usage: wgpu_usage_to_vk(STORAGE),
        }
    );
    assert!(!steps.iter().any(|s| matches!(s, Step::Release(_))));
    let planes = match end {
        Ok(p) => p,
        Err(e) => panic!("{e:?}"),
    };
    let export = SharedNv12Export::from_planes(&planes);
    assert_eq!(export.modifier, 42);
    assert_eq!((export.y_offset, export.y_pitch), (0, 1984));
    assert_eq!((export.uv_offset, export.uv_pitch), (2_002_944, 1985));
    assert_eq!(export.size, 3_002_944);
}

#[test]
fn a_failed_export_gives_everything_back() {
    let mut failures = 0;
    for fail_at in 1..20 {
        let machine = match export_nv12_shared_dmabuf(READY, 640, 480, STORAGE) {
            Ok(m) => m,
            Err(e) => panic!("{e:?}"),
        };
        let (steps, end) = drive(machine, &two_planes(), fail_at);
        if end.is_ok() {
            continue;
        }
        failures += 1;
        assert!(matches!(end, Err(ExportError::Vk(-1000, _))));
        let mut held: Vec<Resource> = Vec::new();
        for (i, step) in steps.iter().enumerate() {
            if i + 1 == fail_at {
                continue;
            }
            match step {
                Step::CreateImage { plane, .. } => held.push(Resource::Image(*plane)),
                Step::AllocateMemory { .. } => held.push(Resource::Memory),
                Step::Release(r) => assert_eq!(held.pop(), Some(*r)),
                _ => {}
            }
        }
        assert!(held.is_empty(), "failure at {fail_at} leaks {held:?}");
    }
    assert!(failures >= 5);
}

#[test]
fn an_export_without_memory_fails() {
    let machine = match export_texture_as_dmabuf(READY, 64, 64, TextureFormat::R8Unorm, STORAGE) {
        Ok(m) => m,
        Err(e) => panic!("{e:?}"),
    };
    let reqs = [MemoryRequirements { size: 4096, alignment: 4096, type_bits: 0b10 }];
    let (steps, end) = drive(machine, &reqs, 0);
    assert!(matches!(end, Err(ExportError::NoMemoryType)));
    assert_eq!(steps.last(), Some(&Step::Release(Resource::Image(0))));
}

#[test]
fn a_texture_export_is_dedicated() {
    let machine = match export_texture_as_dmabuf(READY, 64, 32, TextureFormat::R8Unorm, STORAGE) {
        Ok(m) => m,
        Err(e) => panic!("{e:?}"),
    };
    let reqs = [MemoryRequirements { size: 4096, alignment: 4096, type_bits: 1 }];
    let (steps, end) = drive(machine, &reqs, 0);
    assert!(steps.contains(&Step::AllocateMemory { size: 4096, type_index: 0, dedicated: true }));
    let export = DmaBufExport::from_planes(&end.unwrap_or_else(|e| panic!("{e:?}")));
    assert_eq!(
        export,
        DmaBufExport { drm_format_modifier: 42, stride: 1984, offset: 0, size: 4096 }
    );
}

#[test]
fn exports_are_gated_by_the_device() {
    let no_feature = DeviceGate { dma_buf: false, vulkan: true };
    let no_vulkan = DeviceGate { dma_buf: true, vulkan: false };
    let exports = [
        export_nv12_shared_dmabuf,
        export_p010_shared_dmabuf,
        export_xv30_shared_dmabuf,
        export_yuv444_shared_dmabuf,
        export_yuv444p_shared_dmabuf,
    ];
    for export in exports {
        assert!(matches!(
            export(no_feature, 64, 64, STORAGE),
            Err(ExportError::FeatureUnsupported)
        ));
        assert!(matches!(export(no_vulkan, 64, 64, STORAGE), Err(ExportError::NotVulkan)));
        assert!(export(READY, 64, 64, STORAGE).is_ok());
    }
    assert!(matches!(
        export_texture_as_dmabuf(READY, 64, 64, TextureFormat::Other, STORAGE),
        Err(ExportError::UnsupportedFormat(TextureFormat::Other))
    ));
}

#[test]
fn surfaces_are_padded_for_their_encoder() {
    let first = |m: Result<ExportMachine, ExportError>| match m {
        Ok(m) => match m.next_step() {
            Step::CreateImage { image, .. } => (image.format, image.width, image.height),
            other => panic!("{other:?}"),
        },
        Err(e) => panic!("{e:?}"),
    };
    assert_eq!(
        first(export_p010_shared_dmabuf(READY, 1921, 1081, STORAGE)),
        (VkFormat::R16Unorm, 1952, 1088)
    );
    assert_eq!(
        first(export_xv30_shared_dmabuf(READY, 1921, 1081, STORAGE)),
        (VkFormat::A2B10G10R10UnormPack32, 1952, 1088)
    );
    assert_eq!(
        first(export_yuv444_shared_dmabuf(READY, 1921, 1081, STORAGE)),
        (VkFormat::R8G8B8A8Unorm, 1936, 1081)
    );
    assert_eq!(
        first(export_yuv444p_shared_dmabuf(READY, 1921, 1081, STORAGE)),
        (VkFormat::R8Unorm, 1984, 1088)
    );
}

#[test]
fn readback_rows_lose_their_padding() {
    assert_eq!(padded_row(1), 256);
    assert_eq!(padded_row(256), 256);
    assert_eq!(padded_row(257), 512);
    assert_eq!(padded_copy_row(1920), 2048);
    let mapped = [1, 2, 3, 0, 4, 5, 6, 0];
    assert_eq!(strip_row_padding(&mapped, 3, 2, 4), vec![1, 2, 3, 4, 5, 6]);
}

#[test]
fn conversions_to_ordinary_memory() {
    assert!(matches!(
        Bgra2Nv12::new(0, 4, DeviceProbe::Ready),
        Err(ConvertError::InvalidDims { width: 0, height: 4 })
    ));
    assert!(matches!(
        Bgra2Nv12::new(4, 4, DeviceProbe::NoAdapter),
        Err(ConvertError::NoAdapter)
    ));
    assert!(matches!(
        Bgra2Nv12::new(4, 4, DeviceProbe::MissingFeatures),
        Err(ConvertError::FeatureUnsupported)
    ));
    assert!(matches!(
        Bgra2Nv12::new(4, 4, DeviceProbe::DeviceFailed("gone".to_string())),
        Err(ConvertError::Device(why)) if why == "gone"
    ));
    let c = match Bgra2Nv12::new(3, 3, DeviceProbe::Ready) {
        Ok(c) => c,
        Err(e) => panic!("{e:?}"),
    };
    assert!(c.check_input(&[0; 36]).is_ok());
    assert!(matches!(
        c.check_input(&[0; 35]),
        Err(ConvertError::InputSize { got: 35, expected: 36 })
    ));
    assert_eq!((c.y_padded_row(), c.uv_padded_row()), (256, 256));
    assert_eq!(c.dispatch(), Dispatch { groups_x: 1, groups_y: 1 });
    let mut y = vec![0u8; 768];
    y[0] = 10;
    y[256] = 20;
    y[514] = 30;
    let mut uv = vec![0u8; 512];
    uv[3] = 40;
    uv[256] = 50;
    let planes = c.planes(&y, &uv);
    assert_eq!(planes.y, vec![10, 0, 0, 20, 0, 0, 0, 0, 30]);
    assert_eq!(planes.uv, vec![0, 0, 0, 40, 50, 0, 0, 0]);
    assert_eq!(planes.chroma_dims(), (2, 2));
    let odd = Nv12Planes { width: 5, height: 4, y: vec![], uv: vec![] };
    assert_eq!(odd.chroma_dims(), (3, 2));
}

#[test]
fn workgroups_cover_the_frame() {
    assert_eq!(dispatch_texels(16, 17), Dispatch { groups_x: 2, groups_y: 3 });
    assert_eq!(dispatch_chroma(1920, 1080), Dispatch { groups_x: 120, groups_y: 68 });
}

#[test]
fn converters_check_adapter_and_source() {
    let all = AdapterFeatures { dma_buf: true, adapter_formats: true, norm16: true };
    let none = AdapterFeatures { dma_buf: false, adapter_formats: true, norm16: true };
    assert!(matches!(Nv12DmaBuf::check_adapter(None), Err(Nv12DmaBufError::NoAdapter)));
    assert!(matches!(
        Nv12DmaBuf::check_adapter(Some(none)),
        Err(Nv12DmaBufError::FeatureUnsupported)
    ));
    assert!(Nv12DmaBuf::check_adapter(Some(all)).is_ok());
    assert!(matches!(
        Yuv444DmaBuf::check_adapter(None),
        Err(Yuv444DmaBufError::NoAdapter)
    ));
    assert!(matches!(
        Yuv444pDmaBuf::check_adapter(None),
        Err(Yuv444pDmaBufError::NoAdapter)
    ));
    assert!(matches!(Bgra2Xv30DmaBuf::check_adapter(None), Err(Xv30DmaBufError::NoAdapter)));
    assert!(matches!(
        Bgra2P010DmaBuf::check_adapter(Some(AdapterFeatures { norm16: false, ..all })),
        Err(P010DmaBufError::FeatureUnsupported)
    ));
    assert!(Bgra2P010DmaBuf::check_luma_storage(&vec![0]).is_ok());
    assert!(Bgra2P010DmaBuf::check_chroma_storage(&vec![3]).is_err());
    assert!(Bgra2Xv30DmaBuf::check_storage(&vec![]).is_err());

    let export = SharedNv12Export {
        size: 100,
        modifier: 1,
        y_offset: 2,
        y_pitch: 3,
        uv_offset: 4,
        uv_pitch: 5,
    };
    let conv = Nv12DmaBuf::new(64, 32, export);
    assert_eq!((conv.width(), conv.height()), (64, 32));
    let src = SourceTexture { format: TextureFormat::Bgra8Unorm, width: 64, height: 32 };
    assert!(matches!(conv.convert(src), Ok(Dispatch { groups_x: 4, groups_y: 2 })));
    assert!(matches!(
        conv.convert(SourceTexture { width: 63, ..src }),
        Err(Nv12DmaBufError::DimMismatch { input_w: 63, input_h: 32, w: 64, h: 32 })
    ));
    assert!(matches!(
        conv.convert(SourceTexture { format: TextureFormat::R8Unorm, ..src }),
        Err(Nv12DmaBufError::InputFormat(TextureFormat::R8Unorm))
    ));
    let frame = conv.frame();
    assert_eq!((frame.width, frame.height, frame.size, frame.modifier), (64, 32, 100, 1));
    assert_eq!((frame.y_offset, frame.y_stride, frame.uv_offset, frame.uv_stride), (2, 3, 4, 5));
}

#[test]
fn converters_take_frames_from_ordinary_memory() {
    let p010 = Bgra2P010DmaBuf::new(
        16,
        16,
        SharedP010Export { size: 1, modifier: 0, y_offset: 0, y_pitch: 64, uv_offset: 1, uv_pitch: 64 },
    );
    assert!(matches!(
        p010.convert_bgra_bytes(&[0; 1024]),
        Ok(Dispatch { groups_x: 1, groups_y: 1 })
    ));
    assert!(matches!(
        p010.convert_bgra_bytes(&[0; 3]),
        Err(P010DmaBufError::ByteLenMismatch { got: 3, expected: 1024, w: 16, h: 16 })
    ));
    let xv30 = Bgra2Xv30DmaBuf::new(
        16,
        16,
        SharedXv30Export { size: 1, modifier: 0, offset: 9, pitch: 128 },
    );
    assert!(matches!(
        xv30.convert_bgra_bytes(&[0; 1024]),
        Ok(Dispatch { groups_x: 2, groups_y: 2 })
    ));
    assert_eq!((xv30.frame().offset, xv30.frame().stride), (9, 128));
    let planar = SharedYuv444pExport {
        size: 9,
        modifier: 0,
        y_offset: 0,
        y_pitch: 64,
        u_offset: 1,
        u_pitch: 65,
        v_offset: 2,
        v_pitch: 66,
    };
    let yuv = Yuv444DmaBuf::new(16, 16, planar);
    let rgba = SourceTexture { format: TextureFormat::Rgba8Unorm, width: 16, height: 16 };
    assert!(matches!(
        yuv.convert(rgba),
        Err(Yuv444DmaBufError::InputFormat(TextureFormat::Rgba8Unorm))
    ));
    assert_eq!((yuv.frame().u_offset, yuv.frame().v_stride), (1, 66));
    let yuvp = Yuv444pDmaBuf::new(16, 16, planar);
    assert!(matches!(yuvp.convert(rgba), Ok(Dispatch { groups_x: 2, groups_y: 2 })));
    assert!(yuvp.convert_bgra_bytes(&[]).is_err());
    assert_eq!(yuvp.frame().v_offset, 2);
}

#[test]
fn ten_bit_fourccs_route_through_dedicated_guard() {
    for &fcc in &[X420_FOURCC, XF20_FOURCC] {
        let (_chroma, bd) =
            chroma_bit_depth_for_fourcc(fcc).expect("10-bit fourcc must be in the table");
        assert_eq!(
            bd, 10,
            "fourcc 0x{fcc:08x} must report bit_depth=10 so the constructor's \
             `if bit_depth == 10` guard fires"
        );
    }
}

#[test]
fn chroma_offset_matches_cosited_formula() {
    let cases = [
        ((640u32, 480u32), (640, 480), 0.0),
        ((1920, 1080), (960, 540), -0.5),
        ((3840, 2160), (960, 540), -1.5),
        ((1920, 1080), (1280, 720), -0.25),
    ];
    for (src, dst, expected) in cases {
        let offset = cosited_chroma_offset(src.0, dst.0);
        let computed_x = offset.numerator as f32 / offset.denominator as f32;
        assert!(
            (computed_x - expected).abs() < 1e-6,
            "src={src:?} dst={dst:?}: expected x-offset {expected}, got {computed_x}"
        );
        let scale_x = src.0 as f32 / dst.0 as f32;
        assert!((computed_x - -(scale_x - 1.0) * 0.5).abs() < 1e-6);
    }
}

#[test]
fn nv12_fourccs_round_trip_across_tables() {
    assert_eq!(
        nv12_bytes_per_element(NV12_VIDEO_RANGE_FOURCC),
        (1, 2),
        "bridge plane-bytes-per-element wrong for 8-bit 4:2:0"
    );
    let (chroma, bd) = chroma_bit_depth_for_fourcc(NV12_VIDEO_RANGE_FOURCC).expect("known fourcc");
    assert_eq!(chroma, ChromaSubsampling::Yuv420);
    assert_eq!(bd, 8);
    assert!(
        chroma_bit_depth_for_fourcc(NV12_FULL_RANGE_FOURCC).is_some(),
        "full-range '420f' must stay identifiable in chroma_bit_depth_for_fourcc \
         for diagnostic logging when a session can't proceed"
    );
    assert_eq!(
        nv12_bytes_per_element(X420_FOURCC),
        (2, 4),
        "bridge plane-bytes-per-element wrong for 10-bit 4:2:0"
    );
    assert!(
        chroma_bit_depth_for_fourcc(XF20_FOURCC).is_some(),
        "full-range 'xf20' must stay identifiable in chroma_bit_depth_for_fourcc \
         for diagnostic logging"
    );
    // A code that the renderer takes and the encoder does not gives no bridge.
    let decode_only = FourccSupport { renderer: true, encoder: false };
    let refused =
        Nv12IOSurfaceBridge::new((1920, 1080), (1280, 720), P010_FOURCC, decode_only, true).err();
    assert_eq!(
        refused,
        Some(BridgeError::UnsupportedFourcc {
            chroma: ChromaSubsampling::Yuv420,
            bit_depth: 10,
            fourcc: P010_FOURCC,
        })
    );
}

#[test]
fn plane_scalers_follow_the_bridge() {
    let all = FourccSupport { renderer: true, encoder: true };
    let bridge = |fourcc| {
        Nv12IOSurfaceBridge::new((3840, 2161), (1920, 1081), fourcc, all, true)
            .unwrap_or_else(|e| panic!("refused: {e:?}"))
    };
    let (luma, chroma) = bridge(NV12_VIDEO_RANGE_FOURCC).plane_scalers();
    assert_eq!((luma.src_dims, luma.dst_dims), ((3840, 2161), (1920, 1081)));
    assert_eq!((chroma.src_dims, chroma.dst_dims), ((1920, 1080), (960, 540)));
    assert!(!luma.sixteen_bit && !chroma.sixteen_bit);
    assert_eq!(luma.chroma_offset, None);
    let offset = chroma.chroma_offset.expect("chroma is corrected");
    assert_eq!(offset.numerator as f64 / offset.denominator as f64, -0.5);
    let (luma, chroma) = bridge(X420_FOURCC).plane_scalers();
    assert!(luma.sixteen_bit && chroma.sixteen_bit);
}

#[test]
fn surface_codes_have_families_and_plane_formats() {
    assert_eq!(
        chroma_bit_depth_for_fourcc(NV12_VIDEO_RANGE_FOURCC),
        Some((ChromaSubsampling::Yuv420, 8))
    );
    assert!(chroma_bit_depth_for_fourcc(NV12_FULL_RANGE_FOURCC).is_some());
    assert!(chroma_bit_depth_for_fourcc(XF20_FOURCC).is_some());
    assert_eq!(chroma_bit_depth_for_fourcc(BGRA_FOURCC), None);
    assert_eq!(nv12_bytes_per_element(NV12_VIDEO_RANGE_FOURCC), (1, 2));
    assert_eq!(nv12_bytes_per_element(X420_FOURCC), (2, 4));
    assert_eq!(plane_wgpu_formats(P010_FOURCC).1.metal, MetalFormat::Rg16Unorm);
    assert_eq!(plane_wgpu_formats(X444_FOURCC).0.wgpu, TextureFormat::R8Unorm);
    assert_eq!(bgra_to_420_function(X420_FOURCC), Ok("bgra_to_x420"));
    assert_eq!(bgra_to_420_function(NV12_VIDEO_RANGE_FOURCC), Ok("bgra_to_420v"));
    assert_eq!(
        bgra_to_420_function(X444_FOURCC),
        Err(BridgeError::UnknownFourcc { fourcc: X444_FOURCC })
    );
    let (luma, chroma) = surface_planes(1920, 1080, X420_FOURCC);
    assert_eq!((luma.width, luma.height, luma.bytes_per_element), (1920, 1080, 2));
    assert_eq!((chroma.width, chroma.height, chroma.bytes_per_element), (960, 540, 4));
}

#[test]
fn bridge_devices_need_adapter_formats() {
    let adapter = AdapterFeatures { dma_buf: false, adapter_formats: true, norm16: false };
    assert_eq!(bridge_device_capabilities(adapter).map(|c| c.supports_10bit), Some(false));
    let adapter = AdapterFeatures { norm16: true, ..adapter };
    assert_eq!(bridge_device_capabilities(adapter).map(|c| c.supports_10bit), Some(true));
    let adapter = AdapterFeatures { adapter_formats: false, ..adapter };
    assert!(bridge_device_capabilities(adapter).is_none());
}

#[test]
fn pool_slots_are_reused_after_release() {
    let mut pool = IOSurfacePool::new(2);
    assert_eq!(pool.depth(), 2);
    assert_eq!(pool.acquire(), Some(0));
    assert_eq!(pool.acquire(), Some(1));
    assert_eq!(pool.acquire(), None);
    pool.release(7);
    pool.release(0);
    assert_eq!(pool.acquire(), Some(0));
    assert!(pool.seed_attachments(0));
    assert!(!pool.seed_attachments(0));
    pool.release(0);
    assert!(!pool.seed_attachments(0));
}

#[test]
fn plane_bridges_refuse_what_they_cannot_do() {
    let make = |src, dst, fourcc, support, norm16| {
        Nv12IOSurfaceBridge::new(src, dst, fourcc, support, norm16).err()
    };
    let (big, small) = ((1920, 1080), (960, 540));
    let nv12 = NV12_VIDEO_RANGE_FOURCC;
    assert_eq!(
        make((0, 1), small, nv12, BOTH, true),
        Some(BridgeError::ZeroDim { src: (0, 1), dst: small })
    );
    assert_eq!(make(big, big, nv12, BOTH, true), Some(BridgeError::NoScaleNeeded { dims: big }));
    assert_eq!(make(big, small, 1, BOTH, true), Some(BridgeError::UnknownFourcc { fourcc: 1 }));
    assert_eq!(
        make(big, small, P010_FOURCC, FourccSupport { renderer: true, encoder: false }, true),
        Some(BridgeError::UnsupportedFourcc {
            chroma: ChromaSubsampling::Yuv420,
            bit_depth: 10,
            fourcc: P010_FOURCC,
        })
    );
    assert_eq!(
        make(big, small, X420_FOURCC, BOTH, false),
        Some(BridgeError::TenBitStorageUnsupported { fourcc: X420_FOURCC })
    );
    assert_eq!(make(big, small, X420_FOURCC, BOTH, true), None);
}

#[test]
fn plane_bridges_hand_out_surfaces_until_the_pool_is_empty() {
    let mut bridge = match Nv12IOSurfaceBridge::with_pool_depth(
        (1920, 1080),
        (960, 540),
        NV12_VIDEO_RANGE_FOURCC,
        BOTH,
        false,
        1,
    ) {
        Ok(b) => b,
        Err(e) => panic!("{e:?}"),
    };
    assert_eq!((bridge.src_dims(), bridge.dst_dims()), ((1920, 1080), (960, 540)));
    let first = bridge.scale_to_iosurface().expect("a free slot");
    assert_eq!(first.frame.pixel_format, NV12_VIDEO_RANGE_FOURCC);
    assert_eq!((first.frame.width, first.frame.height), (960, 540));
    assert_eq!(bridge.scale_to_iosurface(), Err(BridgeError::PoolExhausted { depth: 1 }));
    bridge.release(first.slot_idx);
    assert!(bridge.seed_attachments(first.slot_idx));
    assert_eq!(bridge.scale_to_iosurface().map(|p| p.slot_idx), Ok(0));
    let offset = bridge.chroma_offset();
    assert_eq!((offset.numerator, offset.denominator), (-960, 1920));
}

#[test]
fn bgra_bridges_check_every_source() {
    let dims = (640, 480);
    let mut bridge =
        match BgraIOSurfaceBridge::new(dims, dims, NV12_VIDEO_RANGE_FOURCC, BOTH, false) {
            Ok(b) => b,
            Err(e) => panic!("{e:?}"),
        };
    assert!(!bridge.needs_resize());
    assert_eq!(bridge.dispatch(), Dispatch { groups_x: 40, groups_y: 30 });
    let good = IOSurfaceFrame { pixel_format: BGRA_FOURCC, width: 640, height: 480 };
    assert_eq!(
        bridge.convert_to_iosurface(IOSurfaceFrame { pixel_format: 5, ..good }),
        Err(BridgeError::SourceNotBgra { fourcc: 5 })
    );
    assert_eq!(
        bridge.convert_to_iosurface(IOSurfaceFrame { width: 641, ..good }),
        Err(BridgeError::InputDimMismatch { width: 640, height: 480, input_w: 641, input_h: 480 })
    );
    for slot in 0..4 {
        assert_eq!(bridge.convert_to_iosurface(good).map(|p| p.slot_idx), Ok(slot));
    }
    assert_eq!(bridge.convert_to_iosurface(good), Err(BridgeError::PoolExhausted { depth: 4 }));
    bridge.release(2);
    assert_eq!(bridge.convert_to_iosurface(good).map(|p| p.slot_idx), Ok(2));
    assert_eq!(
        BgraIOSurfaceBridge::new(dims, dims, X444_FOURCC, BOTH, true).err(),
        Some(BridgeError::UnsupportedFourcc {
            chroma: ChromaSubsampling::Yuv444,
            bit_depth: 10,
            fourcc: X444_FOURCC,
        })
    );
}

#[test]
fn dump_names_are_fit_for_files() {
    assert_eq!(fourcc_label(NV12_VIDEO_RANGE_FOURCC), "420v");
    assert_eq!(fourcc_label(0x0000_00ff), "0x000000ff");
    assert_eq!(sanitize_filename_part("a b/c\u{e9}_1.png"), "a-bc_1.png");
    let mut dump = BridgeFrameDump::from_env(true, Some("my run!".to_string())).expect("set");
    assert!(dump.maybe_dump());
    assert!(!dump.maybe_dump());
    assert_eq!(
        dump.file_name(960, 540, NV12_VIDEO_RANGE_FOURCC, 7),
        "bgra-bridge-my-run-960x540-420v-pid7.png"
    );
    let plain = BridgeFrameDump::from_env(true, Some("!!".to_string())).expect("set");
    assert_eq!(
        plain.file_name(1, 2, X420_FOURCC, 3),
        "bgra-bridge-frame-1x2-x420-pid3.png"
    );
    assert!(BridgeFrameDump::from_env(false, None).is_none());
}

#[test]
fn dumped_samples_are_found_in_their_planes() {
    let y = [16, 17, 18, 19];
    let uv = [100, 200];
    let sample = |y: u32| YuvSample { y, cb: 100, cr: 200 };
    assert_eq!(
        yuv420_samples(2, 2, NV12_VIDEO_RANGE_FOURCC, &y, &uv),
        Ok(vec![sample(16), sample(17), sample(18), sample(19)])
    );
    let ten = [0x40, 0x00, 0x80, 0x00, 0xc0, 0x00, 0x00, 0x01];
    let ten_uv = [0x00, 0x80, 0xc0, 0xff];
    assert_eq!(
        yuv420_samples(2, 2, X420_FOURCC, &ten, &ten_uv),
        Ok((1..5).map(|y| YuvSample { y, cb: 512, cr: 1023 }).collect())
    );
    let missing = |y: &[u8], uv: &[u8]| {
        yuv420_samples(2, 2, NV12_VIDEO_RANGE_FOURCC, y, uv).unwrap_err()
    };
    assert_eq!(missing(&[1, 2, 3], &uv), "Y byte out of range");
    assert_eq!(missing(&y, &[]), "Cb byte out of range");
    assert_eq!(missing(&y, &[1]), "Cr byte out of range");
    assert_eq!(
        yuv420_samples(2, 2, X420_FOURCC, &ten, &[0; 3]).unwrap_err(),
        "16-bit sample out of range"
    );
    assert_eq!(
        yuv420_samples(2, 2, 1, &y, &uv).unwrap_err(),
        "unsupported bridge dump fourcc"
    );
    assert_eq!(read_le_u16(&[1, 2, 3], 1), Ok(0x0302));
    assert_eq!(read_le_u16(&[1, 2, 3], 2), Err("16-bit sample out of range".to_string()));
    assert!(is_full_range(XF20_FOURCC) && !is_full_range(X420_FOURCC));
    assert_eq!(pack_rgba(&vec![[1, 2, 3], [4, 5, 6]]), vec![1, 2, 3, 255, 4, 5, 6, 255]);
}

#[test]
fn dump_geometry_pads_rows() {
    let g = dump_geometry(1920, 1080, X420_FOURCC).unwrap();
    assert_eq!((g.chroma_w, g.chroma_h), (960, 540));
    assert_eq!((g.y_tight_row, g.uv_tight_row), (3840, 3840));
    assert_eq!((g.y_padded_row, g.uv_padded_row), (3840, 3840));
    let g = dump_geometry(100, 50, NV12_VIDEO_RANGE_FOURCC).unwrap();
    assert_eq!((g.y_padded_row, g.uv_padded_row), (256, 256));
    assert_eq!(
        dump_geometry(u32::MAX, 1, X420_FOURCC).unwrap_err(),
        "Y row byte count overflow"
    );
    assert_eq!(dump_geometry(1, 1, 0).unwrap_err(), "unsupported bridge dump fourcc");
}
