//! BGRA frames to DMA-BUF surfaces for an encoder.
//!
//! Each converter owns one exported surface and writes every frame into it. The pass itself runs
//! on the GPU; this module decides which adapters and source textures a converter takes, how much
//! work a frame dispatches, and how the finished frame is described to the encoder.
use vstd::prelude::*;

use crate::convert::{dispatch_chroma, dispatch_texels, Dispatch};
use crate::dmabuf_export::DRM_FORMAT_MOD_LINEAR;
use crate::formats::TextureFormat;
use crate::modifier_query::lists_modifier;
use crate::surfaces::{SharedNv12Export, SharedP010Export, SharedXv30Export, SharedYuv444pExport};

verus! {

/// What an adapter offers of what the converters need.
#[derive(Clone, Copy, Debug, PartialEq, Eq, Structural)]
pub struct AdapterFeatures {
    /// Exporting and importing DMA-BUFs.
    pub dma_buf: bool,
    /// Formats beyond the portable set as storage textures.
    pub adapter_formats: bool,
    /// 16-bit normalised formats.
    pub norm16: bool,
}

/// A texture offered for conversion.
#[derive(Clone, Copy, Debug, PartialEq, Eq, Structural)]
pub struct SourceTexture {
    pub format: TextureFormat,
    pub width: u32,
    pub height: u32,
}

/// A format that the shaders read as red, green and blue: what captures deliver, or what the
/// scaler produces.
pub open spec fn is_rgb_source(f: TextureFormat) -> bool {
    f == TextureFormat::Bgra8Unorm || f == TextureFormat::Rgba8Unorm
}

/// Bytes in a tightly packed BGRA frame.
pub open spec fn frame_bytes(width: u32, height: u32) -> int {
    width * height * 4
}

/// Why an NV12 converter was not made or used.
#[derive(Clone, Copy, Debug)]
pub enum Nv12DmaBufError {
    /// No adapter is available.
    NoAdapter,
    /// The adapter lacks a required feature.
    FeatureUnsupported,
    /// The source texture has a format that the shader does not read.
    InputFormat(TextureFormat),
    /// The source texture has other dimensions than the converter.
    DimMismatch { input_w: u32, input_h: u32, w: u32, h: u32 },
}

/// One NV12 frame: where each plane lies in the DMA-BUF that the encoder is handed.
#[derive(Clone, Copy, Debug, PartialEq, Eq, Structural)]
pub struct Nv12DmaBufFrame {
    pub width: u32,
    pub height: u32,
    pub size: u64,
    pub modifier: u64,
    pub y_offset: u64,
    pub y_stride: u64,
    pub uv_offset: u64,
    pub uv_stride: u64,
}

/// A BGRA to NV12 converter that writes into an exported surface.
pub struct Nv12DmaBuf {
    width: u32,
    height: u32,
    export: SharedNv12Export,
}

impl Nv12DmaBuf {
    /// Width of the frames in pixels.
    pub closed spec fn spec_width(self) -> u32 {
        self.width
    }

    /// Height of the frames in pixels.
    pub closed spec fn spec_height(self) -> u32 {
        self.height
    }

    /// The surface that frames are written to.
    pub closed spec fn export(self) -> SharedNv12Export {
        self.export
    }

    /// Why the converter does not run on an adapter, if it does not.
    pub open spec fn adapter_refusal(adapter: Option<AdapterFeatures>) -> Option<Nv12DmaBufError> {
        match adapter {
            None => Some(Nv12DmaBufError::NoAdapter),
            Some(f) => if f.dma_buf && f.adapter_formats {
                None
            } else {
                Some(Nv12DmaBufError::FeatureUnsupported)
            },
        }
    }

    /// Why a source texture is not converted, if it is not.
    pub open spec fn source_refusal(self, src: SourceTexture) -> Option<Nv12DmaBufError> {
        if !(is_rgb_source(src.format)) {
            Some(Nv12DmaBufError::InputFormat(src.format))
        } else if src.width != self.spec_width() || src.height != self.spec_height() {
            Some(
                Nv12DmaBufError::DimMismatch {
                    input_w: src.width,
                    input_h: src.height,
                    w: self.spec_width(),
                    h: self.spec_height(),
                },
            )
        } else {
            None
        }
    }

    /// How many workgroups convert a frame, in each direction.
    pub open spec fn workgroups(self) -> (int, int) {
        crate::convert::covering(
            crate::convert::chroma_extent(self.spec_width(), self.spec_height()).0,
            crate::convert::chroma_extent(self.spec_width(), self.spec_height()).1,
        )
    }

    /// How a finished frame is described.
    pub open spec fn described(self) -> Nv12DmaBufFrame {
        Nv12DmaBufFrame {
            width: self.spec_width(),
            height: self.spec_height(),
            size: self.export().size,
            modifier: self.export().modifier,
            y_offset: self.export().y_offset,
            y_stride: self.export().y_pitch,
            uv_offset: self.export().uv_offset,
            uv_stride: self.export().uv_pitch,
        }
    }

    /// Can the converter run on this adapter?
    pub fn check_adapter(adapter: Option<AdapterFeatures>) -> (r: Result<(), Nv12DmaBufError>)
        ensures
            r == match adapter {
                None => Err::<(), Nv12DmaBufError>(Nv12DmaBufError::NoAdapter),
                Some(f) => if f.dma_buf && f.adapter_formats {
                    Ok(())
                } else {
                    Err(Nv12DmaBufError::FeatureUnsupported)
                },
            },
            match Self::adapter_refusal(adapter) {
                Some(e) => r == Err::<(), Nv12DmaBufError>(e),
                None => r is Ok,
            },
    {
        match adapter {
            None => Err(Nv12DmaBufError::NoAdapter),
            Some(f) => if f.dma_buf && f.adapter_formats {
                Ok(())
            } else {
                Err(Nv12DmaBufError::FeatureUnsupported)
            },
        }
    }

    /// A converter for `width` x `height` frames that writes into `export`.
    pub fn new(width: u32, height: u32, export: SharedNv12Export) -> (r: Self)
        ensures
            r.spec_width() == width,
            r.spec_height() == height,
            r.export() == export,
    {
        Nv12DmaBuf { width, height, export }
    }

    /// Width of the frames in pixels.
    pub fn width(&self) -> (r: u32)
        ensures
            r == self.spec_width(),
    {
        self.width
    }

    /// Height of the frames in pixels.
    pub fn height(&self) -> (r: u32)
        ensures
            r == self.spec_height(),
    {
        self.height
    }

    /// The work that converts `src`. The pass covers the visible chroma samples only: the padding
    /// of the surface stays unwritten.
    pub fn convert(&self, src: SourceTexture) -> (r: Result<Dispatch, Nv12DmaBufError>)
        ensures
            if !(is_rgb_source(src.format)) {
                r == Err::<Dispatch, Nv12DmaBufError>(Nv12DmaBufError::InputFormat(src.format))
            } else if src.width != self.spec_width() || src.height != self.spec_height() {
                r == Err::<Dispatch, Nv12DmaBufError>(
                    Nv12DmaBufError::DimMismatch {
                        input_w: src.width,
                        input_h: src.height,
                        w: self.spec_width(),
                        h: self.spec_height(),
                    },
                )
            } else {
                r matches Ok(d) && (d.groups_x as int, d.groups_y as int) == crate::convert::covering(
                    crate::convert::chroma_extent(self.spec_width(), self.spec_height()).0,
                    crate::convert::chroma_extent(self.spec_width(), self.spec_height()).1,
                )
            },
            match self.source_refusal(src) {
                Some(e) => r == Err::<Dispatch, Nv12DmaBufError>(e),
                None => r matches Ok(d) && (d.groups_x as int, d.groups_y as int)
                    == self.workgroups(),
            },
    {
        if !matches!(src.format, TextureFormat::Bgra8Unorm | TextureFormat::Rgba8Unorm) {
            return Err(Nv12DmaBufError::InputFormat(src.format));
        }
        if src.width != self.width || src.height != self.height {
            return Err(
                Nv12DmaBufError::DimMismatch {
                    input_w: src.width,
                    input_h: src.height,
                    w: self.width,
                    h: self.height,
                },
            );
        }
        Ok(dispatch_chroma(self.width, self.height))
    }

    /// The finished frame.
    pub fn frame(&self) -> (r: Nv12DmaBufFrame)
        ensures
            r == (Nv12DmaBufFrame {
                width: self.spec_width(),
                height: self.spec_height(),
                size: self.export().size,
                modifier: self.export().modifier,
                y_offset: self.export().y_offset,
                y_stride: self.export().y_pitch,
                uv_offset: self.export().uv_offset,
                uv_stride: self.export().uv_pitch,
            }),
            r == self.described(),
    {
        Nv12DmaBufFrame {
            width: self.width,
            height: self.height,
            size: self.export.size,
            modifier: self.export.modifier,
            y_offset: self.export.y_offset,
            y_stride: self.export.y_pitch,
            uv_offset: self.export.uv_offset,
            uv_stride: self.export.uv_pitch,
        }
    }
}

/// Why a P010 converter was not made or used.
#[derive(Clone, Copy, Debug)]
pub enum P010DmaBufError {
    /// No adapter is available.
    NoAdapter,
    /// The adapter lacks a required feature.
    FeatureUnsupported,
    /// The driver cannot write this plane's format in linear memory.
    StorageUnsupported { plane: &'static str, fourcc: &'static str },
    /// The source texture has a format that the shader does not read.
    InputFormat(TextureFormat),
    /// The source texture has other dimensions than the converter.
    DimMismatch { input_w: u32, input_h: u32, w: u32, h: u32 },
    /// The frame's length is not that of a tightly packed frame.
    ByteLenMismatch { got: usize, expected: usize, w: u32, h: u32 },
}

/// One P010 frame: where each plane lies in the DMA-BUF that the encoder is handed.
#[derive(Clone, Copy, Debug, PartialEq, Eq, Structural)]
pub struct P010DmaBufFrame {
    pub width: u32,
    pub height: u32,
    pub size: u64,
    pub modifier: u64,
    pub y_offset: u64,
    pub y_stride: u64,
    pub uv_offset: u64,
    pub uv_stride: u64,
}

/// A BGRA to P010 converter that writes into an exported surface.
pub struct Bgra2P010DmaBuf {
    width: u32,
    height: u32,
    export: SharedP010Export,
}

impl Bgra2P010DmaBuf {
    /// Width of the frames in pixels.
    pub closed spec fn spec_width(self) -> u32 {
        self.width
    }

    /// Height of the frames in pixels.
    pub closed spec fn spec_height(self) -> u32 {
        self.height
    }

    /// The surface that frames are written to.
    pub closed spec fn export(self) -> SharedP010Export {
        self.export
    }

    /// Why the converter does not run on an adapter, if it does not.
    pub open spec fn adapter_refusal(adapter: Option<AdapterFeatures>) -> Option<P010DmaBufError> {
        match adapter {
            None => Some(P010DmaBufError::NoAdapter),
            Some(f) => if f.dma_buf && f.adapter_formats && f.norm16 {
                None
            } else {
                Some(P010DmaBufError::FeatureUnsupported)
            },
        }
    }

    /// Why a source texture is not converted, if it is not.
    pub open spec fn source_refusal(self, src: SourceTexture) -> Option<P010DmaBufError> {
        if !(is_rgb_source(src.format)) {
            Some(P010DmaBufError::InputFormat(src.format))
        } else if src.width != self.spec_width() || src.height != self.spec_height() {
            Some(
                P010DmaBufError::DimMismatch {
                    input_w: src.width,
                    input_h: src.height,
                    w: self.spec_width(),
                    h: self.spec_height(),
                },
            )
        } else {
            None
        }
    }

    /// How many workgroups convert a frame, in each direction.
    pub open spec fn workgroups(self) -> (int, int) {
        crate::convert::covering(
            crate::convert::chroma_extent(self.spec_width(), self.spec_height()).0,
            crate::convert::chroma_extent(self.spec_width(), self.spec_height()).1,
        )
    }

    /// How a finished frame is described.
    pub open spec fn described(self) -> P010DmaBufFrame {
        P010DmaBufFrame {
            width: self.spec_width(),
            height: self.spec_height(),
            size: self.export().size,
            modifier: self.export().modifier,
            y_offset: self.export().y_offset,
            y_stride: self.export().y_pitch,
            uv_offset: self.export().uv_offset,
            uv_stride: self.export().uv_pitch,
        }
    }

    /// Can the converter run on this adapter?
    pub fn check_adapter(adapter: Option<AdapterFeatures>) -> (r: Result<(), P010DmaBufError>)
        ensures
            r == match adapter {
                None => Err::<(), P010DmaBufError>(P010DmaBufError::NoAdapter),
                Some(f) => if f.dma_buf && f.adapter_formats && f.norm16 {
                    Ok(())
                } else {
                    Err(P010DmaBufError::FeatureUnsupported)
                },
            },
            match Self::adapter_refusal(adapter) {
                Some(e) => r == Err::<(), P010DmaBufError>(e),
                None => r is Ok,
            },
    {
        match adapter {
            None => Err(P010DmaBufError::NoAdapter),
            Some(f) => if f.dma_buf && f.adapter_formats && f.norm16 {
                Ok(())
            } else {
                Err(P010DmaBufError::FeatureUnsupported)
            },
        }
    }

    /// Can the luma plane be written, given the modifiers its format is storable with?
    pub fn check_luma_storage(storable: &Vec<u64>) -> (r: Result<(), P010DmaBufError>)
        ensures
            r == if storable@.contains(DRM_FORMAT_MOD_LINEAR) {
                Ok::<(), P010DmaBufError>(())
            } else {
                Err(P010DmaBufError::StorageUnsupported { plane: "Y", fourcc: "R16" })
            },
    {
        if !lists_modifier(storable, DRM_FORMAT_MOD_LINEAR) {
            return Err(P010DmaBufError::StorageUnsupported { plane: "Y", fourcc: "R16" });
        }
        Ok(())
    }

    /// Can the chroma plane be written, given the modifiers its format is storable with?
    pub fn check_chroma_storage(storable: &Vec<u64>) -> (r: Result<(), P010DmaBufError>)
        ensures
            r == if storable@.contains(DRM_FORMAT_MOD_LINEAR) {
                Ok::<(), P010DmaBufError>(())
            } else {
                Err(P010DmaBufError::StorageUnsupported { plane: "UV", fourcc: "GR32" })
            },
    {
        if !lists_modifier(storable, DRM_FORMAT_MOD_LINEAR) {
            return Err(P010DmaBufError::StorageUnsupported { plane: "UV", fourcc: "GR32" });
        }
        Ok(())
    }

    /// A converter for `width` x `height` frames that writes into `export`.
    pub fn new(width: u32, height: u32, export: SharedP010Export) -> (r: Self)
        ensures
            r.spec_width() == width,
            r.spec_height() == height,
            r.export() == export,
    {
        Bgra2P010DmaBuf { width, height, export }
    }

    /// Width of the frames in pixels.
    pub fn width(&self) -> (r: u32)
        ensures
            r == self.spec_width(),
    {
        self.width
    }

    /// Height of the frames in pixels.
    pub fn height(&self) -> (r: u32)
        ensures
            r == self.spec_height(),
    {
        self.height
    }

    /// The work that converts `src`. The pass covers the visible chroma samples only: the padding
    /// of the surface stays unwritten.
    pub fn convert(&self, src: SourceTexture) -> (r: Result<Dispatch, P010DmaBufError>)
        ensures
            if !(is_rgb_source(src.format)) {
                r == Err::<Dispatch, P010DmaBufError>(P010DmaBufError::InputFormat(src.format))
            } else if src.width != self.spec_width() || src.height != self.spec_height() {
                r == Err::<Dispatch, P010DmaBufError>(
                    P010DmaBufError::DimMismatch {
                        input_w: src.width,
                        input_h: src.height,
                        w: self.spec_width(),
                        h: self.spec_height(),
                    },
                )
            } else {
                r matches Ok(d) && (d.groups_x as int, d.groups_y as int) == crate::convert::covering(
                    crate::convert::chroma_extent(self.spec_width(), self.spec_height()).0,
                    crate::convert::chroma_extent(self.spec_width(), self.spec_height()).1,
                )
            },
            match self.source_refusal(src) {
                Some(e) => r == Err::<Dispatch, P010DmaBufError>(e),
                None => r matches Ok(d) && (d.groups_x as int, d.groups_y as int)
                    == self.workgroups(),
            },
    {
        if !matches!(src.format, TextureFormat::Bgra8Unorm | TextureFormat::Rgba8Unorm) {
            return Err(P010DmaBufError::InputFormat(src.format));
        }
        if src.width != self.width || src.height != self.height {
            return Err(
                P010DmaBufError::DimMismatch {
                    input_w: src.width,
                    input_h: src.height,
                    w: self.width,
                    h: self.height,
                },
            );
        }
        Ok(dispatch_chroma(self.width, self.height))
    }

    /// The work that converts a tightly packed BGRA frame from ordinary memory.
    pub fn convert_bgra_bytes(&self, bgra: &[u8]) -> (r: Result<Dispatch, P010DmaBufError>)
        requires
            frame_bytes(self.spec_width(), self.spec_height()) <= u32::MAX,
        ensures
            if bgra@.len() != frame_bytes(self.spec_width(), self.spec_height()) {
                r == Err::<Dispatch, P010DmaBufError>(
                    P010DmaBufError::ByteLenMismatch {
                        got: bgra@.len() as usize,
                        expected: frame_bytes(self.spec_width(), self.spec_height()) as usize,
                        w: self.spec_width(),
                        h: self.spec_height(),
                    },
                )
            } else {
                r matches Ok(d) && (d.groups_x as int, d.groups_y as int) == crate::convert::covering(
                    crate::convert::chroma_extent(self.spec_width(), self.spec_height()).0,
                    crate::convert::chroma_extent(self.spec_width(), self.spec_height()).1,
                )
            },
    {
        proof {
            assert(0 <= self.width * self.height) by (nonlinear_arith);
        }
        let expected: usize = (self.width * self.height * 4) as usize;
        if bgra.len() != expected {
            return Err(
                P010DmaBufError::ByteLenMismatch {
                    got: bgra.len(),
                    expected,
                    w: self.width,
                    h: self.height,
                },
            );
        }
        self.convert(
            SourceTexture {
                format: TextureFormat::Bgra8Unorm,
                width: self.width,
                height: self.height,
            },
        )
    }

    /// The finished frame.
    pub fn frame(&self) -> (r: P010DmaBufFrame)
        ensures
            r == (P010DmaBufFrame {
                width: self.spec_width(),
                height: self.spec_height(),
                size: self.export().size,
                modifier: self.export().modifier,
                y_offset: self.export().y_offset,
                y_stride: self.export().y_pitch,
                uv_offset: self.export().uv_offset,
                uv_stride: self.export().uv_pitch,
            }),
            r == self.described(),
    {
        P010DmaBufFrame {
            width: self.width,
            height: self.height,
            size: self.export.size,
            modifier: self.export.modifier,
            y_offset: self.export.y_offset,
            y_stride: self.export.y_pitch,
            uv_offset: self.export.uv_offset,
            uv_stride: self.export.uv_pitch,
        }
    }
}

/// Why a packed 10-bit 4:4:4 converter was not made or used.
#[derive(Clone, Copy, Debug)]
pub enum Xv30DmaBufError {
    /// No adapter is available.
    NoAdapter,
    /// The adapter lacks a required feature.
    FeatureUnsupported,
    /// The driver cannot write the packed format in linear memory.
    StorageUnsupported,
    /// The source texture has a format that the shader does not read.
    InputFormat(TextureFormat),
    /// The source texture has other dimensions than the converter.
    DimMismatch { input_w: u32, input_h: u32, w: u32, h: u32 },
    /// The frame's length is not that of a tightly packed frame.
    ByteLenMismatch { got: usize, expected: usize, w: u32, h: u32 },
}

/// One packed 10-bit 4:4:4 frame: where each plane lies in the DMA-BUF that the encoder is handed.
#[derive(Clone, Copy, Debug, PartialEq, Eq, Structural)]
pub struct Xv30DmaBufFrame {
    pub width: u32,
    pub height: u32,
    pub size: u64,
    pub modifier: u64,
    pub offset: u64,
    pub stride: u64,
}

/// A BGRA to packed 10-bit 4:4:4 converter that writes into an exported surface.
pub struct Bgra2Xv30DmaBuf {
    width: u32,
    height: u32,
    export: SharedXv30Export,
}

impl Bgra2Xv30DmaBuf {
    /// Width of the frames in pixels.
    pub closed spec fn spec_width(self) -> u32 {
        self.width
    }

    /// Height of the frames in pixels.
    pub closed spec fn spec_height(self) -> u32 {
        self.height
    }

    /// The surface that frames are written to.
    pub closed spec fn export(self) -> SharedXv30Export {
        self.export
    }

    /// Why the converter does not run on an adapter, if it does not.
    pub open spec fn adapter_refusal(adapter: Option<AdapterFeatures>) -> Option<Xv30DmaBufError> {
        match adapter {
            None => Some(Xv30DmaBufError::NoAdapter),
            Some(f) => if f.dma_buf && f.adapter_formats {
                None
            } else {
                Some(Xv30DmaBufError::FeatureUnsupported)
            },
        }
    }

    /// Why a source texture is not converted, if it is not.
    pub open spec fn source_refusal(self, src: SourceTexture) -> Option<Xv30DmaBufError> {
        if !(is_rgb_source(src.format)) {
            Some(Xv30DmaBufError::InputFormat(src.format))
        } else if src.width != self.spec_width() || src.height != self.spec_height() {
            Some(
                Xv30DmaBufError::DimMismatch {
                    input_w: src.width,
                    input_h: src.height,
                    w: self.spec_width(),
                    h: self.spec_height(),
                },
            )
        } else {
            None
        }
    }

    /// How many workgroups convert a frame, in each direction.
    pub open spec fn workgroups(self) -> (int, int) {
        crate::convert::covering(self.spec_width() as int, self.spec_height() as int)
    }

    /// How a finished frame is described.
    pub open spec fn described(self) -> Xv30DmaBufFrame {
        Xv30DmaBufFrame {
            width: self.spec_width(),
            height: self.spec_height(),
            size: self.export().size,
            modifier: self.export().modifier,
            offset: self.export().offset,
            stride: self.export().pitch,
        }
    }

    /// Can the converter run on this adapter?
    pub fn check_adapter(adapter: Option<AdapterFeatures>) -> (r: Result<(), Xv30DmaBufError>)
        ensures
            r == match adapter {
                None => Err::<(), Xv30DmaBufError>(Xv30DmaBufError::NoAdapter),
                Some(f) => if f.dma_buf && f.adapter_formats {
                    Ok(())
                } else {
                    Err(Xv30DmaBufError::FeatureUnsupported)
                },
            },
            match Self::adapter_refusal(adapter) {
                Some(e) => r == Err::<(), Xv30DmaBufError>(e),
                None => r is Ok,
            },
    {
        match adapter {
            None => Err(Xv30DmaBufError::NoAdapter),
            Some(f) => if f.dma_buf && f.adapter_formats {
                Ok(())
            } else {
                Err(Xv30DmaBufError::FeatureUnsupported)
            },
        }
    }

    /// Can the packed plane be written, given the modifiers its format is storable with?
    pub fn check_storage(storable: &Vec<u64>) -> (r: Result<(), Xv30DmaBufError>)
        ensures
            r == if storable@.contains(DRM_FORMAT_MOD_LINEAR) {
                Ok::<(), Xv30DmaBufError>(())
            } else {
                Err(Xv30DmaBufError::StorageUnsupported)
            },
    {
        if !lists_modifier(storable, DRM_FORMAT_MOD_LINEAR) {
            return Err(Xv30DmaBufError::StorageUnsupported);
        }
        Ok(())
    }

    /// A converter for `width` x `height` frames that writes into `export`.
    pub fn new(width: u32, height: u32, export: SharedXv30Export) -> (r: Self)
        ensures
            r.spec_width() == width,
            r.spec_height() == height,
            r.export() == export,
    {
        Bgra2Xv30DmaBuf { width, height, export }
    }

    /// Width of the frames in pixels.
    pub fn width(&self) -> (r: u32)
        ensures
            r == self.spec_width(),
    {
        self.width
    }

    /// Height of the frames in pixels.
    pub fn height(&self) -> (r: u32)
        ensures
            r == self.spec_height(),
    {
        self.height
    }

    /// The work that converts `src`. The pass covers the visible pixels only: the padding of the
    /// surface stays unwritten.
    pub fn convert(&self, src: SourceTexture) -> (r: Result<Dispatch, Xv30DmaBufError>)
        ensures
            if !(is_rgb_source(src.format)) {
                r == Err::<Dispatch, Xv30DmaBufError>(Xv30DmaBufError::InputFormat(src.format))
            } else if src.width != self.spec_width() || src.height != self.spec_height() {
                r == Err::<Dispatch, Xv30DmaBufError>(
                    Xv30DmaBufError::DimMismatch {
                        input_w: src.width,
                        input_h: src.height,
                        w: self.spec_width(),
                        h: self.spec_height(),
                    },
                )
            } else {
                r matches Ok(d) && (d.groups_x as int, d.groups_y as int) == crate::convert::covering(
                    self.spec_width() as int,
                    self.spec_height() as int,
                )
            },
            match self.source_refusal(src) {
                Some(e) => r == Err::<Dispatch, Xv30DmaBufError>(e),
                None => r matches Ok(d) && (d.groups_x as int, d.groups_y as int)
                    == self.workgroups(),
            },
    {
        if !matches!(src.format, TextureFormat::Bgra8Unorm | TextureFormat::Rgba8Unorm) {
            return Err(Xv30DmaBufError::InputFormat(src.format));
        }
        if src.width != self.width || src.height != self.height {
            return Err(
                Xv30DmaBufError::DimMismatch {
                    input_w: src.width,
                    input_h: src.height,
                    w: self.width,
                    h: self.height,
                },
            );
        }
        Ok(dispatch_texels(self.width, self.height))
    }

    /// The work that converts a tightly packed BGRA frame from ordinary memory.
    pub fn convert_bgra_bytes(&self, bgra: &[u8]) -> (r: Result<Dispatch, Xv30DmaBufError>)
        requires
            frame_bytes(self.spec_width(), self.spec_height()) <= u32::MAX,
        ensures
            if bgra@.len() != frame_bytes(self.spec_width(), self.spec_height()) {
                r == Err::<Dispatch, Xv30DmaBufError>(
                    Xv30DmaBufError::ByteLenMismatch {
                        got: bgra@.len() as usize,
                        expected: frame_bytes(self.spec_width(), self.spec_height()) as usize,
                        w: self.spec_width(),
                        h: self.spec_height(),
                    },
                )
            } else {
                r matches Ok(d) && (d.groups_x as int, d.groups_y as int) == crate::convert::covering(
                    self.spec_width() as int,
                    self.spec_height() as int,
                )
            },
    {
        proof {
            assert(0 <= self.width * self.height) by (nonlinear_arith);
        }
        let expected: usize = (self.width * self.height * 4) as usize;
        if bgra.len() != expected {
            return Err(
                Xv30DmaBufError::ByteLenMismatch {
                    got: bgra.len(),
                    expected,
                    w: self.width,
                    h: self.height,
                },
            );
        }
        self.convert(
            SourceTexture {
                format: TextureFormat::Bgra8Unorm,
                width: self.width,
                height: self.height,
            },
        )
    }

    /// The finished frame.
    pub fn frame(&self) -> (r: Xv30DmaBufFrame)
        ensures
            r == (Xv30DmaBufFrame {
                width: self.spec_width(),
                height: self.spec_height(),
                size: self.export().size,
                modifier: self.export().modifier,
                offset: self.export().offset,
                stride: self.export().pitch,
            }),
            r == self.described(),
    {
        Xv30DmaBufFrame {
            width: self.width,
            height: self.height,
            size: self.export.size,
            modifier: self.export.modifier,
            offset: self.export.offset,
            stride: self.export.pitch,
        }
    }
}

/// Why a 4:4:4 converter was not made or used.
#[derive(Clone, Copy, Debug)]
pub enum Yuv444DmaBufError {
    /// No adapter is available.
    NoAdapter,
    /// The adapter lacks a required feature.
    FeatureUnsupported,
    /// The source texture has a format that the shader does not read.
    InputFormat(TextureFormat),
    /// The source texture has other dimensions than the converter.
    DimMismatch { input_w: u32, input_h: u32, w: u32, h: u32 },
}

/// One 4:4:4 frame: where each plane lies in the DMA-BUF that the encoder is handed.
#[derive(Clone, Copy, Debug, PartialEq, Eq, Structural)]
pub struct Yuv444DmaBufFrame {
    pub width: u32,
    pub height: u32,
    pub size: u64,
    pub modifier: u64,
    pub y_offset: u64,
    pub y_stride: u64,
    pub u_offset: u64,
    pub u_stride: u64,
    pub v_offset: u64,
    pub v_stride: u64,
}

/// A BGRA to 4:4:4 converter that writes into an exported surface.
pub struct Yuv444DmaBuf {
    width: u32,
    height: u32,
    export: SharedYuv444pExport,
}

impl Yuv444DmaBuf {
    /// Width of the frames in pixels.
    pub closed spec fn spec_width(self) -> u32 {
        self.width
    }

    /// Height of the frames in pixels.
    pub closed spec fn spec_height(self) -> u32 {
        self.height
    }

    /// The surface that frames are written to.
    pub closed spec fn export(self) -> SharedYuv444pExport {
        self.export
    }

    /// Why the converter does not run on an adapter, if it does not.
    pub open spec fn adapter_refusal(adapter: Option<AdapterFeatures>) -> Option<Yuv444DmaBufError> {
        match adapter {
            None => Some(Yuv444DmaBufError::NoAdapter),
            Some(f) => if f.dma_buf && f.adapter_formats {
                None
            } else {
                Some(Yuv444DmaBufError::FeatureUnsupported)
            },
        }
    }

    /// Why a source texture is not converted, if it is not.
    pub open spec fn source_refusal(self, src: SourceTexture) -> Option<Yuv444DmaBufError> {
        if !(src.format == TextureFormat::Bgra8Unorm) {
            Some(Yuv444DmaBufError::InputFormat(src.format))
        } else if src.width != self.spec_width() || src.height != self.spec_height() {
            Some(
                Yuv444DmaBufError::DimMismatch {
                    input_w: src.width,
                    input_h: src.height,
                    w: self.spec_width(),
                    h: self.spec_height(),
                },
            )
        } else {
            None
        }
    }

    /// How many workgroups convert a frame, in each direction.
    pub open spec fn workgroups(self) -> (int, int) {
        crate::convert::covering(self.spec_width() as int, self.spec_height() as int)
    }

    /// How a finished frame is described.
    pub open spec fn described(self) -> Yuv444DmaBufFrame {
        Yuv444DmaBufFrame {
            width: self.spec_width(),
            height: self.spec_height(),
            size: self.export().size,
            modifier: self.export().modifier,
            y_offset: self.export().y_offset,
            y_stride: self.export().y_pitch,
            u_offset: self.export().u_offset,
            u_stride: self.export().u_pitch,
            v_offset: self.export().v_offset,
            v_stride: self.export().v_pitch,
        }
    }

    /// Can the converter run on this adapter?
    pub fn check_adapter(adapter: Option<AdapterFeatures>) -> (r: Result<(), Yuv444DmaBufError>)
        ensures
            r == match adapter {
                None => Err::<(), Yuv444DmaBufError>(Yuv444DmaBufError::NoAdapter),
                Some(f) => if f.dma_buf && f.adapter_formats {
                    Ok(())
                } else {
                    Err(Yuv444DmaBufError::FeatureUnsupported)
                },
            },
            match Self::adapter_refusal(adapter) {
                Some(e) => r == Err::<(), Yuv444DmaBufError>(e),
                None => r is Ok,
            },
    {
        match adapter {
            None => Err(Yuv444DmaBufError::NoAdapter),
            Some(f) => if f.dma_buf && f.adapter_formats {
                Ok(())
            } else {
                Err(Yuv444DmaBufError::FeatureUnsupported)
            },
        }
    }

    /// A converter for `width` x `height` frames that writes into `export`.
    pub fn new(width: u32, height: u32, export: SharedYuv444pExport) -> (r: Self)
        ensures
            r.spec_width() == width,
            r.spec_height() == height,
            r.export() == export,
    {
        Yuv444DmaBuf { width, height, export }
    }

    /// Width of the frames in pixels.
    pub fn width(&self) -> (r: u32)
        ensures
            r == self.spec_width(),
    {
        self.width
    }

    /// Height of the frames in pixels.
    pub fn height(&self) -> (r: u32)
        ensures
            r == self.spec_height(),
    {
        self.height
    }

    /// The work that converts `src`. The pass covers the visible pixels only: the padding of the
    /// surface stays unwritten.
    pub fn convert(&self, src: SourceTexture) -> (r: Result<Dispatch, Yuv444DmaBufError>)
        ensures
            if !(src.format == TextureFormat::Bgra8Unorm) {
                r == Err::<Dispatch, Yuv444DmaBufError>(Yuv444DmaBufError::InputFormat(src.format))
            } else if src.width != self.spec_width() || src.height != self.spec_height() {
                r == Err::<Dispatch, Yuv444DmaBufError>(
                    Yuv444DmaBufError::DimMismatch {
                        input_w: src.width,
                        input_h: src.height,
                        w: self.spec_width(),
                        h: self.spec_height(),
                    },
                )
            } else {
                r matches Ok(d) && (d.groups_x as int, d.groups_y as int) == crate::convert::covering(
                    self.spec_width() as int,
                    self.spec_height() as int,
                )
            },
            match self.source_refusal(src) {
                Some(e) => r == Err::<Dispatch, Yuv444DmaBufError>(e),
                None => r matches Ok(d) && (d.groups_x as int, d.groups_y as int)
                    == self.workgroups(),
            },
    {
        if !(src.format == TextureFormat::Bgra8Unorm) {
            return Err(Yuv444DmaBufError::InputFormat(src.format));
        }
        if src.width != self.width || src.height != self.height {
            return Err(
                Yuv444DmaBufError::DimMismatch {
                    input_w: src.width,
                    input_h: src.height,
                    w: self.width,
                    h: self.height,
                },
            );
        }
        Ok(dispatch_texels(self.width, self.height))
    }

    /// The finished frame.
    pub fn frame(&self) -> (r: Yuv444DmaBufFrame)
        ensures
            r == (Yuv444DmaBufFrame {
                width: self.spec_width(),
                height: self.spec_height(),
                size: self.export().size,
                modifier: self.export().modifier,
                y_offset: self.export().y_offset,
                y_stride: self.export().y_pitch,
                u_offset: self.export().u_offset,
                u_stride: self.export().u_pitch,
                v_offset: self.export().v_offset,
                v_stride: self.export().v_pitch,
            }),
            r == self.described(),
    {
        Yuv444DmaBufFrame {
            width: self.width,
            height: self.height,
            size: self.export.size,
            modifier: self.export.modifier,
            y_offset: self.export.y_offset,
            y_stride: self.export.y_pitch,
            u_offset: self.export.u_offset,
            u_stride: self.export.u_pitch,
            v_offset: self.export.v_offset,
            v_stride: self.export.v_pitch,
        }
    }
}

/// Why a planar 4:4:4 converter was not made or used.
#[derive(Clone, Copy, Debug)]
pub enum Yuv444pDmaBufError {
    /// No adapter is available.
    NoAdapter,
    /// The adapter lacks a required feature.
    FeatureUnsupported,
    /// The source texture has a format that the shader does not read.
    InputFormat(TextureFormat),
    /// The source texture has other dimensions than the converter.
    DimMismatch { input_w: u32, input_h: u32, w: u32, h: u32 },
    /// The frame's length is not that of a tightly packed frame.
    ByteLenMismatch { got: usize, expected: usize, w: u32, h: u32 },
}

/// One planar 4:4:4 frame: where each plane lies in the DMA-BUF that the encoder is handed.
#[derive(Clone, Copy, Debug, PartialEq, Eq, Structural)]
pub struct Yuv444pDmaBufFrame {
    pub width: u32,
    pub height: u32,
    pub size: u64,
    pub modifier: u64,
    pub y_offset: u64,
    pub y_stride: u64,
    pub u_offset: u64,
    pub u_stride: u64,
    pub v_offset: u64,
    pub v_stride: u64,
}

/// A BGRA to planar 4:4:4 converter that writes into an exported surface.
pub struct Yuv444pDmaBuf {
    width: u32,
    height: u32,
    export: SharedYuv444pExport,
}

impl Yuv444pDmaBuf {
    /// Width of the frames in pixels.
    pub closed spec fn spec_width(self) -> u32 {
        self.width
    }

    /// Height of the frames in pixels.
    pub closed spec fn spec_height(self) -> u32 {
        self.height
    }

    /// The surface that frames are written to.
    pub closed spec fn export(self) -> SharedYuv444pExport {
        self.export
    }

    /// Why the converter does not run on an adapter, if it does not.
    pub open spec fn adapter_refusal(adapter: Option<AdapterFeatures>) -> Option<Yuv444pDmaBufError> {
        match adapter {
            None => Some(Yuv444pDmaBufError::NoAdapter),
            Some(f) => if f.dma_buf && f.adapter_formats {
                None
            } else {
                Some(Yuv444pDmaBufError::FeatureUnsupported)
            },
        }
    }

    /// Why a source texture is not converted, if it is not.
    pub open spec fn source_refusal(self, src: SourceTexture) -> Option<Yuv444pDmaBufError> {
        if !(is_rgb_source(src.format)) {
            Some(Yuv444pDmaBufError::InputFormat(src.format))
        } else if src.width != self.spec_width() || src.height != self.spec_height() {
            Some(
                Yuv444pDmaBufError::DimMismatch {
                    input_w: src.width,
                    input_h: src.height,
                    w: self.spec_width(),
                    h: self.spec_height(),
                },
            )
        } else {
            None
        }
    }

    /// How many workgroups convert a frame, in each direction.
    pub open spec fn workgroups(self) -> (int, int) {
        crate::convert::covering(self.spec_width() as int, self.spec_height() as int)
    }

    /// How a finished frame is described.
    pub open spec fn described(self) -> Yuv444pDmaBufFrame {
        Yuv444pDmaBufFrame {
            width: self.spec_width(),
            height: self.spec_height(),
            size: self.export().size,
            modifier: self.export().modifier,
            y_offset: self.export().y_offset,
            y_stride: self.export().y_pitch,
            u_offset: self.export().u_offset,
            u_stride: self.export().u_pitch,
            v_offset: self.export().v_offset,
            v_stride: self.export().v_pitch,
        }
    }

    /// Can the converter run on this adapter?
    pub fn check_adapter(adapter: Option<AdapterFeatures>) -> (r: Result<(), Yuv444pDmaBufError>)
        ensures
            r == match adapter {
                None => Err::<(), Yuv444pDmaBufError>(Yuv444pDmaBufError::NoAdapter),
                Some(f) => if f.dma_buf && f.adapter_formats {
                    Ok(())
                } else {
                    Err(Yuv444pDmaBufError::FeatureUnsupported)
                },
            },
            match Self::adapter_refusal(adapter) {
                Some(e) => r == Err::<(), Yuv444pDmaBufError>(e),
                None => r is Ok,
            },
    {
        match adapter {
            None => Err(Yuv444pDmaBufError::NoAdapter),
            Some(f) => if f.dma_buf && f.adapter_formats {
                Ok(())
            } else {
                Err(Yuv444pDmaBufError::FeatureUnsupported)
            },
        }
    }

    /// A converter for `width` x `height` frames that writes into `export`.
    pub fn new(width: u32, height: u32, export: SharedYuv444pExport) -> (r: Self)
        ensures
            r.spec_width() == width,
            r.spec_height() == height,
            r.export() == export,
    {
        Yuv444pDmaBuf { width, height, export }
    }

    /// Width of the frames in pixels.
    pub fn width(&self) -> (r: u32)
        ensures
            r == self.spec_width(),
    {
        self.width
    }

    /// Height of the frames in pixels.
    pub fn height(&self) -> (r: u32)
        ensures
            r == self.spec_height(),
    {
        self.height
    }

    /// The work that converts `src`. The pass covers the visible pixels only: the padding of the
    /// surface stays unwritten.
    pub fn convert(&self, src: SourceTexture) -> (r: Result<Dispatch, Yuv444pDmaBufError>)
        ensures
            if !(is_rgb_source(src.format)) {
                r == Err::<Dispatch, Yuv444pDmaBufError>(Yuv444pDmaBufError::InputFormat(src.format))
            } else if src.width != self.spec_width() || src.height != self.spec_height() {
                r == Err::<Dispatch, Yuv444pDmaBufError>(
                    Yuv444pDmaBufError::DimMismatch {
                        input_w: src.width,
                        input_h: src.height,
                        w: self.spec_width(),
                        h: self.spec_height(),
                    },
                )
            } else {
                r matches Ok(d) && (d.groups_x as int, d.groups_y as int) == crate::convert::covering(
                    self.spec_width() as int,
                    self.spec_height() as int,
                )
            },
            match self.source_refusal(src) {
                Some(e) => r == Err::<Dispatch, Yuv444pDmaBufError>(e),
                None => r matches Ok(d) && (d.groups_x as int, d.groups_y as int)
                    == self.workgroups(),
            },
    {
        if !matches!(src.format, TextureFormat::Bgra8Unorm | TextureFormat::Rgba8Unorm) {
            return Err(Yuv444pDmaBufError::InputFormat(src.format));
        }
        if src.width != self.width || src.height != self.height {
            return Err(
                Yuv444pDmaBufError::DimMismatch {
                    input_w: src.width,
                    input_h: src.height,
                    w: self.width,
                    h: self.height,
                },
            );
        }
        Ok(dispatch_texels(self.width, self.height))
    }

    /// The work that converts a tightly packed BGRA frame from ordinary memory.
    pub fn convert_bgra_bytes(&self, bgra: &[u8]) -> (r: Result<Dispatch, Yuv444pDmaBufError>)
        requires
            frame_bytes(self.spec_width(), self.spec_height()) <= usize::MAX,
        ensures
            if bgra@.len() != frame_bytes(self.spec_width(), self.spec_height()) {
                r == Err::<Dispatch, Yuv444pDmaBufError>(
                    Yuv444pDmaBufError::ByteLenMismatch {
                        got: bgra@.len() as usize,
                        expected: frame_bytes(self.spec_width(), self.spec_height()) as usize,
                        w: self.spec_width(),
                        h: self.spec_height(),
                    },
                )
            } else {
                r matches Ok(d) && (d.groups_x as int, d.groups_y as int) == crate::convert::covering(
                    self.spec_width() as int,
                    self.spec_height() as int,
                )
            },
    {
        proof {
            assert(0 <= self.width * self.height) by (nonlinear_arith);
        }
        let expected: usize = (self.width as usize) * (self.height as usize) * 4;
        if bgra.len() != expected {
            return Err(
                Yuv444pDmaBufError::ByteLenMismatch {
                    got: bgra.len(),
                    expected,
                    w: self.width,
                    h: self.height,
                },
            );
        }
        self.convert(
            SourceTexture {
                format: TextureFormat::Bgra8Unorm,
                width: self.width,
                height: self.height,
            },
        )
    }

    /// The finished frame.
    pub fn frame(&self) -> (r: Yuv444pDmaBufFrame)
        ensures
            r == (Yuv444pDmaBufFrame {
                width: self.spec_width(),
                height: self.spec_height(),
                size: self.export().size,
                modifier: self.export().modifier,
                y_offset: self.export().y_offset,
                y_stride: self.export().y_pitch,
                u_offset: self.export().u_offset,
                u_stride: self.export().u_pitch,
                v_offset: self.export().v_offset,
                v_stride: self.export().v_pitch,
            }),
            r == self.described(),
    {
        Yuv444pDmaBufFrame {
            width: self.width,
            height: self.height,
            size: self.export.size,
            modifier: self.export.modifier,
            y_offset: self.export.y_offset,
            y_stride: self.export.y_pitch,
            u_offset: self.export.u_offset,
            u_stride: self.export.u_pitch,
            v_offset: self.export.v_offset,
            v_stride: self.export.v_pitch,
        }
    }
}

/// The converters read what has red, green, blue and alpha of 8 bits each, in whichever order.
pub proof fn sources_have_four_channels(f: TextureFormat)
    ensures
        is_rgb_source(f) <==> crate::formats::texture_channels(f) == (4int, 8int),
{
}

/// A tightly packed frame has four bytes for each pixel of each row and nothing else.
pub proof fn frames_have_four_bytes_per_pixel(width: u32, height: u32)
    requires
        height < u32::MAX,
        width < u32::MAX,
    ensures
        frame_bytes(width, 0) == 0,
        frame_bytes(0, height) == 0,
        frame_bytes(width, (height + 1) as u32) == frame_bytes(width, height) + 4 * width,
        frame_bytes((width + 1) as u32, height) == frame_bytes(width, height) + 4 * height,
{
    let (w, h) = (width as int, height as int);
    assert(w * (h + 1) * 4 == w * h * 4 + 4 * w) by (nonlinear_arith);
    assert((w + 1) * h * 4 == w * h * 4 + 4 * h) by (nonlinear_arith);
    assert(w * 0 * 4 == 0) by (nonlinear_arith);
    assert(0 * h * 4 == 0) by (nonlinear_arith);
}

/// Every texel of a frame is covered by workgroups of eight by eight texels, and none of them is
/// idle.
pub open spec fn just_covers(groups: (int, int), width: int, height: int) -> bool {
    &&& 8 * (groups.0 - 1) < width <= 8 * groups.0
    &&& 8 * (groups.1 - 1) < height <= 8 * groups.1
}

/// An NV12 converter runs on an adapter with the DMA-BUF and format features, takes
/// textures of four 8-bit channels of its own size, starts one invocation for every chroma sample, and describes a frame by the surface
/// that it was written to.
pub proof fn nv12_converters_take_what_they_can_convert(
    c: Nv12DmaBuf,
    adapter: Option<AdapterFeatures>,
    src: SourceTexture,
)
    requires
        c.spec_width() > 0,
        c.spec_height() > 0,
    ensures
        Nv12DmaBuf::adapter_refusal(adapter) is None <==> (adapter matches Some(f) && f.dma_buf
            && f.adapter_formats && true),
        Nv12DmaBuf::adapter_refusal(adapter) matches Some(e) ==> (e is NoAdapter <==> adapter is None) && (
        e is FeatureUnsupported <==> adapter is Some),
        c.source_refusal(src) is None <==> crate::formats::texture_channels(src.format) == (4int, 8int) && src.width
            == c.spec_width() && src.height == c.spec_height(),
        c.source_refusal(src) matches Some(e) ==> (e is InputFormat <==> !(crate::formats::texture_channels(src.format) == (4int, 8int))),
        ({
            let f = c.described();
            let e = c.export();
            &&& (f.width, f.height) == (c.spec_width(), c.spec_height())
            &&& (f.size, f.modifier) == (e.size, e.modifier)
            &&& (f.y_offset, f.y_stride) == (e.y_offset, e.y_pitch)
            &&& (f.uv_offset, f.uv_stride) == (e.uv_offset, e.uv_pitch)
            &&& exists|cw: int, ch: int| #[trigger]
                just_covers(c.workgroups(), cw, ch) && c.spec_width() <= 2 * cw <= c.spec_width() + 1
                    && c.spec_height() <= 2 * ch <= c.spec_height() + 1
        }),
{
    crate::convert::chroma_is_half_of_the_frame(c.spec_width(), c.spec_height());
    let (cw, ch) = crate::convert::chroma_extent(c.spec_width(), c.spec_height());
    crate::convert::no_workgroup_is_idle(cw, ch);
    assert(just_covers(c.workgroups(), cw, ch));
}

/// A P010 converter runs on an adapter with the DMA-BUF and format features, and 16-bit formats, takes
/// textures of four 8-bit channels of its own size, starts one invocation for every chroma sample, and describes a frame by the surface
/// that it was written to.
pub proof fn p010_converters_take_what_they_can_convert(
    c: Bgra2P010DmaBuf,
    adapter: Option<AdapterFeatures>,
    src: SourceTexture,
)
    requires
        c.spec_width() > 0,
        c.spec_height() > 0,
    ensures
        Bgra2P010DmaBuf::adapter_refusal(adapter) is None <==> (adapter matches Some(f) && f.dma_buf
            && f.adapter_formats && f.norm16),
        Bgra2P010DmaBuf::adapter_refusal(adapter) matches Some(e) ==> (e is NoAdapter <==> adapter is None) && (
        e is FeatureUnsupported <==> adapter is Some),
        c.source_refusal(src) is None <==> crate::formats::texture_channels(src.format) == (4int, 8int) && src.width
            == c.spec_width() && src.height == c.spec_height(),
        c.source_refusal(src) matches Some(e) ==> (e is InputFormat <==> !(crate::formats::texture_channels(src.format) == (4int, 8int))),
        ({
            let f = c.described();
            let e = c.export();
            &&& (f.width, f.height) == (c.spec_width(), c.spec_height())
            &&& (f.size, f.modifier) == (e.size, e.modifier)
            &&& (f.y_offset, f.y_stride) == (e.y_offset, e.y_pitch)
            &&& (f.uv_offset, f.uv_stride) == (e.uv_offset, e.uv_pitch)
            &&& exists|cw: int, ch: int| #[trigger]
                just_covers(c.workgroups(), cw, ch) && c.spec_width() <= 2 * cw <= c.spec_width() + 1
                    && c.spec_height() <= 2 * ch <= c.spec_height() + 1
        }),
{
    crate::convert::chroma_is_half_of_the_frame(c.spec_width(), c.spec_height());
    let (cw, ch) = crate::convert::chroma_extent(c.spec_width(), c.spec_height());
    crate::convert::no_workgroup_is_idle(cw, ch);
    assert(just_covers(c.workgroups(), cw, ch));
}

/// A packed 10-bit 4:4:4 converter runs on an adapter with the DMA-BUF and format features, takes
/// textures of four 8-bit channels of its own size, starts one invocation for every pixel, and describes a frame by the surface
/// that it was written to.
pub proof fn xv30_converters_take_what_they_can_convert(
    c: Bgra2Xv30DmaBuf,
    adapter: Option<AdapterFeatures>,
    src: SourceTexture,
)
    requires
        c.spec_width() > 0,
        c.spec_height() > 0,
    ensures
        Bgra2Xv30DmaBuf::adapter_refusal(adapter) is None <==> (adapter matches Some(f) && f.dma_buf
            && f.adapter_formats && true),
        Bgra2Xv30DmaBuf::adapter_refusal(adapter) matches Some(e) ==> (e is NoAdapter <==> adapter is None) && (
        e is FeatureUnsupported <==> adapter is Some),
        c.source_refusal(src) is None <==> crate::formats::texture_channels(src.format) == (4int, 8int) && src.width
            == c.spec_width() && src.height == c.spec_height(),
        c.source_refusal(src) matches Some(e) ==> (e is InputFormat <==> !(crate::formats::texture_channels(src.format) == (4int, 8int))),
        ({
            let f = c.described();
            let e = c.export();
            &&& (f.width, f.height) == (c.spec_width(), c.spec_height())
            &&& (f.size, f.modifier) == (e.size, e.modifier)
            &&& (f.offset, f.stride) == (e.offset, e.pitch)
            &&& just_covers(c.workgroups(), c.spec_width() as int, c.spec_height() as int)
        }),
{
    crate::convert::no_workgroup_is_idle(c.spec_width() as int, c.spec_height() as int);
}

/// A 4:4:4 converter runs on an adapter with the DMA-BUF and format features, takes
/// captured textures of its own size, starts one invocation for every pixel, and describes a frame by the surface
/// that it was written to.
pub proof fn yuv444_converters_take_what_they_can_convert(
    c: Yuv444DmaBuf,
    adapter: Option<AdapterFeatures>,
    src: SourceTexture,
)
    requires
        c.spec_width() > 0,
        c.spec_height() > 0,
    ensures
        Yuv444DmaBuf::adapter_refusal(adapter) is None <==> (adapter matches Some(f) && f.dma_buf
            && f.adapter_formats && true),
        Yuv444DmaBuf::adapter_refusal(adapter) matches Some(e) ==> (e is NoAdapter <==> adapter is None) && (
        e is FeatureUnsupported <==> adapter is Some),
        c.source_refusal(src) is None <==> src.format == TextureFormat::Bgra8Unorm && src.width
            == c.spec_width() && src.height == c.spec_height(),
        c.source_refusal(src) matches Some(e) ==> (e is InputFormat <==> !(src.format == TextureFormat::Bgra8Unorm)),
        ({
            let f = c.described();
            let e = c.export();
            &&& (f.width, f.height) == (c.spec_width(), c.spec_height())
            &&& (f.size, f.modifier) == (e.size, e.modifier)
            &&& (f.y_offset, f.y_stride) == (e.y_offset, e.y_pitch)
            &&& (f.u_offset, f.u_stride) == (e.u_offset, e.u_pitch)
            &&& (f.v_offset, f.v_stride) == (e.v_offset, e.v_pitch)
            &&& just_covers(c.workgroups(), c.spec_width() as int, c.spec_height() as int)
        }),
{
    crate::convert::no_workgroup_is_idle(c.spec_width() as int, c.spec_height() as int);
}

/// A planar 4:4:4 converter runs on an adapter with the DMA-BUF and format features, takes
/// textures of four 8-bit channels of its own size, starts one invocation for every pixel, and describes a frame by the surface
/// that it was written to.
pub proof fn yuv444p_converters_take_what_they_can_convert(
    c: Yuv444pDmaBuf,
    adapter: Option<AdapterFeatures>,
    src: SourceTexture,
)
    requires
        c.spec_width() > 0,
        c.spec_height() > 0,
    ensures
        Yuv444pDmaBuf::adapter_refusal(adapter) is None <==> (adapter matches Some(f) && f.dma_buf
            && f.adapter_formats && true),
        Yuv444pDmaBuf::adapter_refusal(adapter) matches Some(e) ==> (e is NoAdapter <==> adapter is None) && (
        e is FeatureUnsupported <==> adapter is Some),
        c.source_refusal(src) is None <==> crate::formats::texture_channels(src.format) == (4int, 8int) && src.width
            == c.spec_width() && src.height == c.spec_height(),
        c.source_refusal(src) matches Some(e) ==> (e is InputFormat <==> !(crate::formats::texture_channels(src.format) == (4int, 8int))),
        ({
            let f = c.described();
            let e = c.export();
            &&& (f.width, f.height) == (c.spec_width(), c.spec_height())
            &&& (f.size, f.modifier) == (e.size, e.modifier)
            &&& (f.y_offset, f.y_stride) == (e.y_offset, e.y_pitch)
            &&& (f.u_offset, f.u_stride) == (e.u_offset, e.u_pitch)
            &&& (f.v_offset, f.v_stride) == (e.v_offset, e.v_pitch)
            &&& just_covers(c.workgroups(), c.spec_width() as int, c.spec_height() as int)
        }),
{
    crate::convert::no_workgroup_is_idle(c.spec_width() as int, c.spec_height() as int);
}

} // verus!
