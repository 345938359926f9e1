//! BGRA frames to NV12 planes, through the GPU and back.
//!
//! The conversion itself is a compute shader. This module holds what surrounds it: which frames
//! are accepted, how much work is dispatched, how wide the rows of the readback buffers are, and
//! how the padding of those rows is taken off again.
use vstd::prelude::*;

use crate::memory::div_ceil;

verus! {

/// Rows that the GPU copies to a buffer come in multiples of this many bytes.
pub const COPY_ROW_ALIGN: u32 = 256;

/// A workgroup of the conversion shaders covers a square of this many texels per side.
pub const WORKGROUP_SIDE: u32 = 8;

/// Why a frame was not converted.
#[derive(Debug)]
pub enum ConvertError {
    /// No adapter is available.
    NoAdapter,
    /// The adapter cannot write 8-bit storage textures.
    FeatureUnsupported,
    /// The device could not be opened, for the reason given.
    Device(String),
    /// The frame's length is not that of a tightly packed frame.
    InputSize { got: usize, expected: usize },
    /// A frame without pixels.
    InvalidDims { width: u32, height: u32 },
}

/// What opening an adapter and a device on it came to.
#[derive(Debug)]
pub enum DeviceProbe {
    NoAdapter,
    MissingFeatures,
    DeviceFailed(String),
    Ready,
}

/// One NV12 frame, packed tightly.
#[derive(Clone, Debug, PartialEq, Eq)]
pub struct Nv12Planes {
    pub width: u32,
    pub height: u32,
    /// One byte per pixel.
    pub y: Vec<u8>,
    /// A byte of U and a byte of V per chroma sample.
    pub uv: Vec<u8>,
}

/// Chroma samples in each direction of a 4:2:0 frame: half of the pixels, rounded up.
pub open spec fn chroma_extent(width: u32, height: u32) -> (int, int) {
    (crate::memory::div_up(width as int, 2), crate::memory::div_up(height as int, 2))
}

impl Nv12Planes {
    /// Chroma plane dimensions in chroma samples. The `uv` buffer is twice this wide in bytes.
    pub fn chroma_dims(&self) -> (r: (u32, u32))
        ensures
            (r.0 as int, r.1 as int) == chroma_extent(self.width, self.height),
    {
        (div_ceil(self.width, 2), div_ceil(self.height, 2))
    }
}

/// Round `tight_row` up to the alignment of buffer rows.
pub fn padded_row(tight_row: u32) -> (r: u32)
    requires
        crate::memory::round_up(tight_row as int, COPY_ROW_ALIGN as int) <= u32::MAX,
    ensures
        r == crate::memory::round_up(tight_row as int, COPY_ROW_ALIGN as int),
{
    div_ceil(tight_row, COPY_ROW_ALIGN) * COPY_ROW_ALIGN
}

/// The first `rows` rows of a buffer whose rows are `padded` bytes apart, each cut to `tight`
/// bytes, one behind the other.
pub open spec fn tight_rows(mapped: Seq<u8>, tight: int, rows: int, padded: int) -> Seq<u8>
    decreases rows,
{
    if rows <= 0 {
        Seq::empty()
    } else {
        tight_rows(mapped, tight, rows - 1, padded) + mapped.subrange(
            (rows - 1) * padded,
            (rows - 1) * padded + tight,
        )
    }
}

/// The buffer holds every row.
pub open spec fn holds_rows(mapped: Seq<u8>, tight: int, rows: int, padded: int) -> bool {
    rows > 0 ==> (rows - 1) * padded + tight <= mapped.len()
}

/// Take the row padding off a readback buffer.
pub fn strip_row_padding(mapped: &[u8], tight_row: usize, rows: usize, padded_row: usize) -> (out:
    Vec<u8>)
    requires
        holds_rows(mapped@, tight_row as int, rows as int, padded_row as int),
        tight_row * rows <= usize::MAX,
    ensures
        out@ == tight_rows(mapped@, tight_row as int, rows as int, padded_row as int),
        out@.len() == tight_row * rows,
{
    let mut out: Vec<u8> = Vec::new();
    let mut row: usize = 0;
    while row < rows
        invariant
            row <= rows,
            holds_rows(mapped@, tight_row as int, rows as int, padded_row as int),
            out@ == tight_rows(mapped@, tight_row as int, row as int, padded_row as int),
            out@.len() == tight_row * row,
        decreases rows - row,
    {
        proof {
            assert(0 <= row * padded_row <= (rows - 1) * padded_row) by (nonlinear_arith)
                requires
                    0 <= row <= rows - 1,
                    0 <= padded_row,
            ;
            assert(tight_row * row + tight_row == tight_row * (row + 1)) by (nonlinear_arith);
            assert(mapped@.len() == mapped.len());
        }
        let start: usize = row * padded_row;
        let ghost before = out@;
        out.extend_from_slice(vstd::slice::slice_subrange(mapped, start, start + tight_row));
        assert(out@ =~= before + mapped@.subrange(start as int, start + tight_row));
        row = row + 1;
    }
    out
}

/// Every sample survives the stripping: column `c` of row `r` is found at its place in the tight
/// plane.
pub proof fn stripped_rows_keep_every_sample(
    mapped: Seq<u8>,
    tight: int,
    rows: int,
    padded: int,
    r: int,
    c: int,
)
    requires
        0 <= r < rows,
        0 <= c < tight,
        tight <= padded,
        holds_rows(mapped, tight, rows, padded),
    ensures
        tight_rows(mapped, tight, rows, padded).len() == rows * tight,
        tight_rows(mapped, tight, rows, padded)[r * tight + c] == mapped[r * padded + c],
    decreases rows,
{
    assert((rows - 2) * padded + tight <= (rows - 1) * padded + tight) by (nonlinear_arith)
        requires
            padded >= 0,
    ;
    lemma_tight_rows_len(mapped, tight, rows, padded);
    lemma_tight_rows_len(mapped, tight, rows - 1, padded);
    assert(0 <= (rows - 1) * padded && (rows - 1) * tight + tight == rows * tight)
        by (nonlinear_arith)
        requires
            rows >= 1,
            padded >= 0,
    ;
    if r < rows - 1 {
        assert(r * tight + c < (rows - 1) * tight) by (nonlinear_arith)
            requires
                r + 1 <= rows - 1,
                0 <= c < tight,
        ;
        assert(0 <= r * tight) by (nonlinear_arith)
            requires
                0 <= r,
                0 < tight,
        ;
        stripped_rows_keep_every_sample(mapped, tight, rows - 1, padded, r, c);
    }
}

proof fn lemma_tight_rows_len(mapped: Seq<u8>, tight: int, rows: int, padded: int)
    requires
        0 <= tight <= padded,
        0 <= rows,
        holds_rows(mapped, tight, rows, padded),
    ensures
        tight_rows(mapped, tight, rows, padded).len() == rows * tight,
    decreases rows,
{
    if rows > 0 {
        assert(rows > 1 ==> (rows - 2) * padded + tight <= (rows - 1) * padded + tight)
            by (nonlinear_arith)
            requires
                padded >= 0,
        ;
        lemma_tight_rows_len(mapped, tight, rows - 1, padded);
        assert(0 <= (rows - 1) * padded && (rows - 1) * tight + tight == rows * tight)
            by (nonlinear_arith)
            requires
                rows >= 1,
                padded >= 0,
        ;
    } else {
        assert(0 * tight == 0);
    }
}

/// How many workgroups a compute pass starts in each direction.
#[derive(Clone, Copy, Debug, PartialEq, Eq, Structural)]
pub struct Dispatch {
    pub groups_x: u32,
    pub groups_y: u32,
}

/// The fewest workgroups that cover `width` x `height` texels.
pub open spec fn covering(width: int, height: int) -> (int, int) {
    (
        crate::memory::div_up(width, WORKGROUP_SIDE as int),
        crate::memory::div_up(height, WORKGROUP_SIDE as int),
    )
}

/// Workgroups for one invocation per texel.
pub fn dispatch_texels(width: u32, height: u32) -> (d: Dispatch)
    ensures
        (d.groups_x as int, d.groups_y as int) == covering(width as int, height as int),
{
    Dispatch {
        groups_x: div_ceil(width, WORKGROUP_SIDE),
        groups_y: div_ceil(height, WORKGROUP_SIDE),
    }
}

/// Workgroups for one invocation per chroma sample of a 4:2:0 frame.
pub fn dispatch_chroma(width: u32, height: u32) -> (d: Dispatch)
    ensures
        (d.groups_x as int, d.groups_y as int) == covering(
            chroma_extent(width, height).0,
            chroma_extent(width, height).1,
        ),
{
    dispatch_texels(div_ceil(width, 2), div_ceil(height, 2))
}

/// Every texel is covered: none lies beyond the last workgroup.
pub proof fn dispatch_covers_every_texel(width: int, height: int, x: int, y: int)
    requires
        0 <= x < width,
        0 <= y < height,
    ensures
        x / (WORKGROUP_SIDE as int) < covering(width, height).0,
        y / (WORKGROUP_SIDE as int) < covering(width, height).1,
{
}

/// The geometry of a BGRA to NV12 converter.
pub struct Bgra2Nv12 {
    width: u32,
    height: u32,
    y_padded_row: u32,
    uv_padded_row: u32,
}

impl Bgra2Nv12 {
    /// Width of the frames in pixels.
    pub closed spec fn spec_width(self) -> u32 {
        self.width
    }

    /// Height of the frames in pixels.
    pub closed spec fn spec_height(self) -> u32 {
        self.height
    }

    /// Bytes in a tight row of the UV plane.
    pub open spec fn uv_row(self) -> int {
        chroma_extent(self.spec_width(), self.spec_height()).0 * 2
    }

    /// Rows of the UV plane.
    pub open spec fn uv_rows(self) -> int {
        chroma_extent(self.spec_width(), self.spec_height()).1
    }

    /// The frame has pixels, and the buffer rows are the plane rows, padded.
    pub closed spec fn wf(self) -> bool {
        &&& self.width > 0
        &&& self.height > 0
        &&& self.y_padded_row == crate::memory::round_up(self.width as int, COPY_ROW_ALIGN as int)
        &&& self.uv_padded_row == crate::memory::round_up(self.uv_row(), COPY_ROW_ALIGN as int)
        &&& self.uv_row() <= u32::MAX
    }

    /// A converter for `width` x `height` frames. A frame without pixels is refused before any
    /// adapter is asked.
    pub fn new(width: u32, height: u32, probe: DeviceProbe) -> (r: Result<Self, ConvertError>)
        requires
            probe is Ready && width > 0 && height > 0 ==> crate::memory::round_up(
                width as int,
                COPY_ROW_ALIGN as int,
            ) <= u32::MAX,
        ensures
            if width == 0 || height == 0 {
                r == Err::<Self, ConvertError>(ConvertError::InvalidDims { width, height })
            } else {
                match probe {
                    DeviceProbe::NoAdapter => r == Err::<Self, ConvertError>(
                        ConvertError::NoAdapter,
                    ),
                    DeviceProbe::MissingFeatures => r == Err::<Self, ConvertError>(
                        ConvertError::FeatureUnsupported,
                    ),
                    DeviceProbe::DeviceFailed(why) => r == Err::<Self, ConvertError>(
                        ConvertError::Device(why),
                    ),
                    DeviceProbe::Ready => r matches Ok(c) && c.wf() && c.spec_width() == width
                        && c.spec_height() == height,
                }
            },
    {
        if width == 0 || height == 0 {
            return Err(ConvertError::InvalidDims { width, height });
        }
        match probe {
            DeviceProbe::NoAdapter => {
                return Err(ConvertError::NoAdapter);
            },
            DeviceProbe::MissingFeatures => {
                return Err(ConvertError::FeatureUnsupported);
            },
            DeviceProbe::DeviceFailed(why) => {
                return Err(ConvertError::Device(why));
            },
            DeviceProbe::Ready => {},
        }
        let chroma_w: u32 = div_ceil(width, 2);
        proof {
            crate::memory::lemma_round_up(width as int, 256);
            crate::memory::lemma_round_up(2 * chroma_w as int, 256);
        }
        let y_padded_row: u32 = padded_row(width);
        let uv_padded_row: u32 = padded_row(chroma_w * 2);
        Ok(Bgra2Nv12 { width, height, y_padded_row, uv_padded_row })
    }

    /// Bytes per row of the buffer that the Y plane is copied to.
    pub fn y_padded_row(&self) -> (r: u32)
        requires
            self.wf(),
        ensures
            r == crate::memory::round_up(self.spec_width() as int, COPY_ROW_ALIGN as int),
    {
        self.y_padded_row
    }

    /// Bytes per row of the buffer that the UV plane is copied to.
    pub fn uv_padded_row(&self) -> (r: u32)
        requires
            self.wf(),
        ensures
            r == crate::memory::round_up(self.uv_row(), COPY_ROW_ALIGN as int),
    {
        self.uv_padded_row
    }

    /// Workgroups of the conversion pass.
    pub fn dispatch(&self) -> (d: Dispatch)
        ensures
            (d.groups_x as int, d.groups_y as int) == covering(
                chroma_extent(self.spec_width(), self.spec_height()).0,
                chroma_extent(self.spec_width(), self.spec_height()).1,
            ),
    {
        dispatch_chroma(self.width, self.height)
    }

    /// Is `bgra` one tightly packed frame? Asked before anything is uploaded.
    pub fn check_input(&self, bgra: &[u8]) -> (r: Result<(), ConvertError>)
        requires
            self.spec_width() * self.spec_height() * 4 <= usize::MAX,
        ensures
            ({
                let expected = (self.spec_width() * self.spec_height() * 4) as usize;
                r == if bgra@.len() == expected {
                    Ok::<(), ConvertError>(())
                } else {
                    Err(ConvertError::InputSize { got: bgra@.len() as usize, expected })
                }
            }),
    {
        proof {
            assert(self.width * self.height <= self.width * self.height * 4) by (nonlinear_arith)
                requires
                    0 <= self.width * self.height,
            ;
            assert(0 <= self.width * self.height) by (nonlinear_arith);
        }
        let expected: usize = (self.width as usize) * (self.height as usize) * 4;
        if bgra.len() != expected {
            return Err(ConvertError::InputSize { got: bgra.len(), expected });
        }
        Ok(())
    }

    /// The frame in the two mapped readback buffers, with the row padding taken off.
    pub fn planes(&self, y_mapped: &[u8], uv_mapped: &[u8]) -> (r: Nv12Planes)
        requires
            self.wf(),
            self.spec_width() * self.spec_height() <= usize::MAX,
            self.uv_row() * self.uv_rows() <= usize::MAX,
            holds_rows(
                y_mapped@,
                self.spec_width() as int,
                self.spec_height() as int,
                crate::memory::round_up(self.spec_width() as int, COPY_ROW_ALIGN as int),
            ),
            holds_rows(
                uv_mapped@,
                self.uv_row(),
                self.uv_rows(),
                crate::memory::round_up(self.uv_row(), COPY_ROW_ALIGN as int),
            ),
        ensures
            r.width == self.spec_width(),
            r.height == self.spec_height(),
            r.y@ == tight_rows(
                y_mapped@,
                self.spec_width() as int,
                self.spec_height() as int,
                crate::memory::round_up(self.spec_width() as int, COPY_ROW_ALIGN as int),
            ),
            r.uv@ == tight_rows(
                uv_mapped@,
                self.uv_row(),
                self.uv_rows(),
                crate::memory::round_up(self.uv_row(), COPY_ROW_ALIGN as int),
            ),
            r.y@.len() == self.spec_width() * self.spec_height(),
            r.uv@.len() == self.uv_row() * self.uv_rows(),
    {
        let chroma_w: u32 = div_ceil(self.width, 2);
        let chroma_h: u32 = div_ceil(self.height, 2);
        let y = strip_row_padding(
            y_mapped,
            self.width as usize,
            self.height as usize,
            self.y_padded_row as usize,
        );
        let uv = strip_row_padding(
            uv_mapped,
            (chroma_w as usize) * 2,
            chroma_h as usize,
            self.uv_padded_row as usize,
        );
        Nv12Planes { width: self.width, height: self.height, y, uv }
    }
}

/// A 4:2:0 frame has one chroma sample for two by two pixels, and an odd column or row left over
/// has its own.
pub proof fn chroma_is_half_of_the_frame(width: u32, height: u32)
    ensures
        width <= 2 * chroma_extent(width, height).0 <= width + 1,
        height <= 2 * chroma_extent(width, height).1 <= height + 1,
{
}

/// No workgroup is started in vain: with one fewer in a direction, texels there would be left.
pub proof fn no_workgroup_is_idle(width: int, height: int)
    requires
        width > 0,
        height > 0,
    ensures
        8 * (covering(width, height).0 - 1) < width <= 8 * covering(width, height).0,
        8 * (covering(width, height).1 - 1) < height <= 8 * covering(width, height).1,
        covering(0, 0) == (0int, 0int),
{
}

/// A buffer row is the shortest multiple of 256 bytes that holds the row.
pub proof fn buffer_rows_hold_their_row(tight: int)
    requires
        tight >= 0,
    ensures
        crate::memory::round_up(tight, COPY_ROW_ALIGN as int) % 256 == 0,
        tight <= crate::memory::round_up(tight, COPY_ROW_ALIGN as int) < tight + 256,
{
    crate::memory::lemma_round_up(tight, 256);
}

/// The UV plane has a pair of bytes for every two pixels of a row, and a row for every two rows.
pub proof fn chroma_rows_hold_a_pair_for_two_pixels(c: Bgra2Nv12)
    ensures
        c.uv_row() % 2 == 0,
        c.spec_width() <= c.uv_row() <= c.spec_width() + 1,
        c.spec_height() <= 2 * c.uv_rows() <= c.spec_height() + 1,
{
}

/// A buffer that ends with its last row holds every row, and a shorter one does not; no row needs
/// no buffer.
pub proof fn buffers_may_end_with_their_last_row(
    mapped: Seq<u8>,
    tight: int,
    rows: int,
    padded: int,
)
    requires
        rows > 0,
    ensures
        mapped.len() == (rows - 1) * padded + tight ==> holds_rows(mapped, tight, rows, padded),
        mapped.len() < (rows - 1) * padded + tight ==> !holds_rows(mapped, tight, rows, padded),
        holds_rows(mapped, tight, 0, padded),
{
}

} // verus!
