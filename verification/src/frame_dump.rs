//! One bridge output frame, dumped to a picture for diagnosis.
//!
//! The planes are read back from the GPU, taken apart into samples and written as RGBA. The
//! colour matrix is floating point and runs outside; this module names the file, computes the
//! readback geometry, finds each pixel's samples and packs the pixels.
use vstd::prelude::*;

use crate::convert::padded_row;
use crate::iosurface::{chroma_bit_depth_for_fourcc, NV12_FULL_RANGE_FOURCC, XF20_FOURCC};
use crate::text::{push_decimal, push_hex_digits};

verus! {

/// A byte that a file name shows as it is: printable ASCII, or a space.
pub open spec fn is_printable(b: u8) -> bool {
    0x20 <= b <= 0x7e
}

/// The bytes of a code, the highest first.
pub open spec fn code_bytes(fourcc: u32) -> Seq<u8> {
    seq![
        (fourcc / 0x100_0000) as u8,
        ((fourcc / 0x1_0000) % 0x100) as u8,
        ((fourcc / 0x100) % 0x100) as u8,
        (fourcc % 0x100) as u8,
    ]
}

/// The label of a surface code: its four characters where all are printable, else its number.
pub open spec fn label_of(fourcc: u32) -> Seq<char> {
    let bytes = code_bytes(fourcc);
    if forall|i: int| 0 <= i < 4 ==> is_printable(#[trigger] bytes[i]) {
        Seq::new(4, |i: int| bytes[i] as char)
    } else {
        "0x"@ + crate::text::hex_digits(fourcc as nat, 8)
    }
}

/// The label of a surface code, for file names.
pub fn fourcc_label(fourcc: u32) -> (r: String)
    ensures
        r@ == label_of(fourcc),
{
    let a: u8 = (fourcc / 0x100_0000) as u8;
    let b: u8 = ((fourcc / 0x1_0000) % 0x100) as u8;
    let c: u8 = ((fourcc / 0x100) % 0x100) as u8;
    let d: u8 = (fourcc % 0x100) as u8;
    let ghost bytes = code_bytes(fourcc);
    assert(bytes[0] == a && bytes[1] == b && bytes[2] == c && bytes[3] == d);
    if 0x20 <= a && a <= 0x7e && 0x20 <= b && b <= 0x7e && 0x20 <= c && c <= 0x7e && 0x20 <= d && d
        <= 0x7e {
        let mut s = String::new();
        s.push(a as char);
        s.push(b as char);
        s.push(c as char);
        s.push(d as char);
        assert(s@ =~= Seq::new(4, |i: int| bytes[i] as char));
        s
    } else {
        let mut s = "0x".to_owned();
        push_hex_digits(&mut s, fourcc, 8);
        s
    }
}

/// What a character becomes in a file name: letters, digits and `-_.` stay, white space becomes
/// a dash, all else goes.
pub open spec fn filename_char(c: char) -> Option<char> {
    if ('a' <= c && c <= 'z') || ('A' <= c && c <= 'Z') || ('0' <= c && c <= '9') || c == '-' || c
        == '_' || c == '.' {
        Some(c)
    } else if c == ' ' || c == '\t' || c == '\n' || c == '\r' || c == '\u{c}' {
        Some('-')
    } else {
        None
    }
}

/// A text with every character replaced or dropped as file names need it.
pub open spec fn filename_part(value: Seq<char>) -> Seq<char>
    decreases value.len(),
{
    if value.len() == 0 {
        Seq::empty()
    } else {
        let before = filename_part(value.drop_last());
        match filename_char(value.last()) {
            Some(c) => before.push(c),
            None => before,
        }
    }
}

/// Make a text fit for a file name.
pub fn sanitize_filename_part(value: &str) -> (r: String)
    ensures
        r@ == filename_part(value@),
{
    let mut out = String::new();
    for c in it: value.chars()
        invariant
            it.seq() == value@,
            out@ == filename_part(value@.take(it.index())),
    {
        proof {
            assert(value@.take(it.index() + 1).drop_last() =~= value@.take(it.index()));
        }
        if ('a' <= c && c <= 'z') || ('A' <= c && c <= 'Z') || ('0' <= c && c <= '9') || c == '-'
            || c == '_' || c == '.' {
            out.push(c);
        } else if c == ' ' || c == '\t' || c == '\n' || c == '\r' || c == '\u{c}' {
            out.push('-');
        }
    }
    assert(value@.take(value@.len() as int) =~= value@);
    out
}

/// What is left is fit for a file name, and making it fit again changes nothing.
pub proof fn sanitizing_is_idempotent(value: Seq<char>)
    ensures
        forall|i: int|
            0 <= i < filename_part(value).len() ==> filename_char(
                #[trigger] filename_part(value)[i],
            ) == Some(filename_part(value)[i]),
        filename_part(filename_part(value)) == filename_part(value),
    decreases value.len(),
{
    if value.len() > 0 {
        let rest = value.drop_last();
        sanitizing_is_idempotent(rest);
        let before = filename_part(rest);
        match filename_char(value.last()) {
            Some(c) => {
                assert(before.push(c).drop_last() =~= before);
            },
            None => {},
        }
    }
}

/// The 16-bit sample at `offset`, the low byte first.
pub open spec fn le_sample(bytes: Seq<u8>, offset: int) -> int {
    bytes[offset] + 0x100 * bytes[offset + 1]
}

/// Read a 16-bit sample, the low byte first.
pub fn read_le_u16(bytes: &[u8], offset: usize) -> (r: Result<u16, String>)
    requires
        offset + 2 <= usize::MAX,
    ensures
        match r {
            Ok(v) => offset + 2 <= bytes@.len() && v == le_sample(bytes@, offset as int),
            Err(e) => offset + 2 > bytes@.len() && e@ == "16-bit sample out of range"@,
        },
{
    if offset + 2 > bytes.len() {
        return Err("16-bit sample out of range".to_owned());
    }
    Ok((bytes[offset] as u16) + 0x100 * (bytes[offset + 1] as u16))
}

/// One pixel's samples.
#[derive(Clone, Copy, Debug, PartialEq, Eq, Structural)]
pub struct YuvSample {
    pub y: u32,
    pub cb: u32,
    pub cr: u32,
}

/// The samples of pixel `i` of an 8-bit frame, counted row by row, or what is missing. Four
/// pixels share a chroma pair.
pub open spec fn sample_8bit(y: Seq<u8>, uv: Seq<u8>, width: int, i: int) -> Result<
    YuvSample,
    &'static str,
> {
    let pair = (((i / width) / 2) * (width / 2) + (i % width) / 2) * 2;
    if i >= y.len() {
        Err("Y byte out of range")
    } else if pair >= uv.len() {
        Err("Cb byte out of range")
    } else if pair + 1 >= uv.len() {
        Err("Cr byte out of range")
    } else {
        Ok(YuvSample { y: y[i] as u32, cb: uv[pair] as u32, cr: uv[pair + 1] as u32 })
    }
}

/// The samples of pixel `i` of a 10-bit frame, or what is missing. The ten bits are the upper
/// ones of each 16-bit cell.
pub open spec fn sample_10bit(y: Seq<u8>, uv: Seq<u8>, width: int, i: int) -> Result<
    YuvSample,
    &'static str,
> {
    let pair = (((i / width) / 2) * (width / 2) + (i % width) / 2) * 4;
    if 2 * i + 2 > y.len() || pair + 4 > uv.len() {
        Err("16-bit sample out of range")
    } else {
        Ok(
            YuvSample {
                y: (le_sample(y, 2 * i) / 64) as u32,
                cb: (le_sample(uv, pair) / 64) as u32,
                cr: (le_sample(uv, pair + 2) / 64) as u32,
            },
        )
    }
}

/// The samples of pixel `i`, or what is missing.
pub open spec fn sample_of(y: Seq<u8>, uv: Seq<u8>, width: int, ten_bit: bool, i: int) -> Result<
    YuvSample,
    &'static str,
> {
    if ten_bit {
        sample_10bit(y, uv, width, i)
    } else {
        sample_8bit(y, uv, width, i)
    }
}

/// Is the code one of full-range samples?
pub fn is_full_range(fourcc: u32) -> (r: bool)
    ensures
        r == (fourcc == NV12_FULL_RANGE_FOURCC || fourcc == XF20_FOURCC),
        r == has_full_range(fourcc),
{
    fourcc == NV12_FULL_RANGE_FOURCC || fourcc == XF20_FOURCC
}

/// The samples of every pixel, row by row, from the planes of a 4:2:0 frame. The first pixel
/// whose samples are not all there decides the error.
pub fn yuv420_samples(width: u32, height: u32, fourcc: u32, y: &[u8], uv: &[u8]) -> (r: Result<
    Vec<YuvSample>,
    String,
>)
    requires
        width * height * 4 <= u32::MAX,
    ensures
        crate::iosurface::family(fourcc) is None ==> (r matches Err(e) && e@
            == "unsupported bridge dump fourcc"@),
        crate::iosurface::family(fourcc) is Some ==> match r {
            Ok(samples) => all_found(
                y@,
                uv@,
                width as int,
                height as int,
                crate::iosurface::is_ten_bit(fourcc),
                samples@,
            ),
            Err(e) => some_missing(
                y@,
                uv@,
                width as int,
                height as int,
                crate::iosurface::is_ten_bit(fourcc),
                e@,
            ),
        },
{
    let bit_depth: u8 = match chroma_bit_depth_for_fourcc(fourcc) {
        Some((_, depth)) => depth,
        None => {
            return Err("unsupported bridge dump fourcc".to_owned());
        },
    };
    let mut samples: Vec<YuvSample> = Vec::new();
    let count: u32 = width * height;
    let mut i: u32 = 0;
    while i < count
        invariant
            count == width * height,
            width * height * 4 <= u32::MAX,
            i <= count,
            crate::iosurface::family(fourcc) is Some,
            (bit_depth == 10) == crate::iosurface::is_ten_bit(fourcc),
            samples@.len() == i,
            forall|j: int|
                0 <= j < i ==> sample_of(y@, uv@, width as int, crate::iosurface::is_ten_bit(fourcc), j) == Ok::<
                    YuvSample,
                    &'static str,
                >(#[trigger] samples@[j]),
        decreases count - i,
    {
        proof {
            assert(width > 0) by (nonlinear_arith)
                requires
                    i < width * height,
                    i >= 0,
                    width >= 0,
            ;
        }
        match read_sample(y, uv, width, height, bit_depth, i) {
            Ok(sample) => {
                samples.push(sample);
            },
            Err(e) => {
                proof {
                    let ten = crate::iosurface::is_ten_bit(fourcc);
                    assert forall|j: int| 0 <= j < i implies (
                    #[trigger] sample_of(y@, uv@, width as int, ten, j)) is Ok by {
                        let found = samples@[j];
                    }
                    assert(first_missing(y@, uv@, width as int, ten, i as int, e@));
                    assert(some_missing(y@, uv@, width as int, height as int, ten, e@));
                }
                return Err(e);
            },
        }
        i = i + 1;
    }
    Ok(samples)
}

/// `samples` are the samples of all pixels, row by row.
pub open spec fn all_found(
    y: Seq<u8>,
    uv: Seq<u8>,
    width: int,
    height: int,
    ten_bit: bool,
    samples: Seq<YuvSample>,
) -> bool {
    samples.len() == width * height && forall|i: int|
        0 <= i < width * height ==> sample_of(y, uv, width, ten_bit, i) == Ok::<
            YuvSample,
            &'static str,
        >(#[trigger] samples[i])
}

/// Some pixel's samples are not all there, and what the first such pixel lacks is `e`.
pub open spec fn some_missing(
    y: Seq<u8>,
    uv: Seq<u8>,
    width: int,
    height: int,
    ten_bit: bool,
    e: Seq<char>,
) -> bool {
    exists|i: int| 0 <= i < width * height && #[trigger] first_missing(y, uv, width, ten_bit, i, e)
}

/// Pixel `i` is the first whose samples are not all there, which is reported as `e`.
pub open spec fn first_missing(
    y: Seq<u8>,
    uv: Seq<u8>,
    width: int,
    ten_bit: bool,
    i: int,
    e: Seq<char>,
) -> bool {
    &&& sample_of(y, uv, width, ten_bit, i) matches Err(why) && why@ == e
    &&& forall|j: int| 0 <= j < i ==> (#[trigger] sample_of(y, uv, width, ten_bit, j)) is Ok
}

/// Where the chroma pair of pixel `i` comes in a row-by-row count stays within the frame.
proof fn lemma_pair_in_frame(width: int, height: int, i: int)
    requires
        0 < width,
        0 <= i < width * height,
    ensures
        0 <= ((i / width) / 2) * (width / 2) + (i % width) / 2 <= i,
        i / width < height,
{
    let row = i / width;
    let col = i % width;
    vstd::arithmetic::div_mod::lemma_fundamental_div_mod(i, width);
    assert(row >= 0 && 0 <= col < width);
    assert((row / 2) * (width / 2) <= row * width && 0 <= (row / 2) * (width / 2))
        by (nonlinear_arith)
        requires
            row >= 0,
            width > 0,
            0 <= row / 2 <= row,
            0 <= width / 2 <= width,
    ;
    assert(width * row == row * width) by (nonlinear_arith);
    assert(row < height) by (nonlinear_arith)
        requires
            row * width <= i,
            i < width * height,
            width > 0,
    ;
}

fn read_sample(y: &[u8], uv: &[u8], width: u32, height: u32, bit_depth: u8, i: u32) -> (r: Result<
    YuvSample,
    String,
>)
    requires
        width > 0,
        i < width * height,
        width * height * 4 <= u32::MAX,
    ensures
        match sample_of(y@, uv@, width as int, bit_depth == 10, i as int) {
            Ok(s) => r == Ok::<YuvSample, String>(s),
            Err(why) => r matches Err(e) && e@ == why@,
        },
{
    proof {
        lemma_pair_in_frame(width as int, height as int, i as int);
    }
    let row: u32 = i / width;
    let col: u32 = i % width;
    let ghost pair_index = ((i as int / width as int) / 2) * (width as int / 2) + (i as int
        % width as int) / 2;
    assert(pair_index == (row / 2) * (width / 2) + col / 2);
    assert(0 <= (row / 2) * (width / 2) <= pair_index) by (nonlinear_arith)
        requires
            pair_index == (row / 2) * (width / 2) + col / 2,
    ;
    let pair: usize = ((row / 2) * (width / 2) + col / 2) as usize;
    if bit_depth == 10 {
        let y_idx: usize = i as usize * 2;
        let uv_idx: usize = pair * 4;
        let yy: u16 = match read_le_u16(y, y_idx) {
            Ok(v) => v,
            Err(e) => {
                return Err(e);
            },
        };
        let cb: u16 = match read_le_u16(uv, uv_idx) {
            Ok(v) => v,
            Err(e) => {
                return Err(e);
            },
        };
        let cr: u16 = match read_le_u16(uv, uv_idx + 2) {
            Ok(v) => v,
            Err(e) => {
                return Err(e);
            },
        };
        Ok(YuvSample { y: (yy / 64) as u32, cb: (cb / 64) as u32, cr: (cr / 64) as u32 })
    } else {
        let y_idx: usize = i as usize;
        let uv_idx: usize = pair * 2;
        if y_idx >= y.len() {
            return Err("Y byte out of range".to_owned());
        }
        if uv_idx >= uv.len() {
            return Err("Cb byte out of range".to_owned());
        }
        if uv_idx + 1 >= uv.len() {
            return Err("Cr byte out of range".to_owned());
        }
        Ok(
            YuvSample {
                y: y[y_idx] as u32,
                cb: uv[uv_idx] as u32,
                cr: uv[uv_idx + 1] as u32,
            },
        )
    }
}

/// The bytes of RGBA pixels, row by row, all opaque.
pub open spec fn opaque_pixels(rgb: Seq<[u8; 3]>) -> Seq<u8>
    decreases rgb.len(),
{
    if rgb.len() == 0 {
        Seq::empty()
    } else {
        opaque_pixels(rgb.drop_last()) + seq![rgb.last()[0], rgb.last()[1], rgb.last()[2], 255u8]
    }
}

/// Pack pixels into RGBA bytes with full opacity.
pub fn pack_rgba(rgb: &Vec<[u8; 3]>) -> (out: Vec<u8>)
    ensures
        out@ == opaque_pixels(rgb@),
        out@.len() == 4 * rgb@.len(),
{
    let mut out: Vec<u8> = Vec::new();
    let mut i: usize = 0;
    while i < rgb.len()
        invariant
            i <= rgb@.len(),
            out@ == opaque_pixels(rgb@.take(i as int)),
            out@.len() == 4 * i,
        decreases rgb@.len() - i,
    {
        let ghost before = out@;
        let p = rgb[i];
        out.push(p[0]);
        out.push(p[1]);
        out.push(p[2]);
        out.push(255);
        proof {
            let next = rgb@.take(i + 1);
            assert(next.drop_last() =~= rgb@.take(i as int));
            assert(out@ =~= before + seq![p[0], p[1], p[2], 255u8]);
        }
        i = i + 1;
    }
    assert(rgb@.take(i as int) =~= rgb@);
    out
}

/// Round `tight_row` up to the alignment of buffer rows.
pub fn padded_copy_row(tight_row: u32) -> (r: u32)
    requires
        crate::memory::round_up(tight_row as int, 256) <= u32::MAX,
    ensures
        r == crate::memory::round_up(tight_row as int, 256),
{
    padded_row(tight_row)
}

/// The readback of a dump: tight and padded row bytes of both planes.
#[derive(Clone, Copy, Debug, PartialEq, Eq, Structural)]
pub struct DumpGeometry {
    pub chroma_w: u32,
    pub chroma_h: u32,
    pub y_tight_row: u32,
    pub uv_tight_row: u32,
    pub y_padded_row: u32,
    pub uv_padded_row: u32,
}

/// Bytes per luma element of a dumped surface.
pub open spec fn luma_bytes(fourcc: u32) -> int {
    if crate::iosurface::is_ten_bit(fourcc) {
        2
    } else {
        1
    }
}

/// The readback of a frame of the given code.
pub fn dump_geometry(width: u32, height: u32, fourcc: u32) -> (r: Result<DumpGeometry, String>)
    requires
        crate::iosurface::family(fourcc) is Some && width * luma_bytes(fourcc) <= u32::MAX
            ==> crate::memory::round_up(width * luma_bytes(fourcc), 256) <= u32::MAX,
    ensures
        crate::iosurface::family(fourcc) is None ==> (r matches Err(e) && e@
            == "unsupported bridge dump fourcc"@),
        crate::iosurface::family(fourcc) is Some ==> {
            let y_row = width * luma_bytes(fourcc);
            let uv_row = (width as int / 2) * (2 * luma_bytes(fourcc));
            if y_row > u32::MAX {
                r matches Err(e) && e@ == "Y row byte count overflow"@
            } else {
                r == Ok::<DumpGeometry, String>(
                    DumpGeometry {
                        chroma_w: width / 2,
                        chroma_h: height / 2,
                        y_tight_row: y_row as u32,
                        uv_tight_row: uv_row as u32,
                        y_padded_row: crate::memory::round_up(y_row, 256) as u32,
                        uv_padded_row: crate::memory::round_up(uv_row, 256) as u32,
                    },
                )
            }
        },
        r matches Ok(g) ==> reads_back(width, height, fourcc, g),
        r is Ok <==> crate::iosurface::family(fourcc) is Some && width * luma_bytes(fourcc)
            <= u32::MAX,
{
    let bit_depth: u8 = match chroma_bit_depth_for_fourcc(fourcc) {
        Some((_, depth)) => depth,
        None => {
            return Err("unsupported bridge dump fourcc".to_owned());
        },
    };
    let y_bpe: u32 = if bit_depth == 10 {
        2
    } else {
        1
    };
    let uv_bpe: u32 = if bit_depth == 10 {
        4
    } else {
        2
    };
    let chroma_w: u32 = width / 2;
    let chroma_h: u32 = height / 2;
    let y_tight_row: u32 = match width.checked_mul(y_bpe) {
        Some(row) => row,
        None => {
            return Err("Y row byte count overflow".to_owned());
        },
    };
    assert(chroma_w * uv_bpe <= y_tight_row);
    let uv_tight_row: u32 = match chroma_w.checked_mul(uv_bpe) {
        Some(row) => row,
        None => {
            return Err("UV row byte count overflow".to_owned());
        },
    };
    proof {
        crate::memory::lemma_round_up(y_tight_row as int, 256);
        crate::memory::lemma_round_up(uv_tight_row as int, 256);
    }
    Ok(
        DumpGeometry {
            chroma_w,
            chroma_h,
            y_tight_row,
            uv_tight_row,
            y_padded_row: padded_copy_row(y_tight_row),
            uv_padded_row: padded_copy_row(uv_tight_row),
        },
    )
}

/// The dump of one frame per bridge.
pub struct BridgeFrameDump {
    label: Option<String>,
    saved: bool,
}

/// The name of a dumped frame's file.
pub open spec fn dump_name(
    label: Option<Seq<char>>,
    width: u32,
    height: u32,
    fourcc: u32,
    pid: u32,
) -> Seq<char> {
    "bgra-bridge-"@ + (match label {
        Some(l) => l,
        None => "frame"@,
    }) + "-"@ + crate::text::decimal(width as nat) + "x"@ + crate::text::decimal(height as nat)
        + "-"@ + label_of(fourcc) + "-pid"@ + crate::text::decimal(pid as nat) + ".png"@
}

impl BridgeFrameDump {
    /// The label in the file name, if one was given.
    pub closed spec fn label(self) -> Option<Seq<char>> {
        match self.label {
            Some(l) => Some(l@),
            None => None,
        }
    }

    /// A frame has been dumped already.
    pub closed spec fn saved(self) -> bool {
        self.saved
    }

    /// Dump only where a directory was configured. The label is made fit for a file name; an
    /// empty one counts as none.
    pub fn from_env(dir_is_set: bool, label: Option<String>) -> (r: Option<Self>)
        ensures
            r is Some == dir_is_set,
            r matches Some(d) ==> !d.saved() && d.label() == match label {
                Some(l) => if filename_part(l@).len() == 0 {
                    None
                } else {
                    Some(filename_part(l@))
                },
                None => None,
            },
            r matches Some(d) ==> d.label() == kept_label(
                match label {
                    Some(l) => Some(l@),
                    None => None,
                },
            ),
    {
        if !dir_is_set {
            return None;
        }
        let label = match label {
            Some(l) => {
                let part = sanitize_filename_part(l.as_str());
                if part.as_str().is_empty() {
                    None
                } else {
                    Some(part)
                }
            },
            None => None,
        };
        Some(BridgeFrameDump { label, saved: false })
    }

    /// Is this frame to be dumped? Only the first one is.
    pub fn maybe_dump(&mut self) -> (r: bool)
        ensures
            r == !old(self).saved(),
            final(self).saved(),
            final(self).label() == old(self).label(),
    {
        if self.saved {
            return false;
        }
        self.saved = true;
        true
    }

    /// The file name of the dump.
    pub fn file_name(&self, width: u32, height: u32, fourcc: u32, pid: u32) -> (r: String)
        ensures
            r@ == dump_name(self.label(), width, height, fourcc, pid),
    {
        let mut s = "bgra-bridge-".to_owned();
        match &self.label {
            Some(l) => s.append(l.as_str()),
            None => s.append("frame"),
        }
        s.append("-");
        push_decimal(&mut s, width as u64);
        s.append("x");
        push_decimal(&mut s, height as u64);
        s.append("-");
        s.append(fourcc_label(fourcc).as_str());
        s.append("-pid");
        push_decimal(&mut s, pid as u64);
        s.append(".png");
        s
    }
}

proof fn lemma_pixel_place(width: int, col: int, row: int)
    requires
        0 <= col < width,
        0 <= row,
    ensures
        (row * width + col) / width == row,
        (row * width + col) % width == col,
{
    vstd::arithmetic::div_mod::lemma_fundamental_div_mod_converse(
        row * width + col,
        width,
        row,
        col,
    );
}

/// The pixel in column `col` of row `row` has its own luma, and shares its chroma with the other
/// pixels of its block of two by two: the pair in column `col / 2` of row `row / 2` of the chroma
/// plane, first the blue and then the red difference.
pub proof fn pixels_find_their_samples(
    y: Seq<u8>,
    uv: Seq<u8>,
    width: int,
    col: int,
    row: int,
)
    requires
        0 <= col < width,
        0 <= row,
    ensures
        ({
            let i = row * width + col;
            let pair = (row / 2) * (width / 2) + col / 2;
            match sample_of(y, uv, width, false, i) {
                Ok(s) => {
                    &&& i < y.len() && 2 * pair + 1 < uv.len()
                    &&& s.y == y[i] && s.cb == uv[2 * pair] && s.cr == uv[2 * pair + 1]
                },
                Err(_) => i >= y.len() || 2 * pair + 1 >= uv.len(),
            }
        }),
        ({
            let i = row * width + col;
            let pair = (row / 2) * (width / 2) + col / 2;
            match sample_of(y, uv, width, true, i) {
                Ok(s) => {
                    &&& 2 * i + 1 < y.len() && 4 * pair + 3 < uv.len()
                    &&& s.y == y[2 * i] / 64 + 4 * y[2 * i + 1]
                    &&& s.cb == uv[4 * pair] / 64 + 4 * uv[4 * pair + 1]
                    &&& s.cr == uv[4 * pair + 2] / 64 + 4 * uv[4 * pair + 3]
                    &&& s.y < 1024 && s.cb < 1024 && s.cr < 1024
                },
                Err(_) => 2 * i + 1 >= y.len() || 4 * pair + 3 >= uv.len(),
            }
        }),
{
    lemma_pixel_place(width, col, row);
    assert(0 <= row * width) by (nonlinear_arith)
        requires
            0 <= row,
            0 < width,
    ;
    assert(0 <= (row / 2) * (width / 2)) by (nonlinear_arith)
        requires
            0 <= row / 2,
            0 <= width / 2,
    ;
}

/// Every pixel is packed as its red, green and blue, in that order, and full opacity.
pub proof fn pixels_are_packed_in_order(rgb: Seq<[u8; 3]>, i: int)
    requires
        0 <= i < rgb.len(),
    ensures
        opaque_pixels(rgb).len() == 4 * rgb.len(),
        opaque_pixels(rgb)[4 * i] == rgb[i]@[0],
        opaque_pixels(rgb)[4 * i + 1] == rgb[i]@[1],
        opaque_pixels(rgb)[4 * i + 2] == rgb[i]@[2],
        opaque_pixels(rgb)[4 * i + 3] == 255,
    decreases rgb.len(),
{
    let front = rgb.drop_last();
    lemma_opaque_len(front);
    if i < front.len() {
        pixels_are_packed_in_order(front, i);
    }
}

proof fn lemma_opaque_len(rgb: Seq<[u8; 3]>)
    ensures
        opaque_pixels(rgb).len() == 4 * rgb.len(),
    decreases rgb.len(),
{
    if rgb.len() > 0 {
        lemma_opaque_len(rgb.drop_last());
    }
}

/// What a file name is made of never leaves the directory or confuses a shell: letters, digits,
/// dashes, underscores and dots. Those are kept as they are, white space becomes a dash, and a
/// text of nothing else is kept whole.
pub proof fn file_names_are_plain(c: char)
    ensures
        filename_char(c) matches Some(d) ==> ('a' <= d <= 'z' || 'A' <= d <= 'Z' || '0' <= d <= '9'
            || d == '-' || d == '_' || d == '.'),
        'a' <= c <= 'z' || 'A' <= c <= 'Z' || '0' <= c <= '9' ==> filename_char(c) == Some(c),
        c == '-' || c == '_' || c == '.' ==> filename_char(c) == Some(c),
        filename_char(c) matches Some(d) ==> d == c || d == '-',
        c == ' ' || c == '\t' || c == '\n' ==> filename_char(c) == Some('-'),
        c == '/' || c == '\\' ==> filename_char(c) is None,
{
}

/// Making two texts fit one after the other is making both fit together.
pub proof fn texts_are_made_fit_piece_by_piece(a: Seq<char>, b: Seq<char>)
    ensures
        filename_part(a + b) == filename_part(a) + filename_part(b),
    decreases b.len(),
{
    if b.len() == 0 {
        assert(a + b == a);
        assert(filename_part(b) == Seq::<char>::empty());
    } else {
        texts_are_made_fit_piece_by_piece(a, b.drop_last());
        assert((a + b).drop_last() == a + b.drop_last());
        assert((a + b).last() == b.last());
    }
}

/// A code of four printable characters is labelled by them, the one in its highest byte first.
pub proof fn printable_codes_are_labelled_by_their_characters(a: u8, b: u8, c: u8, d: u8)
    requires
        0x20 <= a <= 0x7e,
        0x20 <= b <= 0x7e,
        0x20 <= c <= 0x7e,
        0x20 <= d <= 0x7e,
    ensures
        label_of((0x100_0000 * a + 0x1_0000 * b + 0x100 * c + d) as u32) == seq![
            a as char,
            b as char,
            c as char,
            d as char,
        ],
{
    let code = (0x100_0000 * a + 0x1_0000 * b + 0x100 * c + d) as u32;
    let bytes = code_bytes(code);
    assert(bytes[0] == a && bytes[1] == b && bytes[2] == c && bytes[3] == d);
    assert(label_of(code) =~= seq![a as char, b as char, c as char, d as char]);
}

/// Whether a code stands for full range.
pub open spec fn has_full_range(fourcc: u32) -> bool {
    fourcc == NV12_FULL_RANGE_FOURCC || fourcc == XF20_FOURCC
}

/// Full range is what the two 4:2:0 codes that spell an `f` have.
pub proof fn full_range_is_spelled_with_an_f(fourcc: u32)
    ensures
        has_full_range(fourcc) <==> fourcc == crate::iosurface::surface_code('4', '2', '0', 'f')
            || fourcc == crate::iosurface::surface_code('x', 'f', '2', '0'),
{
    crate::iosurface::surface_constants_spell_their_names();
}

/// A readback has room for both planes of the surface: its rows hold the elements of a row, and
/// the padded ones are the shortest of whole 256 bytes.
pub open spec fn reads_back(width: u32, height: u32, fourcc: u32, g: DumpGeometry) -> bool {
    let (luma, chroma) = crate::iosurface::planes_of(width, height, fourcc);
    &&& (g.chroma_w, g.chroma_h) == (chroma.width, chroma.height)
    &&& g.y_tight_row == luma.width * luma.bytes_per_element
    &&& g.uv_tight_row == chroma.width * chroma.bytes_per_element
    &&& g.y_padded_row % 256 == 0 && g.y_tight_row <= g.y_padded_row < g.y_tight_row + 256
    &&& g.uv_padded_row % 256 == 0 && g.uv_tight_row <= g.uv_padded_row < g.uv_tight_row + 256
}

/// The label that file names carry.
pub open spec fn kept_label(label: Option<Seq<char>>) -> Option<Seq<char>> {
    match label {
        Some(l) => if filename_part(l).len() == 0 {
            None
        } else {
            Some(filename_part(l))
        },
        None => None,
    }
}

/// A label that was kept is kept as it is, a missing or empty one is none, and none is empty.
pub proof fn kept_labels_stay(label: Option<Seq<char>>)
    ensures
        kept_label(kept_label(label)) == kept_label(label),
        kept_label(None) is None,
        kept_label(Some(Seq::empty())) is None,
        kept_label(label) matches Some(l) ==> l.len() > 0 && label is Some && l
            == filename_part(label->0),
{
    if let Some(l) = label {
        sanitizing_is_idempotent(l);
    }
}

/// A file name begins with the kind of the dump and its label, tells the extent and the code of
/// the frame in this order, and ends with the process and the kind of the file.
pub proof fn file_names_tell_what_they_hold(
    label: Option<Seq<char>>,
    width: u32,
    height: u32,
    fourcc: u32,
    pid: u32,
)
    ensures
        ({
            let name = dump_name(label, width, height, fourcc, pid);
            let head = "bgra-bridge-"@ + (match label {
                Some(l) => l,
                None => "frame"@,
            });
            let extent = crate::text::decimal(width as nat) + "x"@ + crate::text::decimal(
                height as nat,
            );
            let tail = "-pid"@ + crate::text::decimal(pid as nat) + ".png"@;
            &&& name.take(head.len() as int) == head
            &&& name.skip(head.len() as int).take(1) == "-"@
            &&& name.skip(head.len() as int + 1).take(extent.len() as int) == extent
            &&& name.skip(head.len() as int + extent.len() + 2) == label_of(fourcc) + tail
        }),
{
    reveal_strlit("-");
    let name = dump_name(label, width, height, fourcc, pid);
    let head = "bgra-bridge-"@ + (match label {
        Some(l) => l,
        None => "frame"@,
    });
    let extent = crate::text::decimal(width as nat) + "x"@ + crate::text::decimal(height as nat);
    let tail = "-pid"@ + crate::text::decimal(pid as nat) + ".png"@;
    assert(name =~= head + "-"@ + extent + "-"@ + (label_of(fourcc) + tail));
    assert(name.take(head.len() as int) =~= head);
    assert(name.skip(head.len() as int).take(1) =~= "-"@);
    assert(name.skip(head.len() as int + 1).take(extent.len() as int) =~= extent);
    assert(name.skip(head.len() as int + extent.len() + 2) =~= label_of(fourcc) + tail);
}

/// Every pixel of the frame is sampled, and none besides; where one cannot be, the samples are not
/// all there.
pub proof fn every_pixel_is_sampled(
    y: Seq<u8>,
    uv: Seq<u8>,
    width: int,
    height: int,
    ten_bit: bool,
    samples: Seq<YuvSample>,
    why: Seq<char>,
    row: int,
    column: int,
)
    requires
        0 <= row < height,
        0 <= column < width,
    ensures
        all_found(y, uv, width, height, ten_bit, samples) ==> ({
            let at = row * width + column;
            &&& 0 <= at < samples.len()
            &&& samples.len() == width * height
            &&& sample_of(y, uv, width, ten_bit, at) == Ok::<YuvSample, &'static str>(samples[at])
        }),
        !(all_found(y, uv, width, height, ten_bit, samples) && some_missing(
            y,
            uv,
            width,
            height,
            ten_bit,
            why,
        )),
{
    assert(0 <= row * width + column < width * height) by (nonlinear_arith)
        requires
            0 <= row < height,
            0 <= column < width,
    ;
    if all_found(y, uv, width, height, ten_bit, samples) {
        let found = samples[row * width + column];
        if some_missing(y, uv, width, height, ten_bit, why) {
            let i = choose|i: int|
                0 <= i < width * height && #[trigger] first_missing(y, uv, width, ten_bit, i, why);
            let other = samples[i];
        }
    }
}

} // verus!
