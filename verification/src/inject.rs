//! What every input backend of the host shares.
use vstd::prelude::*;

use crate::protocol::{ClientCursorPacket, InputEvent};

verus! {

/// Why input could not be applied.
#[derive(Debug)]
pub enum InjectError {
    /// The input device cannot be opened. A one-time privileged setup can mend that.
    DeviceUnavailable(String),
    /// The backend could not be set up.
    Init(String),
    /// The backend refused an event.
    Inject(String),
}

impl InjectError {
    /// The error as text.
    pub open spec fn text(&self) -> Seq<char> {
        match self {
            InjectError::DeviceUnavailable(what) => "input device unavailable: "@ + what@,
            InjectError::Init(what) => "backend init: "@ + what@,
            InjectError::Inject(what) => "backend inject: "@ + what@,
        }
    }

    /// The error as text.
    pub fn message(&self) -> (r: String)
        ensures
            r@ == self.text(),
    {
        match self {
            InjectError::DeviceUnavailable(what) => {
                let mut s: String = "input device unavailable: ".to_owned();
                s.append(what.as_str());
                s
            },
            InjectError::Init(what) => {
                let mut s: String = "backend init: ".to_owned();
                s.append(what.as_str());
                s
            },
            InjectError::Inject(what) => {
                let mut s: String = "backend inject: ".to_owned();
                s.append(what.as_str());
                s
            },
        }
    }
}

/// Applies a client's input to the host. Events arrive on a reliable stream, pointer positions as
/// datagrams that may be reordered.
pub trait Injector: Send {
    /// Apply an input event.
    fn inject(&mut self, evt: &InputEvent) -> Result<(), InjectError>;

    /// Apply a pointer position, unless a later one has been applied.
    fn inject_cursor(&mut self, cursor: &ClientCursorPacket) -> Result<(), InjectError>;

    /// Learn the size of the display, for backends that place the pointer by pixel.
    fn set_display_size(&mut self, _width: u32, _height: u32) {
    }
}

/// The backend of last resort: takes everything and does nothing.
pub struct NoopInjector;

impl Injector for NoopInjector {
    fn inject(&mut self, evt: &InputEvent) -> (r: Result<(), InjectError>)
        ensures
            r is Ok,
    {
        Ok(())
    }

    fn inject_cursor(&mut self, cursor: &ClientCursorPacket) -> (r: Result<(), InjectError>)
        ensures
            r is Ok,
    {
        Ok(())
    }
}

/// The furthest that one relative event moves the pointer, on either axis.
pub const MAX_REL_DELTA_PX: i32 = 1000;

/// A movement kept within what one event may move the pointer.
pub fn clamp_relative_delta(dx: i16, dy: i16) -> (r: (i32, i32))
    ensures
        r.0 == crate::single::clamped(dx as int, -MAX_REL_DELTA_PX as int, MAX_REL_DELTA_PX as int),
        r.1 == crate::single::clamped(dy as int, -MAX_REL_DELTA_PX as int, MAX_REL_DELTA_PX as int),
{
    (clamp_delta(dx), clamp_delta(dy))
}

fn clamp_delta(d: i16) -> (r: i32)
    ensures
        r == crate::single::clamped(d as int, -MAX_REL_DELTA_PX as int, MAX_REL_DELTA_PX as int),
{
    let v: i32 = d as i32;
    if v < -MAX_REL_DELTA_PX {
        -MAX_REL_DELTA_PX
    } else if v > MAX_REL_DELTA_PX {
        MAX_REL_DELTA_PX
    } else {
        v
    }
}

/// A position is stale if its number lies in the half of the circle behind the last one.
pub open spec fn is_stale(seq: u32, last: Option<u32>) -> bool {
    match last {
        Some(l) => (seq - l) % 0x1_0000_0000 >= 0x7fff_ffff,
        None => false,
    }
}

/// Whether a pointer position arrived behind a later one.
pub fn is_out_of_order(seq: u32, last: Option<u32>) -> (r: bool)
    ensures
        r == is_stale(seq, last),
{
    match last {
        Some(l) => {
            seq.wrapping_sub(l) >= 0x7fff_ffff
        },
        None => false,
    }
}

/// Once a position was applied, none of the nearly half of all numbers before it is; the same
/// position again is, and so are the nearly half of all numbers behind it.
pub proof fn only_later_positions_are_applied(last: u32, seq: u32)
    ensures
        !is_stale(last, Some(last)),
        last < seq < last + 0x7fff_ffff ==> !is_stale(seq, Some(last)),
        last - 0x7fff_ffff <= seq < last ==> is_stale(seq, Some(last)),
{
    if last < seq < last + 0x7fff_ffff {
        vstd::arithmetic::div_mod::lemma_small_mod((seq - last) as nat, 0x1_0000_0000);
    }
    if last - 0x7fff_ffff <= seq < last {
        vstd::arithmetic::div_mod::lemma_mod_add_multiples_vanish(seq - last, 0x1_0000_0000);
    }
}

/// The size of a display in points, as the system reports it, unless it is degenerate or beyond
/// 32 bits.
pub fn main_display_point_dims(w: usize, h: usize) -> (r: Option<(u32, u32)>)
    ensures
        r == (if 0 < w <= u32::MAX && 0 < h <= u32::MAX {
            Some((w as u32, h as u32))
        } else {
            None
        }),
        r == display_points(w, h),
{
    if w == 0 || h == 0 {
        return None;
    }
    if w > u32::MAX as usize || h > u32::MAX as usize {
        return None;
    }
    Some((w as u32, h as u32))
}

/// The size against which normalised coordinates are turned into positions. The pointer moves in
/// points, so the display's size in points is preferred to the captured size in pixels.
pub fn resolve_injection_dims(
    capture_px: (u32, u32),
    queried_points: Option<(u32, u32)>,
) -> (r: (u32, u32))
    ensures
        r == (match queried_points {
            Some((w, h)) => if w > 0 && h > 0 {
                (w, h)
            } else {
                capture_px
            },
            None => capture_px,
        }),
        r == injection_dims(capture_px, queried_points),
{
    match queried_points {
        Some((w, h)) => {
            if w > 0 && h > 0 {
                (w, h)
            } else {
                capture_px
            }
        },
        None => capture_px,
    }
}

/// An error as text ends with what the system said, and tells the three kinds apart.
pub proof fn errors_show_what_the_system_said(e: &InjectError)
    ensures
        match e {
            InjectError::DeviceUnavailable(what) => e.text().len() >= what@.len() && e.text().skip(
                e.text().len() - what@.len(),
            ) == what@ && e.text()[0] == 'i',
            InjectError::Init(what) => e.text().len() >= what@.len() && e.text().skip(
                e.text().len() - what@.len(),
            ) == what@ && e.text()[8] == 'i' && e.text()[10] == 'i',
            InjectError::Inject(what) => e.text().len() >= what@.len() && e.text().skip(
                e.text().len() - what@.len(),
            ) == what@ && e.text()[8] == 'i' && e.text()[10] == 'j',
        },
{
    reveal_strlit("input device unavailable: ");
    reveal_strlit("backend init: ");
    reveal_strlit("backend inject: ");
    match e {
        InjectError::DeviceUnavailable(what) => {
            assert(e.text().skip(e.text().len() - what@.len()) =~= what@);
        },
        InjectError::Init(what) => {
            assert(e.text().skip(e.text().len() - what@.len()) =~= what@);
        },
        InjectError::Inject(what) => {
            assert(e.text().skip(e.text().len() - what@.len()) =~= what@);
        },
    }
}

/// Of two positions whose numbers do not lie just half of all numbers apart exactly one is later:
/// the one that is not stale behind the other. Which one it is does not change when both move on alike.
pub proof fn one_of_two_positions_is_later(a: u32, b: u32, step: u32)
    requires
        a != b,
        (a - b) % 0x1_0000_0000 != 0x7fff_ffff,
        (a - b) % 0x1_0000_0000 != 0x8000_0000,
        (a - b) % 0x1_0000_0000 != 0x8000_0001,
    ensures
        is_stale(a, Some(b)) != is_stale(b, Some(a)),
        ({
            let a2 = ((a + step) % 0x1_0000_0000) as u32;
            let b2 = ((b + step) % 0x1_0000_0000) as u32;
            is_stale(a2, Some(b2)) == is_stale(a, Some(b))
        }),
        !is_stale(a, None),
{
    let m: int = 0x1_0000_0000;
    let a2 = (a + step) % m;
    let b2 = (b + step) % m;
    assert((b - a) % m == m - (a - b) % m);
    assert((a2 - b2) % m == (a - b) % m);
}

/// The size of the main display in points, if it has one.
pub open spec fn display_points(w: usize, h: usize) -> Option<(u32, u32)> {
    if 0 < w <= u32::MAX && 0 < h <= u32::MAX {
        Some((w as u32, h as u32))
    } else {
        None
    }
}

/// The size that pointer positions are scaled to.
pub open spec fn injection_dims(capture_px: (u32, u32), queried_points: Option<(u32, u32)>) -> (
    u32,
    u32,
) {
    match queried_points {
        Some((w, h)) => if w > 0 && h > 0 {
            (w, h)
        } else {
            capture_px
        },
        None => capture_px,
    }
}

/// The size of the display goes before that of the capture wherever it is known, and without an
/// extent it is not known.
pub proof fn the_display_goes_before_the_capture(capture_px: (u32, u32), w: usize, h: usize)
    ensures
        0 < w <= u32::MAX && 0 < h <= u32::MAX ==> ({
            let d = injection_dims(capture_px, display_points(w, h));
            d.0 == w && d.1 == h
        }),
        w == 0 || h == 0 || w > u32::MAX || h > u32::MAX ==> injection_dims(
            capture_px,
            display_points(w, h),
        ) == capture_px,
        display_points(w, h) is None <==> w == 0 || h == 0 || w > u32::MAX || h > u32::MAX,
        injection_dims(capture_px, Some((0u32, h as u32))) == capture_px,
        injection_dims(capture_px, Some((w as u32, 0u32))) == capture_px,
        injection_dims(capture_px, None) == capture_px,
{
}

} // verus!
