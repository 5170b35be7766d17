//! GDI (`BitBlt`) screen capture, the fallback for Windows machines whose
//! driver cannot do Windows Graphics Capture. It works on any driver but polls
//! on a timer; a screen that did not change since the last poll yields no frame.

use vstd::prelude::*;

use super::{frame_unchanged, CaptureError, FramePacer, RawFrame};
use crate::text::{concat, concat3, decimal_of};

verus! {

/// A rectangle on the virtual screen, as the system reports it.
#[derive(Debug, Clone, Copy, PartialEq, Eq, Structural)]
pub struct ScreenRect {
    pub left: i32,
    pub top: i32,
    pub right: i32,
    pub bottom: i32,
}

impl ScreenRect {
    /// Its extents can be represented.
    pub open spec fn measurable(self) -> bool {
        &&& i32::MIN <= self.right - self.left <= i32::MAX
        &&& i32::MIN <= self.bottom - self.top <= i32::MAX
    }

    /// Width and height, zero where an edge lies on the wrong side.
    pub fn size(&self) -> (r: (u32, u32))
        requires
            self.measurable(),
        ensures
            r.0 == crate::arith::monus(self.right as int, self.left as int),
            r.1 == crate::arith::monus(self.bottom as int, self.top as int),
    {
        let w: i32 = self.right - self.left;
        let h: i32 = self.bottom - self.top;
        (non_negative(w), non_negative(h))
    }
}

fn non_negative(x: i32) -> (r: u32)
    ensures
        r == crate::arith::max(x as int, 0),
{
    if x < 0 {
        0
    } else {
        x as u32
    }
}

/// A GDI object that the set-up of a capture creates, in that order.
#[derive(Debug, Clone, Copy, PartialEq, Eq, Structural)]
pub enum GdiObject {
    ScreenDc,
    MemoryDc,
    Bitmap,
    Selection,
}

/// The objects created before `failed`.
pub open spec fn created_before(failed: GdiObject) -> Seq<GdiObject> {
    match failed {
        GdiObject::ScreenDc => seq![],
        GdiObject::MemoryDc => seq![GdiObject::ScreenDc],
        GdiObject::Bitmap => seq![GdiObject::ScreenDc, GdiObject::MemoryDc],
        GdiObject::Selection => seq![
            GdiObject::ScreenDc,
            GdiObject::MemoryDc,
            GdiObject::Bitmap,
        ],
    }
}

/// What to release, and in which order, when `failed` could not be created:
/// everything created before it, the latest first.
pub fn release_order(failed: GdiObject) -> (r: Vec<GdiObject>)
    ensures
        r@ == created_before(failed).reverse(),
{
    let mut out: Vec<GdiObject> = Vec::new();
    if failed == GdiObject::Selection {
        out.push(GdiObject::Bitmap);
    }
    if failed == GdiObject::Selection || failed == GdiObject::Bitmap {
        out.push(GdiObject::MemoryDc);
    }
    if failed != GdiObject::ScreenDc {
        out.push(GdiObject::ScreenDc);
    }
    assert(out@ =~= created_before(failed).reverse());
    out
}

/// The error for an object that could not be created; `detail` is the system's
/// own text, which only the bitmap comes with.
pub fn setup_error(failed: GdiObject, detail: &str) -> (r: CaptureError)
    ensures
        r matches CaptureError::Backend(text) && text@ == match failed {
            GdiObject::ScreenDc => "GetDC failed"@,
            GdiObject::MemoryDc => "CreateCompatibleDC failed"@,
            GdiObject::Bitmap => "CreateDIBSection: "@ + detail@,
            GdiObject::Selection => "SelectObject failed"@,
        },
{
    CaptureError::Backend(
        match failed {
            GdiObject::ScreenDc => String::from_str("GetDC failed"),
            GdiObject::MemoryDc => String::from_str("CreateCompatibleDC failed"),
            GdiObject::Bitmap => concat("CreateDIBSection: ", detail),
            GdiObject::Selection => String::from_str("SelectObject failed"),
        },
    )
}

/// The error for a failed `BitBlt`.
pub fn blit_error(detail: &str) -> (r: CaptureError)
    ensures
        r matches CaptureError::Backend(text) && text@ == "BitBlt: "@ + detail@,
{
    CaptureError::Backend(concat("BitBlt: ", detail))
}

/// The captured region and what is needed to tell one frame from the next.
#[derive(Debug)]
pub struct GdiSource {
    /// Top-left corner on the virtual screen.
    pub origin: (i32, i32),
    pub width: u32,
    pub height: u32,
    pub pacer: FramePacer,
    pub prev: Option<Vec<u8>>,
}

impl GdiSource {
    /// A region of even dimensions (4:2:0 chroma needs them) that fits a bitmap.
    pub open spec fn wf(self) -> bool {
        &&& self.width % 2 == 0
        &&& self.height % 2 == 0
        &&& self.width <= i32::MAX
        &&& self.height <= i32::MAX
    }

    /// Bytes of one captured image.
    pub open spec fn image_len(self) -> int {
        self.width * self.height * 4
    }

    /// The region of display `display_id`, or of the primary screen (of size
    /// `screen`) where none was asked for. `monitor` is the rectangle that the
    /// system reports for that display, `None` where it knows no such display.
    /// Odd dimensions lose their last column or row.
    pub fn new(
        display_id: Option<u32>,
        fps: u32,
        screen: (i32, i32),
        monitor: Option<ScreenRect>,
        now: u64,
    ) -> (r: Result<Self, CaptureError>)
        requires
            display_id is Some ==> (monitor matches Some(rect) ==> rect.measurable()),
        ensures
            match r {
                Ok(source) => {
                    &&& source.wf()
                    &&& source.prev is None
                    &&& source.pacer == (FramePacer {
                        next_tick: now,
                        interval: super::frame_interval(fps) as u64,
                    })
                    &&& match display_id {
                        None => {
                            &&& source.origin == (0i32, 0i32)
                            &&& source.width == crate::arith::even(crate::arith::max(screen.0 as int, 0))
                            &&& source.height == crate::arith::even(crate::arith::max(screen.1 as int, 0))
                        },
                        Some(_) => {
                            &&& monitor matches Some(rect)
                            &&& source.origin == (rect.left, rect.top)
                            &&& source.width == crate::arith::even(
                                crate::arith::monus(rect.right as int, rect.left as int),
                            )
                            &&& source.height == crate::arith::even(
                                crate::arith::monus(rect.bottom as int, rect.top as int),
                            )
                        },
                    }
                },
                Err(CaptureError::Backend(text)) => {
                    &&& display_id matches Some(id)
                    &&& monitor is None
                    &&& text@ == "display "@ + crate::text::decimal(id as nat) + " not found"@
                },
                Err(_) => false,
            },
    {
        let (origin, size): ((i32, i32), (u32, u32)) = match display_id {
            None => ((0, 0), (non_negative(screen.0), non_negative(screen.1))),
            Some(id) => match monitor {
                Some(rect) => ((rect.left, rect.top), rect.size()),
                None => {
                    let number: String = decimal_of(id as u64);
                    return Err(
                        CaptureError::Backend(
                            concat3("display ", number.as_str(), " not found"),
                        ),
                    );
                },
            },
        };
        Ok(
            GdiSource {
                origin,
                width: size.0 - size.0 % 2,
                height: size.1 - size.1 % 2,
                pacer: FramePacer::new(fps, now),
                prev: None,
            },
        )
    }

    /// Width and height of the bitmap: the height is negative, which makes its
    /// rows run from top to bottom.
    pub fn bitmap_size(&self) -> (r: (i32, i32))
        requires
            self.wf(),
        ensures
            r.0 == self.width,
            r.1 == -self.height,
    {
        (self.width as i32, -(self.height as i32))
    }

    /// Takes in a freshly captured image. One that equals the last frame yields
    /// nothing.
    pub fn accept(&mut self, pixels: &[u8], ts: u64) -> (r: Option<RawFrame>)
        requires
            old(self).wf(),
            pixels@.len() == old(self).image_len(),
            old(self).width * 4 <= usize::MAX,
        ensures
            final(self).wf(),
            final(self).origin == old(self).origin,
            final(self).width == old(self).width,
            final(self).height == old(self).height,
            final(self).pacer == old(self).pacer,
            final(self).prev matches Some(p) && p@ == pixels@,
            match r {
                None => old(self).prev matches Some(p) && p@ == pixels@,
                Some(RawFrame::Bgra { width, height, data, stride, ts: at }) => {
                    &&& !(old(self).prev matches Some(p) && p@ == pixels@)
                    &&& width == old(self).width
                    &&& height == old(self).height
                    &&& data@ == pixels@
                    &&& stride == old(self).width * 4
                    &&& at == ts
                },
                Some(_) => false,
            },
    {
        let unchanged: bool = match &self.prev {
            Some(p) => frame_unchanged(Some(p.as_slice()), pixels),
            None => false,
        };
        if unchanged {
            return None;
        }
        self.prev = Some(copy_of(pixels));
        Some(
            RawFrame::Bgra {
                width: self.width,
                height: self.height,
                data: copy_of(pixels),
                stride: self.width as usize * 4,
                ts,
            },
        )
    }

    pub fn size(&self) -> (r: (u32, u32))
        ensures
            r == (self.width, self.height),
    {
        (self.width, self.height)
    }
}

fn copy_of(bytes: &[u8]) -> (r: Vec<u8>)
    ensures
        r@ == bytes@,
{
    let mut out: Vec<u8> = Vec::new();
    out.extend_from_slice(bytes);
    assert(out@ =~= bytes@);
    out
}

/// The objects are created one on top of the other, so each one that fails leaves
/// behind what the one before it would have left, and that one itself.
pub proof fn law_nothing_created_is_left_behind()
    ensures
        created_before(GdiObject::ScreenDc).len() == 0,
        created_before(GdiObject::MemoryDc) == created_before(GdiObject::ScreenDc).push(
            GdiObject::ScreenDc,
        ),
        created_before(GdiObject::Bitmap) == created_before(GdiObject::MemoryDc).push(
            GdiObject::MemoryDc,
        ),
        created_before(GdiObject::Selection) == created_before(GdiObject::Bitmap).push(
            GdiObject::Bitmap,
        ),
{
    assert(created_before(GdiObject::MemoryDc) =~= created_before(GdiObject::ScreenDc).push(
        GdiObject::ScreenDc,
    ));
    assert(created_before(GdiObject::Bitmap) =~= created_before(GdiObject::MemoryDc).push(
        GdiObject::MemoryDc,
    ));
    assert(created_before(GdiObject::Selection) =~= created_before(GdiObject::Bitmap).push(
        GdiObject::Bitmap,
    ));
}

} // verus!
