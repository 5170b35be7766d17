//! A frame source that needs no screen: a moving gradient with a periodic
//! tint, so that the encoder always sees change between frames.

use vstd::prelude::*;

use super::{CaptureError, DisplayInfo, FramePacer, FrameSource, RawFrame};
use crate::text::{concat3, decimal_of};

verus! {

/// The displays that [`for_display`] knows: two synthetic screens side by side.
pub fn list_displays() -> (r: Vec<DisplayInfo>)
    ensures
        r@.len() == 2,
        r@[0].id == 1 && r@[0].title@ == "Synthetic 1"@ && r@[0].x == 0 && r@[0].y == 0
            && r@[0].width == 1280 && r@[0].height == 720 && r@[0].primary,
        r@[1].id == 2 && r@[1].title@ == "Synthetic 2"@ && r@[1].x == 1280 && r@[1].y == 0
            && r@[1].width == 1024 && r@[1].height == 768 && !r@[1].primary,
{
    let mut out: Vec<DisplayInfo> = Vec::new();
    out.push(
        DisplayInfo {
            id: 1,
            title: String::from_str("Synthetic 1"),
            x: 0,
            y: 0,
            width: 1280,
            height: 720,
            primary: true,
        },
    );
    out.push(
        DisplayInfo {
            id: 2,
            title: String::from_str("Synthetic 2"),
            x: 1280,
            y: 0,
            width: 1024,
            height: 768,
            primary: false,
        },
    );
    out
}

/// The source of display `id`, one of [`list_displays`]. The two differ in size
/// and in the direction of the gradient, so that a switch is seen.
pub fn for_display(id: u32, fps: u32, now: u64) -> (r: Result<SyntheticSource, CaptureError>)
    requires
        id == 1 || id == 2 ==> fps > 0,
    ensures
        match r {
            Ok(source) => {
                &&& id == 1 || id == 2
                &&& source.wf()
                &&& source.frame_index == 0
                &&& source.vertical == (id == 2)
                &&& source.width == (if id == 1 {
                    1280u32
                } else {
                    1024
                })
                &&& source.height == (if id == 1 {
                    720u32
                } else {
                    768
                })
                &&& source.pacer == (FramePacer {
                    next_tick: now,
                    interval: super::frame_interval(fps) as u64,
                })
            },
            Err(CaptureError::Backend(detail)) => id != 1 && id != 2 && detail@ == "display "@
                + crate::text::decimal(id as nat) + " not found"@,
            Err(_) => false,
        },
{
    if id == 1 {
        Ok(SyntheticSource::new(1280, 720, fps, now))
    } else if id == 2 {
        Ok(SyntheticSource::new_vertical(1024, 768, fps, now))
    } else {
        let number: String = decimal_of(id as u64);
        Err(CaptureError::Backend(concat3("display ", number.as_str(), " not found")))
    }
}

#[derive(Debug)]
pub struct SyntheticSource {
    pub width: u32,
    pub height: u32,
    pub pacer: FramePacer,
    pub frame_index: u64,
    /// The gradient runs down instead of across, with the tint's sign flipped.
    pub vertical: bool,
}

/// Brightness of pixel (`row`, `col`) in frame `index`: a gradient from 0 to 254
/// across the width (or down the height) that moves up by one each frame.
pub open spec fn luma(s: SyntheticSource, index: int, row: int, col: int) -> u8 {
    let gradient = if s.vertical {
        row * 255 / s.height as int
    } else {
        col * 255 / s.width as int
    };
    ((gradient + index % 256) % 256) as u8
}

/// Byte `k` of the chroma plane in frame `index`: blue-difference at even and
/// red-difference at odd places, tinted in opposite directions.
pub open spec fn chroma(s: SyntheticSource, index: int, k: int) -> u8 {
    let tint = index % 256 / 4;
    if s.vertical == (k % 2 == 0) {
        (128 - tint) as u8
    } else {
        (128 + tint) as u8
    }
}

impl SyntheticSource {
    /// Positive dimensions whose pixels can be counted in memory.
    pub open spec fn wf(self) -> bool {
        &&& self.width > 0
        &&& self.height > 0
        &&& self.width * self.height <= usize::MAX
    }

    /// The luma plane of frame `index`, row by row.
    pub open spec fn luma_plane(self, index: int) -> Seq<u8> {
        Seq::new(
            (self.width * self.height) as nat,
            |i: int| luma(self, index, i / self.width as int, i % self.width as int),
        )
    }

    /// The interleaved chroma plane of frame `index`.
    pub open spec fn chroma_plane(self, index: int) -> Seq<u8> {
        Seq::new(
            ((self.width / 2) * (self.height / 2) * 2) as nat,
            |k: int| chroma(self, index, k),
        )
    }

    pub fn new(width: u32, height: u32, fps: u32, now: u64) -> (r: Self)
        requires
            fps > 0,
            width > 0,
            height > 0,
            width * height <= usize::MAX,
        ensures
            r == (SyntheticSource {
                width,
                height,
                pacer: FramePacer { next_tick: now, interval: super::frame_interval(fps) as u64 },
                frame_index: 0,
                vertical: false,
            }),
            r.wf(),
    {
        SyntheticSource {
            width,
            height,
            pacer: FramePacer::new(fps, now),
            frame_index: 0,
            vertical: false,
        }
    }

    /// Like [`SyntheticSource::new`], with the gradient running down.
    pub fn new_vertical(width: u32, height: u32, fps: u32, now: u64) -> (r: Self)
        requires
            fps > 0,
            width > 0,
            height > 0,
            width * height <= usize::MAX,
        ensures
            r == (SyntheticSource {
                width,
                height,
                pacer: FramePacer { next_tick: now, interval: super::frame_interval(fps) as u64 },
                frame_index: 0,
                vertical: true,
            }),
            r.wf(),
    {
        let mut source = SyntheticSource::new(width, height, fps, now);
        source.vertical = true;
        source
    }

    /// Renders the current frame: its luma and its chroma plane.
    pub fn render(&self) -> (r: (Vec<u8>, Vec<u8>))
        requires
            self.wf(),
        ensures
            r.0@ == self.luma_plane(self.frame_index as int),
            r.1@ == self.chroma_plane(self.frame_index as int),
    {
        let w: usize = self.width as usize;
        let h: usize = self.height as usize;
        let shift: u64 = self.frame_index % 256;
        let mut y: Vec<u8> = Vec::new();
        let mut i: usize = 0;
        let total: usize = w * h;
        while i < total
            invariant
                self.wf(),
                w == self.width,
                h == self.height,
                shift == self.frame_index % 256,
                total == self.width * self.height,
                i <= total,
                y@.len() == i,
                forall|j: int|
                    0 <= j < i ==> y@[j] == self.luma_plane(self.frame_index as int)[j],
            decreases total - i,
        {
            let row: usize = i / w;
            let col: usize = i % w;
            proof {
                lemma_pixel_in_range(i as int, w as int, h as int);
            }
            let gradient: u64 = if self.vertical {
                (row as u64) * 255 / (h as u64)
            } else {
                (col as u64) * 255 / (w as u64)
            };
            proof {
                lemma_gradient_range(row as int, h as int);
                lemma_gradient_range(col as int, w as int);
            }
            y.push(((gradient + shift) % 256) as u8);
            i = i + 1;
        }
        proof {
            assert(y@ =~= self.luma_plane(self.frame_index as int));
            assert((w / 2) * (h / 2) * 2 <= w * h && 0 <= (w / 2) * (h / 2)) by (nonlinear_arith)
                requires
                    w >= 0,
                    h >= 0,
            ;
        }
        let tint: u8 = (shift / 4) as u8;
        let uv_len: usize = (w / 2) * (h / 2) * 2;
        let mut uv: Vec<u8> = Vec::new();
        let mut k: usize = 0;
        while k < uv_len
            invariant
                tint == (self.frame_index % 256) / 4,
                tint < 64,
                uv_len == (self.width / 2) * (self.height / 2) * 2,
                k <= uv_len,
                uv@.len() == k,
                forall|j: int|
                    0 <= j < k ==> uv@[j] == self.chroma_plane(self.frame_index as int)[j],
            decreases uv_len - k,
        {
            if self.vertical == (k % 2 == 0) {
                uv.push(128 - tint);
            } else {
                uv.push(128 + tint);
            }
            k = k + 1;
        }
        proof {
            assert(uv@ =~= self.chroma_plane(self.frame_index as int));
        }
        (y, uv)
    }
}

impl FrameSource for SyntheticSource {
    open spec fn ready(&self) -> bool {
        self.wf() && self.frame_index < u64::MAX
    }

    fn next_frame(&mut self, ts: u64) -> (r: Result<RawFrame, CaptureError>)
        ensures
            *final(self) == (SyntheticSource {
                frame_index: (old(self).frame_index + 1) as u64,
                ..*old(self)
            }),
            r matches Ok(RawFrame::Nv12 { width, height, y, y_stride, uv, uv_stride, ts: at })
                && width == old(self).width && height == old(self).height && y@ == old(
                self,
            ).luma_plane(old(self).frame_index as int) && y_stride == old(self).width && uv@ == old(
                self,
            ).chroma_plane(old(self).frame_index as int) && uv_stride == old(self).width && at
                == ts,
    {
        let (y, uv) = self.render();
        self.frame_index = self.frame_index + 1;
        proof {
            assert(self.width <= self.width * self.height) by (nonlinear_arith)
                requires
                    self.height > 0,
            ;
        }
        Ok(
            RawFrame::Nv12 {
                width: self.width,
                height: self.height,
                y,
                y_stride: self.width as usize,
                uv,
                uv_stride: self.width as usize,
                ts,
            },
        )
    }

    fn size(&self) -> (r: (u32, u32))
        ensures
            r == (self.width, self.height),
    {
        (self.width, self.height)
    }
}

/// Every pixel changes from one frame to the next, so the encoder never sees a
/// still picture.
pub proof fn law_every_pixel_moves(s: SyntheticSource, index: int, i: int)
    requires
        s.wf(),
        index >= 0,
        0 <= i < s.width * s.height,
    ensures
        s.luma_plane(index)[i] != s.luma_plane(index + 1)[i],
{
    lemma_pixel_in_range(i, s.width as int, s.height as int);
    lemma_gradient_range(i / s.width as int, s.height as int);
    lemma_gradient_range(i % s.width as int, s.width as int);
}

/// A row of the vertical gradient is flat.
pub proof fn law_vertical_rows_are_flat(s: SyntheticSource, index: int, row: int, a: int, b: int)
    requires
        s.vertical,
    ensures
        luma(s, index, row, a) == luma(s, index, row, b),
{
}

proof fn lemma_pixel_in_range(i: int, w: int, h: int)
    requires
        0 <= i < w * h,
        w > 0,
        h > 0,
    ensures
        0 <= i / w < h,
        0 <= i % w < w,
{
    vstd::arithmetic::div_mod::lemma_fundamental_div_mod(i, w);
    vstd::arithmetic::div_mod::lemma_mod_bound(i, w);
    assert(0 <= i / w < h) by (nonlinear_arith)
        requires
            i == w * (i / w) + i % w,
            0 <= i % w < w,
            0 <= i < w * h,
            w > 0,
    ;
}

proof fn lemma_gradient_range(k: int, n: int)
    requires
        n > 0,
        k >= 0,
    ensures
        k < n ==> 0 <= k * 255 / n < 255,
{
    if k < n {
        assert(0 <= k * 255 / n < 255) by (nonlinear_arith)
            requires
                0 <= k < n,
        ;
    }
}

/// The first picture runs evenly from black to almost white: a pixel is as bright
/// as the share of the width, or of the height, that lies before it, in 255ths.
pub proof fn law_the_gradient_is_even(s: SyntheticSource, row: int, col: int)
    requires
        s.wf(),
        0 <= row < s.height,
        0 <= col < s.width,
    ensures
        ({
            let b = luma(s, 0, row, col) as int;
            if s.vertical {
                b * s.height <= row * 255 < (b + 1) * s.height
            } else {
                b * s.width <= col * 255 < (b + 1) * s.width
            }
        }),
{
    let (k, n) = if s.vertical {
        (row, s.height as int)
    } else {
        (col, s.width as int)
    };
    lemma_gradient_range(k, n);
    let q = k * 255 / n;
    vstd::arithmetic::div_mod::lemma_fundamental_div_mod(k * 255, n);
    vstd::arithmetic::div_mod::lemma_mod_bound(k * 255, n);
    assert(q * n <= k * 255 < (q + 1) * n) by (nonlinear_arith)
        requires
            k * 255 == n * q + (k * 255) % n,
            0 <= (k * 255) % n < n,
    ;
    assert(luma(s, 0, row, col) == q);
}

/// From picture to picture every pixel gets brighter by one, around the end of
/// the range.
pub proof fn law_pictures_move_by_one(s: SyntheticSource, index: int, row: int, col: int)
    requires
        s.wf(),
        index >= 0,
        0 <= row < s.height,
        0 <= col < s.width,
    ensures
        (luma(s, index + 1, row, col) - luma(s, index, row, col) - 1) % 256 == 0,
{
    lemma_gradient_range(row, s.height as int);
    lemma_gradient_range(col, s.width as int);
}

/// The tint pulls the two chroma channels apart by the same amount, which grows
/// by one every four pictures and starts over with the brightness; the vertical
/// picture has it the other way round.
pub proof fn law_the_tint_is_balanced(s: SyntheticSource, index: int, pair: int)
    requires
        index >= 0,
        pair >= 0,
    ensures
        ({
            let u = chroma(s, index, 2 * pair) as int;
            let v = chroma(s, index, 2 * pair + 1) as int;
            let tint = (index % 256) / 4;
            &&& u + v == 256
            &&& if s.vertical {
                v - u == 2 * tint
            } else {
                u - v == 2 * tint
            }
        }),
{
}

} // verus!
