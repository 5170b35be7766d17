//! The system cursor of Windows: colour cursors with their own alpha, and
//! monochrome ones given by two masks.

use vstd::prelude::*;

use super::{CursorImage, CursorState, FailureLog};
use crate::proto::COORD_ONE;
use crate::text::concat;

verus! {

/// Whether the cursor is hidden: it is not flagged as showing (the lowest bit),
/// or has no shape.
pub fn is_hidden(flags: u32, has_handle: bool) -> (r: bool)
    ensures
        r == (flags % 2 == 0 || !has_handle),
{
    flags % 2 == 0 || !has_handle
}

/// Why a bitmap cannot be read.
#[derive(Debug, Clone, Copy, PartialEq, Eq, Structural)]
pub enum BitmapFailure {
    /// The colour bitmap does not tell its size.
    ColorObject,
    ColorSize,
    ColorBits,
    /// The masks do not tell their size.
    MaskObject,
    MaskSize,
    MaskBits,
    /// There is no device context to read through.
    Context,
}

impl BitmapFailure {
    pub open spec fn spec_reason(self) -> &'static str {
        match self {
            BitmapFailure::ColorObject => "GetObjectW(hbmColor)",
            BitmapFailure::ColorSize => "hbmColor has non-positive dimensions",
            BitmapFailure::ColorBits => "GetDIBits(hbmColor)",
            BitmapFailure::MaskObject => "GetObjectW(hbmMask)",
            BitmapFailure::MaskSize => "hbmMask has unexpected dimensions",
            BitmapFailure::MaskBits => "GetDIBits(hbmMask)",
            BitmapFailure::Context => "CreateCompatibleDC",
        }
    }

    pub fn reason(self) -> (r: &'static str)
        ensures
            r == self.spec_reason(),
    {
        match self {
            BitmapFailure::ColorObject => "GetObjectW(hbmColor)",
            BitmapFailure::ColorSize => "hbmColor has non-positive dimensions",
            BitmapFailure::ColorBits => "GetDIBits(hbmColor)",
            BitmapFailure::MaskObject => "GetObjectW(hbmMask)",
            BitmapFailure::MaskSize => "hbmMask has unexpected dimensions",
            BitmapFailure::MaskBits => "GetDIBits(hbmMask)",
            BitmapFailure::Context => "CreateCompatibleDC",
        }
    }
}

/// The dimensions of a colour cursor, which must be positive.
pub fn color_size(width: i32, height: i32) -> (r: Result<(u32, u32), BitmapFailure>)
    ensures
        match r {
            Ok((w, h)) => width > 0 && height > 0 && w == width && h == height,
            Err(e) => (width <= 0 || height <= 0) && e == BitmapFailure::ColorSize,
        },
{
    if width <= 0 || height <= 0 {
        return Err(BitmapFailure::ColorSize);
    }
    Ok((width as u32, height as u32))
}

/// The dimensions of a monochrome cursor. Its bitmap holds two masks, one below
/// the other, so its height is twice the cursor's.
pub fn mono_size(width: i32, mask_height: i32) -> (r: Result<(u32, u32), BitmapFailure>)
    ensures
        match r {
            Ok((w, h)) => width > 0 && mask_height > 0 && w == width && h * 2 == mask_height,
            Err(e) => (width <= 0 || mask_height <= 0 || mask_height % 2 != 0) && e
                == BitmapFailure::MaskSize,
        },
{
    if width <= 0 || mask_height <= 0 {
        return Err(BitmapFailure::MaskSize);
    }
    let h: u32 = mask_height as u32;
    if h % 2 != 0 {
        return Err(BitmapFailure::MaskSize);
    }
    Ok((width as u32, h / 2))
}

/// Bytes in a row of a mask: one bit to a pixel, padded to 32 bits.
pub open spec fn mask_stride(width: int) -> int {
    (width + 31) / 32 * 4
}

pub fn mono_stride(width: u32) -> (r: usize)
    ensures
        r == mask_stride(width as int),
{
    let words: u32 = if width % 32 == 0 {
        width / 32
    } else {
        width / 32 + 1
    };
    (words * 4) as usize
}

/// The value of bit `k` of a byte, counted from the most significant one.
pub open spec fn bit_weight(k: int) -> int {
    if k == 0 {
        128
    } else if k == 1 {
        64
    } else if k == 2 {
        32
    } else if k == 3 {
        16
    } else if k == 4 {
        8
    } else if k == 5 {
        4
    } else if k == 6 {
        2
    } else {
        1
    }
}

/// The bit of pixel (`x`, `y`) in a mask.
pub open spec fn mask_bit(mask: Seq<u8>, stride: int, x: int, y: int) -> bool {
    mask[y * stride + x / 8] as int / bit_weight(x % 8) % 2 == 1
}

fn weight(k: usize) -> (r: u8)
    requires
        k < 8,
    ensures
        r == bit_weight(k as int),
        r > 0,
{
    if k == 0 {
        128
    } else if k == 1 {
        64
    } else if k == 2 {
        32
    } else if k == 3 {
        16
    } else if k == 4 {
        8
    } else if k == 5 {
        4
    } else if k == 6 {
        2
    } else {
        1
    }
}

/// Colour and alpha of a pixel of a monochrome cursor: where only the upper
/// mask is set the screen shows through, where only the lower one is set the
/// pixel is white, and black otherwise. (Both set means "invert the screen",
/// which RGBA cannot say.)
pub open spec fn mono_pixel(and_bit: bool, xor_bit: bool) -> (u8, u8) {
    if and_bit && !xor_bit {
        (0, 0)
    } else if !and_bit && xor_bit {
        (255, 255)
    } else {
        (0, 255)
    }
}

/// The RGBA bytes of a monochrome cursor of `w` by `h` pixels.
pub open spec fn mono_rgba(mask: Seq<u8>, w: int, h: int) -> Seq<u8> {
    Seq::new(
        (w * h * 4) as nat,
        |k: int|
            {
                let x = k / 4 % w;
                let y = k / 4 / w;
                let px = mono_pixel(
                    mask_bit(mask, mask_stride(w), x, y),
                    mask_bit(mask, mask_stride(w), x, y + h),
                );
                if k % 4 == 3 {
                    px.1
                } else {
                    px.0
                }
            },
    )
}

/// The RGBA bytes of a colour cursor: its BGRA bytes with red and blue swapped.
pub open spec fn color_rgba(bgra: Seq<u8>) -> Seq<u8> {
    Seq::new(
        (bgra.len() / 4 * 4) as nat,
        |k: int|
            if k % 4 == 0 {
                bgra[k + 2]
            } else if k % 4 == 2 {
                bgra[k - 2]
            } else {
                bgra[k]
            },
    )
}

/// The shape of a cursor with a hotspot in whole pixels, at scale one.
pub open spec fn is_shape(
    state: CursorState,
    width: u32,
    height: u32,
    hotspot_x: u32,
    hotspot_y: u32,
    rgba: Seq<u8>,
) -> bool {
    state@ == Some(
        super::ImageView {
            width,
            height,
            hotspot_x: (hotspot_x * COORD_ONE) as i128,
            hotspot_y: (hotspot_y * COORD_ONE) as i128,
            scale: COORD_ONE,
            rgba,
        },
    )
}

/// A number of pixels in units of `1 / COORD_ONE`.
fn fine(n: u32) -> (r: i128)
    ensures
        r == n * COORD_ONE,
{
    proof {
        assert(0 <= n * COORD_ONE <= 0xffff_ffff * COORD_ONE) by (nonlinear_arith)
            requires
                0 <= n <= 0xffff_ffff,
                COORD_ONE == 0x1_0000_0000,
        ;
    }
    (n as i128) * (COORD_ONE as i128)
}

fn shape(width: u32, height: u32, hotspot_x: u32, hotspot_y: u32, rgba: Vec<u8>) -> (r: CursorState)
    ensures
        is_shape(r, width, height, hotspot_x, hotspot_y, rgba@),
{
    CursorState::Shape(
        CursorImage {
            width,
            height,
            hotspot_x: fine(hotspot_x),
            hotspot_y: fine(hotspot_y),
            scale: COORD_ONE,
            rgba,
        },
    )
}

/// Turns the top-down 32-bit pixels of a colour cursor into its state.
pub fn color_cursor_image(
    width: u32,
    height: u32,
    bgra: &[u8],
    hotspot_x: u32,
    hotspot_y: u32,
) -> (r: CursorState)
    requires
        bgra@.len() == width * height * 4,
    ensures
        is_shape(r, width, height, hotspot_x, hotspot_y, color_rgba(bgra@)),
{
    let pixels: usize = bgra.len() / 4;
    let mut rgba: Vec<u8> = Vec::new();
    let mut p: usize = 0;
    while p < pixels
        invariant
            pixels == bgra@.len() / 4,
            bgra@.len() <= usize::MAX,
            p <= pixels,
            rgba@.len() == p * 4,
            forall|k: int| 0 <= k < rgba@.len() ==> rgba@[k] == #[trigger] color_rgba(bgra@)[k],
        decreases pixels - p,
    {
        rgba.push(bgra[p * 4 + 2]);
        rgba.push(bgra[p * 4 + 1]);
        rgba.push(bgra[p * 4]);
        rgba.push(bgra[p * 4 + 3]);
        p = p + 1;
    }
    assert(rgba@ =~= color_rgba(bgra@));
    shape(width, height, hotspot_x, hotspot_y, rgba)
}

fn bit_at(mask: &[u8], stride: usize, x: usize, y: usize) -> (r: bool)
    requires
        0 <= y * stride + x / 8 < mask@.len(),
    ensures
        r == mask_bit(mask@, stride as int, x as int, y as int),
{
    let len: usize = mask.len();
    proof {
        assert(0 <= y * stride) by (nonlinear_arith);
    }
    let byte: u8 = mask[y * stride + x / 8];
    byte / weight(x % 8) % 2 == 1
}

/// Turns the two masks of a monochrome cursor, one below the other, into its
/// state.
pub fn mono_cursor_image(
    width: u32,
    height: u32,
    mask: &[u8],
    hotspot_x: u32,
    hotspot_y: u32,
) -> (r: CursorState)
    requires
        mask@.len() == mask_stride(width as int) * (height * 2),
        width * height * 4 <= usize::MAX,
        width <= i32::MAX,
        height <= i32::MAX,
    ensures
        is_shape(
            r,
            width,
            height,
            hotspot_x,
            hotspot_y,
            mono_rgba(mask@, width as int, height as int),
        ),
{
    let ghost spec = mono_rgba(mask@, width as int, height as int);
    let w: usize = width as usize;
    let h: usize = height as usize;
    let stride: usize = mono_stride(width);
    proof {
        assert(0 <= w * h <= w * h * 4) by (nonlinear_arith);
    }
    let pixels: usize = w * h;
    let mut rgba: Vec<u8> = Vec::new();
    let mut p: usize = 0;
    while p < pixels
        invariant
            w == width,
            h == height,
            h <= i32::MAX,
            stride == mask_stride(w as int),
            mask@.len() == stride * (h * 2),
            pixels == w * h,
            w * h * 4 <= usize::MAX,
            spec == mono_rgba(mask@, w as int, h as int),
            p <= pixels,
            rgba@.len() == p * 4,
            forall|k: int| 0 <= k < rgba@.len() ==> rgba@[k] == #[trigger] spec[k],
        decreases pixels - p,
    {
        proof {
            lemma_mask_index(p as int, w as int, h as int);
        }
        let x: usize = p % w;
        let y: usize = p / w;
        let and_bit: bool = bit_at(mask, stride, x, y);
        let xor_bit: bool = bit_at(mask, stride, x, y + h);
        let (color, alpha): (u8, u8) = if and_bit && !xor_bit {
            (0, 0)
        } else if !and_bit && xor_bit {
            (255, 255)
        } else {
            (0, 255)
        };
        rgba.push(color);
        rgba.push(color);
        rgba.push(color);
        rgba.push(alpha);
        p = p + 1;
    }
    assert(rgba@ =~= spec);
    shape(width, height, hotspot_x, hotspot_y, rgba)
}

proof fn lemma_mask_index(p: int, w: int, h: int)
    requires
        0 <= p < w * h,
        0 <= w,
        0 <= h,
    ensures
        w > 0,
        0 <= p / w < h,
        0 <= p % w < w,
        0 <= p / w * mask_stride(w) + p % w / 8 < mask_stride(w) * (h * 2),
        0 <= (p / w + h) * mask_stride(w) + p % w / 8 < mask_stride(w) * (h * 2),
{
    assert(w > 0) by (nonlinear_arith)
        requires
            0 <= p < w * h,
            0 <= w,
    ;
    vstd::arithmetic::div_mod::lemma_fundamental_div_mod(p, w);
    vstd::arithmetic::div_mod::lemma_mod_bound(p, w);
    let x = p % w;
    let y = p / w;
    let stride = mask_stride(w);
    assert(0 <= y < h) by (nonlinear_arith)
        requires
            p == w * y + x,
            0 <= x < w,
            0 <= p < w * h,
    ;
    assert(x / 8 < stride);
    assert(0 <= y * stride && y * stride + stride <= stride * (h * 2)) by (nonlinear_arith)
        requires
            0 <= y,
            y + 1 <= h,
            stride >= 0,
    ;
    assert(0 <= (y + h) * stride && (y + h) * stride + stride <= stride * (h * 2))
        by (nonlinear_arith)
        requires
            0 <= y,
            y + 1 <= h,
            stride >= 0,
    ;
}

/// What reading a bitmap's pixels came to.
#[derive(Debug, Clone, PartialEq, Eq)]
pub enum Bits {
    Read(Vec<u8>),
    NoContext,
    Failed,
}

/// A bitmap of a cursor: its size, where it tells one, and its pixels, which are
/// read only where the size makes sense.
#[derive(Debug, Clone, PartialEq, Eq)]
pub struct Bitmap {
    pub size: Option<(i32, i32)>,
    pub bits: Bits,
}

/// What Windows says of its cursor.
#[derive(Debug, Clone, PartialEq, Eq)]
pub enum SystemCursor {
    /// It says nothing; the text is its error.
    NoInfo(String),
    Hidden,
    /// It does not tell the bitmaps; the text is its error.
    NoIcon(String),
    Color { bitmap: Bitmap, hotspot_x: u32, hotspot_y: u32 },
    Mono { masks: Bitmap, hotspot_x: u32, hotspot_y: u32 },
}

impl SystemCursor {
    /// Where pixels were read, they are as many as the size says.
    pub open spec fn complete(self) -> bool {
        match self {
            SystemCursor::Color { bitmap, .. } => match (bitmap.size, bitmap.bits) {
                (Some((w, h)), Bits::Read(bgra)) => w > 0 && h > 0 ==> bgra@.len() == w * h * 4,
                _ => true,
            },
            SystemCursor::Mono { masks, .. } => match (masks.size, masks.bits) {
                (Some((w, h)), Bits::Read(mask)) => w > 0 && h > 0 && h % 2 == 0 ==> {
                    &&& mask@.len() == mask_stride(w as int) * h
                    &&& w * (h / 2) * 4 <= usize::MAX
                },
                _ => true,
            },
            _ => true,
        }
    }
}

/// `r` is the colour cursor that a bitmap shows, or why it cannot be read.
pub open spec fn is_color(
    r: Result<CursorState, BitmapFailure>,
    bitmap: Bitmap,
    hotspot_x: u32,
    hotspot_y: u32,
) -> bool {
    match bitmap.size {
        None => r == Err::<CursorState, BitmapFailure>(BitmapFailure::ColorObject),
        Some((w, h)) => if w <= 0 || h <= 0 {
            r == Err::<CursorState, BitmapFailure>(BitmapFailure::ColorSize)
        } else {
            match bitmap.bits {
                Bits::NoContext => r == Err::<CursorState, BitmapFailure>(BitmapFailure::Context),
                Bits::Failed => r == Err::<CursorState, BitmapFailure>(BitmapFailure::ColorBits),
                Bits::Read(bgra) => {
                    &&& r matches Ok(state)
                    &&& is_shape(
                        state,
                        w as u32,
                        h as u32,
                        hotspot_x,
                        hotspot_y,
                        color_rgba(bgra@),
                    )
                },
            }
        },
    }
}

/// `r` is the monochrome cursor that two masks show, or why they cannot be read.
pub open spec fn is_mono(
    r: Result<CursorState, BitmapFailure>,
    masks: Bitmap,
    hotspot_x: u32,
    hotspot_y: u32,
) -> bool {
    match masks.size {
        None => r == Err::<CursorState, BitmapFailure>(BitmapFailure::MaskObject),
        Some((w, h)) => if w <= 0 || h <= 0 || h % 2 != 0 {
            r == Err::<CursorState, BitmapFailure>(BitmapFailure::MaskSize)
        } else {
            match masks.bits {
                Bits::NoContext => r == Err::<CursorState, BitmapFailure>(BitmapFailure::Context),
                Bits::Failed => r == Err::<CursorState, BitmapFailure>(BitmapFailure::MaskBits),
                Bits::Read(mask) => {
                    &&& r matches Ok(state)
                    &&& is_shape(
                        state,
                        w as u32,
                        (h / 2) as u32,
                        hotspot_x,
                        hotspot_y,
                        mono_rgba(mask@, w as int, h as int / 2),
                    )
                },
            }
        },
    }
}

fn read_color(bitmap: &Bitmap, hotspot_x: u32, hotspot_y: u32) -> (r: Result<
    CursorState,
    BitmapFailure,
>)
    requires
        (SystemCursor::Color { bitmap: *bitmap, hotspot_x, hotspot_y }).complete(),
    ensures
        is_color(r, *bitmap, hotspot_x, hotspot_y),
{
    let (width, height): (u32, u32) = match bitmap.size {
        None => return Err(BitmapFailure::ColorObject),
        Some((w, h)) => match color_size(w, h) {
            Ok(size) => size,
            Err(failure) => return Err(failure),
        },
    };
    match &bitmap.bits {
        Bits::NoContext => Err(BitmapFailure::Context),
        Bits::Failed => Err(BitmapFailure::ColorBits),
        Bits::Read(bgra) => Ok(
            color_cursor_image(width, height, bgra.as_slice(), hotspot_x, hotspot_y),
        ),
    }
}

fn read_mono(masks: &Bitmap, hotspot_x: u32, hotspot_y: u32) -> (r: Result<
    CursorState,
    BitmapFailure,
>)
    requires
        (SystemCursor::Mono { masks: *masks, hotspot_x, hotspot_y }).complete(),
    ensures
        is_mono(r, *masks, hotspot_x, hotspot_y),
{
    let (width, height): (u32, u32) = match masks.size {
        None => return Err(BitmapFailure::MaskObject),
        Some((w, h)) => match mono_size(w, h) {
            Ok(size) => size,
            Err(failure) => return Err(failure),
        },
    };
    match &masks.bits {
        Bits::NoContext => Err(BitmapFailure::Context),
        Bits::Failed => Err(BitmapFailure::MaskBits),
        Bits::Read(mask) => Ok(
            mono_cursor_image(width, height, mask.as_slice(), hotspot_x, hotspot_y),
        ),
    }
}

/// The cursor's state, from what Windows says of it, or the reason why there is
/// none.
pub fn read_cursor(cursor: &SystemCursor) -> (r: Result<CursorState, String>)
    requires
        cursor.complete(),
    ensures
        match *cursor {
            SystemCursor::NoInfo(err) => r matches Err(reason) && reason@ == "GetCursorInfo: "@
                + err@,
            SystemCursor::Hidden => r == Ok::<CursorState, String>(CursorState::Hidden),
            SystemCursor::NoIcon(err) => r matches Err(reason) && reason@ == "GetIconInfo: "@
                + err@,
            SystemCursor::Color { bitmap, hotspot_x, hotspot_y } => exists|
                outcome: Result<CursorState, BitmapFailure>,
            |
                is_color(outcome, bitmap, hotspot_x, hotspot_y) && says(r, outcome),
            SystemCursor::Mono { masks, hotspot_x, hotspot_y } => exists|
                outcome: Result<CursorState, BitmapFailure>,
            |
                is_mono(outcome, masks, hotspot_x, hotspot_y) && says(r, outcome),
        },
{
    match cursor {
        SystemCursor::NoInfo(err) => Err(concat("GetCursorInfo: ", err.as_str())),
        SystemCursor::Hidden => Ok(CursorState::Hidden),
        SystemCursor::NoIcon(err) => Err(concat("GetIconInfo: ", err.as_str())),
        SystemCursor::Color { bitmap, hotspot_x, hotspot_y } => {
            let outcome = read_color(bitmap, *hotspot_x, *hotspot_y);
            let ghost settled = outcome;
            let r = with_reason(outcome);
            assert(is_color(settled, *bitmap, *hotspot_x, *hotspot_y) && says(r, settled));
            r
        },
        SystemCursor::Mono { masks, hotspot_x, hotspot_y } => {
            let outcome = read_mono(masks, *hotspot_x, *hotspot_y);
            let ghost settled = outcome;
            let r = with_reason(outcome);
            assert(is_mono(settled, *masks, *hotspot_x, *hotspot_y) && says(r, settled));
            r
        },
    }
}

/// `r` is `outcome`, a failure put into words.
pub open spec fn says(
    r: Result<CursorState, String>,
    outcome: Result<CursorState, BitmapFailure>,
) -> bool {
    match outcome {
        Ok(state) => r == Ok::<CursorState, String>(state),
        Err(failure) => r matches Err(reason) && reason@ == failure.spec_reason()@,
    }
}

fn with_reason(outcome: Result<CursorState, BitmapFailure>) -> (r: Result<CursorState, String>)
    ensures
        says(r, outcome),
{
    match outcome {
        Ok(state) => Ok(state),
        Err(failure) => Err(failure.reason().to_owned()),
    }
}

/// Reads the system cursor, keeping reports of failures rare.
#[derive(Debug)]
pub struct WinCursorSource {
    pub failures: FailureLog,
}

impl WinCursorSource {
    pub fn new() -> (r: Self)
        ensures
            r.failures.last_log is None,
    {
        WinCursorSource { failures: FailureLog::new() }
    }

    /// Turns an outcome into a reading, with the reason to report where it
    /// failed and a report is due.
    pub fn settle(&mut self, outcome: Result<CursorState, String>, now: u64) -> (r: (
        Option<CursorState>,
        Option<String>,
    ))
        ensures
            match outcome {
                Ok(state) => r == (Some(state), None::<String>) && *final(self) == *old(self),
                Err(reason) => {
                    &&& r.0 is None
                    &&& r.1 == if old(self).failures.reports(now) {
                        Some(reason)
                    } else {
                        None
                    }
                    &&& final(self).failures.last_log == if old(self).failures.reports(now) {
                        Some(now)
                    } else {
                        old(self).failures.last_log
                    }
                },
            },
    {
        match outcome {
            Ok(state) => (Some(state), None),
            Err(reason) => {
                if self.failures.note(now) {
                    (None, Some(reason))
                } else {
                    (None, None)
                }
            },
        }
    }
}

/// A row of a mask holds one bit for each pixel and no more than 31 beyond, in
/// whole groups of four bytes.
pub proof fn law_mask_rows_are_padded(width: int)
    requires
        width >= 0,
    ensures
        mask_stride(width) % 4 == 0,
        width <= mask_stride(width) * 8 < width + 32,
{
}

/// The eight pixels of a byte make up its value, the leftmost weighing most.
pub proof fn law_pixels_run_from_the_left(mask: Seq<u8>, stride: int, byte: int, y: int)
    requires
        byte >= 0,
    ensures
        ({
            let bit = |k: int|
                if mask_bit(mask, stride, byte * 8 + k, y) {
                    1int
                } else {
                    0int
                };
            mask[y * stride + byte] == bit(0) * 128 + bit(1) * 64 + bit(2) * 32 + bit(3) * 16 + bit(
                4,
            ) * 8 + bit(5) * 4 + bit(6) * 2 + bit(7)
        }),
{
    let v = mask[y * stride + byte];
    let at = byte * 8;
    assert(at / 8 == byte && (at + 1) / 8 == byte && (at + 2) / 8 == byte && (at + 3) / 8 == byte && (
    at + 4) / 8 == byte && (at + 5) / 8 == byte && (at + 6) / 8 == byte && (at + 7) / 8 == byte);
    assert(at % 8 == 0 && (at + 1) % 8 == 1 && (at + 2) % 8 == 2 && (at + 3) % 8 == 3 && (at + 4) % 8
        == 4 && (at + 5) % 8 == 5 && (at + 6) % 8 == 6 && (at + 7) % 8 == 7);
    assert(v == v / 128 % 2 * 128 + v / 64 % 2 * 64 + v / 32 % 2 * 32 + v / 16 % 2 * 16 + v / 8 % 2
        * 8 + v / 4 % 2 * 4 + v / 2 % 2 * 2 + v / 1 % 2) by (bit_vector);
    assert(mask_bit(mask, stride, at, y) == (v / 128 % 2 == 1));
    assert(mask_bit(mask, stride, at + 1, y) == (v / 64 % 2 == 1));
    assert(mask_bit(mask, stride, at + 2, y) == (v / 32 % 2 == 1));
    assert(mask_bit(mask, stride, at + 3, y) == (v / 16 % 2 == 1));
    assert(mask_bit(mask, stride, at + 4, y) == (v / 8 % 2 == 1));
    assert(mask_bit(mask, stride, at + 5, y) == (v / 4 % 2 == 1));
    assert(mask_bit(mask, stride, at + 6, y) == (v / 2 % 2 == 1));
    assert(mask_bit(mask, stride, at + 7, y) == (v / 1 % 2 == 1));
}

/// A pixel of a monochrome cursor is see-through where only the upper mask has it,
/// white where only the lower one has it, and black otherwise; and it keeps its
/// place.
pub proof fn law_masks_say_black_white_or_nothing(mask: Seq<u8>, w: int, h: int, x: int, y: int)
    requires
        0 <= x < w,
        0 <= y < h,
    ensures
        ({
            let out = mono_rgba(mask, w, h);
            let at = (y * w + x) * 4;
            let upper = mask_bit(mask, mask_stride(w), x, y);
            let lower = mask_bit(mask, mask_stride(w), x, h + y);
            &&& out.len() == w * h * 4
            &&& out[at + 1] == out[at] && out[at + 2] == out[at]
            &&& out[at + 3] == 0 || out[at + 3] == 255
            &&& (out[at + 3] == 0) == (upper && !lower)
            &&& out[at] == 255 || out[at] == 0
            &&& (out[at] == 255) == (!upper && lower)
        }),
{
    let i = y * w + x;
    crate::encode::convert::lemma_dense_index(y, x, w, h);
    assert(w * h * 4 >= i * 4 + 4);
    assert((i * 4) / 4 == i && (i * 4 + 1) / 4 == i && (i * 4 + 2) / 4 == i && (i * 4 + 3) / 4
        == i);
    assert(h + y == y + h);
}

/// A pixel of a colour cursor comes out as red, green, blue and alpha.
pub proof fn law_red_and_blue_change_places(bgra: Seq<u8>, i: int)
    requires
        bgra.len() % 4 == 0,
        0 <= i < bgra.len() / 4,
    ensures
        ({
            let out = color_rgba(bgra);
            &&& out.len() == bgra.len()
            &&& out[4 * i] == bgra[4 * i + 2]
            &&& out[4 * i + 1] == bgra[4 * i + 1]
            &&& out[4 * i + 2] == bgra[4 * i]
            &&& out[4 * i + 3] == bgra[4 * i + 3]
        }),
{
}

/// A shape shows its own size and pixels, at scale one, and its hotspot counts in
/// units of which there are 2^32 to a pixel.
pub proof fn law_hotspots_are_whole_pixels(
    state: CursorState,
    width: u32,
    height: u32,
    hotspot_x: u32,
    hotspot_y: u32,
    rgba: Seq<u8>,
)
    requires
        is_shape(state, width, height, hotspot_x, hotspot_y, rgba),
    ensures
        state matches CursorState::Shape(image) && {
            &&& image.width == width
            &&& image.height == height
            &&& image.hotspot_x == hotspot_x * 0x1_0000_0000
            &&& image.hotspot_y == hotspot_y * 0x1_0000_0000
            &&& image.scale == 0x1_0000_0000
            &&& image.rgba@ == rgba
        },
{
    assert(0 <= hotspot_x * 0x1_0000_0000 <= i128::MAX && 0 <= hotspot_y * 0x1_0000_0000
        <= i128::MAX);
}

/// A colour bitmap whose size and pixels can be read is shown in that size, and one
/// of which either cannot be read is a failure of its own kind.
pub proof fn law_colour_bitmaps_are_shown(
    r: Result<CursorState, BitmapFailure>,
    bitmap: Bitmap,
    hotspot_x: u32,
    hotspot_y: u32,
)
    requires
        is_color(r, bitmap, hotspot_x, hotspot_y),
    ensures
        bitmap.size is None ==> r == Err::<CursorState, BitmapFailure>(BitmapFailure::ColorObject),
        bitmap.size matches Some((w, h)) ==> {
            &&& w <= 0 || h <= 0 ==> r == Err::<CursorState, BitmapFailure>(
                BitmapFailure::ColorSize,
            )
            &&& w > 0 && h > 0 ==> {
                &&& bitmap.bits is NoContext ==> r == Err::<CursorState, BitmapFailure>(
                    BitmapFailure::Context,
                )
                &&& bitmap.bits is Failed ==> r == Err::<CursorState, BitmapFailure>(
                    BitmapFailure::ColorBits,
                )
                &&& bitmap.bits matches Bits::Read(bgra) ==> (r matches Ok(
                    CursorState::Shape(image),
                ) && {
                    &&& image.width == w && image.height == h
                    &&& image.hotspot_x == hotspot_x * 0x1_0000_0000
                    &&& image.hotspot_y == hotspot_y * 0x1_0000_0000
                    &&& image.rgba@ == color_rgba(bgra@)
                })
            }
        },
{
    assert(0 <= hotspot_x * 0x1_0000_0000 <= i128::MAX && 0 <= hotspot_y * 0x1_0000_0000
        <= i128::MAX);
}

/// Two masks, one below the other, are shown at half their height; masks that
/// cannot be halved or read are failures of their own kind.
pub proof fn law_masks_are_shown_at_half_height(
    r: Result<CursorState, BitmapFailure>,
    masks: Bitmap,
    hotspot_x: u32,
    hotspot_y: u32,
)
    requires
        is_mono(r, masks, hotspot_x, hotspot_y),
    ensures
        masks.size is None ==> r == Err::<CursorState, BitmapFailure>(BitmapFailure::MaskObject),
        masks.size matches Some((w, h)) ==> {
            &&& w <= 0 || h <= 0 || h % 2 != 0 ==> r == Err::<CursorState, BitmapFailure>(
                BitmapFailure::MaskSize,
            )
            &&& w > 0 && h > 0 && h % 2 == 0 ==> {
                &&& masks.bits is NoContext ==> r == Err::<CursorState, BitmapFailure>(
                    BitmapFailure::Context,
                )
                &&& masks.bits is Failed ==> r == Err::<CursorState, BitmapFailure>(
                    BitmapFailure::MaskBits,
                )
                &&& masks.bits matches Bits::Read(mask) ==> (r matches Ok(
                    CursorState::Shape(image),
                ) && {
                    &&& image.width == w && image.height * 2 == h
                    &&& image.hotspot_x == hotspot_x * 0x1_0000_0000
                    &&& image.hotspot_y == hotspot_y * 0x1_0000_0000
                    &&& image.rgba@ == mono_rgba(mask@, w as int, image.height as int)
                })
            }
        },
{
    assert(0 <= hotspot_x * 0x1_0000_0000 <= i128::MAX && 0 <= hotspot_y * 0x1_0000_0000
        <= i128::MAX);
}

/// Every failure is reported in words of its own.
pub proof fn law_reasons_differ(a: BitmapFailure, b: BitmapFailure)
    requires
        a != b,
    ensures
        a.spec_reason()@ != b.spec_reason()@,
{
    reveal_strlit("GetObjectW(hbmColor)");
    reveal_strlit("hbmColor has non-positive dimensions");
    reveal_strlit("GetDIBits(hbmColor)");
    reveal_strlit("GetObjectW(hbmMask)");
    reveal_strlit("hbmMask has unexpected dimensions");
    reveal_strlit("GetDIBits(hbmMask)");
    reveal_strlit("CreateCompatibleDC");
    let s = a.spec_reason()@;
    let t = b.spec_reason()@;
    assert(s.len() != t.len() || s[0] != t[0] || s[3] != t[3] || s[10] != t[10]);
}

} // verus!
