//! Conversion of raw frames to I420 (planar 4:2:0), which the software encoder
//! takes, and from there to NV12, which Media Foundation takes.

use vstd::prelude::*;

use openh264::formats::{BgraSliceU8, YUVBuffer, YUVSource};

use crate::arith::wide_mul;
use crate::capture::RawFrame;

verus! {

/// A dense (no row padding) I420 frame: three contiguous planes.
#[derive(Debug, Clone)]
pub struct I420Frame {
    pub width: u32,
    pub height: u32,
    pub y: Vec<u8>,
    pub u: Vec<u8>,
    pub v: Vec<u8>,
}

/// Half of `n`, rounded up.
pub open spec fn half_up(n: int) -> int {
    (n + 1) / 2
}

/// The dense `w` by `h` plane that takes byte `col * step + offset` of each row
/// of `stride` bytes.
pub open spec fn plane(
    src: Seq<u8>,
    stride: int,
    w: int,
    h: int,
    step: int,
    offset: int,
) -> Seq<u8> {
    Seq::new((w * h) as nat, |i: int| src[i / w * stride + i % w * step + offset])
}

/// Every row of `row` bytes lies within a buffer of `len` bytes.
pub open spec fn rows_fit(len: int, stride: int, row: int, h: int) -> bool {
    h > 0 ==> (h - 1) * stride + row <= len
}

/// The index of the byte that a dense plane takes for its place `i`.
proof fn lemma_source_index(i: int, len: int, stride: int, w: int, h: int, step: int, offset: int)
    requires
        0 <= i < w * h,
        w > 0,
        stride >= 0,
        step >= 1,
        0 <= offset < step,
        rows_fit(len, stride, w * step, h),
    ensures
        0 <= i / w < h,
        0 <= i % w < w,
        0 <= i / w * stride <= len,
        0 <= i % w * step <= len,
        0 <= i / w * stride + i % w * step + offset < len,
{
    vstd::arithmetic::div_mod::lemma_fundamental_div_mod(i, w);
    vstd::arithmetic::div_mod::lemma_mod_bound(i, w);
    let row = i / w;
    let col = i % w;
    assert(0 <= row < h) by (nonlinear_arith)
        requires
            i == w * row + col,
            0 <= col < w,
            0 <= i < w * h,
    ;
    assert(row * stride <= (h - 1) * stride) by (nonlinear_arith)
        requires
            row <= h - 1,
            stride >= 0,
    ;
    assert(col * step + step <= w * step) by (nonlinear_arith)
        requires
            col + 1 <= w,
            step >= 1,
    ;
    assert(0 <= row * stride) by (nonlinear_arith)
        requires
            row >= 0,
            stride >= 0,
    ;
    assert(0 <= col * step) by (nonlinear_arith)
        requires
            col >= 0,
            step >= 1,
    ;
}

/// Copies a plane out of a padded or interleaved buffer.
pub(crate) fn take_plane(src: &[u8], stride: usize, w: usize, h: usize, step: usize, offset: usize) -> (r: Vec<
    u8,
>)
    requires
        w * h <= usize::MAX,
        step >= 1,
        offset < step,
        rows_fit(src@.len() as int, stride as int, w * step, h as int),
    ensures
        r@ == plane(src@, stride as int, w as int, h as int, step as int, offset as int),
{
    let total: usize = w * h;
    let len: usize = src.len();
    let mut out: Vec<u8> = Vec::new();
    let mut i: usize = 0;
    while i < total
        invariant
            total == w * h,
            len == src@.len(),
            step >= 1,
            offset < step,
            rows_fit(src@.len() as int, stride as int, w * step, h as int),
            i <= total,
            out@.len() == i,
            forall|j: int|
                0 <= j < i ==> out@[j] == plane(
                    src@,
                    stride as int,
                    w as int,
                    h as int,
                    step as int,
                    offset as int,
                )[j],
        decreases total - i,
    {
        proof {
            assert(w > 0) by (nonlinear_arith)
                requires
                    0 <= i < w * h,
                    w >= 0,
            ;
            lemma_source_index(
                i as int,
                src@.len() as int,
                stride as int,
                w as int,
                h as int,
                step as int,
                offset as int,
            );
        }
        let row: usize = i / w;
        let col: usize = i % w;
        out.push(src[row * stride + col * step + offset]);
        i = i + 1;
    }
    assert(out@ =~= plane(
        src@,
        stride as int,
        w as int,
        h as int,
        step as int,
        offset as int,
    ));
    out
}

/// What an NV12 image of this size becomes: luma without padding, and chroma
/// split into its even (U) and odd (V) bytes.
pub open spec fn is_deinterleaved(
    r: I420Frame,
    width: u32,
    height: u32,
    y: Seq<u8>,
    y_stride: usize,
    uv: Seq<u8>,
    uv_stride: usize,
) -> bool {
    let cw = half_up(width as int);
    let ch = half_up(height as int);
    &&& r.width == width
    &&& r.height == height
    &&& r.y@ == plane(y, y_stride as int, width as int, height as int, 1, 0)
    &&& r.u@ == plane(uv, uv_stride as int, cw, ch, 2, 0)
    &&& r.v@ == plane(uv, uv_stride as int, cw, ch, 2, 1)
}

/// The two planes of an NV12 image hold every byte that the size asks for.
pub open spec fn nv12_fits(
    width: u32,
    height: u32,
    y_len: int,
    y_stride: usize,
    uv_len: int,
    uv_stride: usize,
) -> bool {
    &&& width * height <= usize::MAX
    &&& half_up(width as int) * 2 <= usize::MAX
    &&& half_up(width as int) * half_up(height as int) <= usize::MAX
    &&& rows_fit(y_len, y_stride as int, width as int, height as int)
    &&& rows_fit(
        uv_len,
        uv_stride as int,
        half_up(width as int) * 2,
        half_up(height as int),
    )
}

/// De-interleaves an NV12 frame (luma plane and interleaved chroma plane).
pub fn nv12_to_i420(
    width: u32,
    height: u32,
    y: &[u8],
    y_stride: usize,
    uv: &[u8],
    uv_stride: usize,
) -> (r: I420Frame)
    requires
        nv12_fits(width, height, y@.len() as int, y_stride, uv@.len() as int, uv_stride),
    ensures
        is_deinterleaved(r, width, height, y@, y_stride, uv@, uv_stride),
{
    let w: usize = width as usize;
    let h: usize = height as usize;
    let cw: usize = w / 2 + w % 2;
    let ch: usize = h / 2 + h % 2;
    I420Frame {
        width,
        height,
        y: take_plane(y, y_stride, w, h, 1, 0),
        u: take_plane(uv, uv_stride, cw, ch, 2, 0),
        v: take_plane(uv, uv_stride, cw, ch, 2, 1),
    }
}

/// Luma of a BGRA pixel that starts at byte `p`: the limited-range BT.601
/// weights in 256ths.
pub open spec fn luma_at(bgra: Seq<u8>, p: int) -> int {
    (66 * bgra[p + 2] + 129 * bgra[p + 1] + 25 * bgra[p]) / 256 + 16
}

/// Channel `c` of the two-by-two block whose top-left pixel starts at byte `p`,
/// averaged to the nearest (rows are `row` bytes long).
pub open spec fn block_average(bgra: Seq<u8>, row: int, p: int, c: int) -> int {
    (bgra[p + c] + bgra[p + 4 + c] + bgra[p + row + c] + bgra[p + row + 4 + c] + 2) / 4
}

/// Blue difference of the block at `p`.
pub open spec fn blue_difference(bgra: Seq<u8>, row: int, p: int) -> int {
    (112 * block_average(bgra, row, p, 0) - 74 * block_average(bgra, row, p, 1) - 38
        * block_average(bgra, row, p, 2)) / 256 + 128
}

/// Red difference of the block at `p`.
pub open spec fn red_difference(bgra: Seq<u8>, row: int, p: int) -> int {
    (112 * block_average(bgra, row, p, 2) - 94 * block_average(bgra, row, p, 1) - 18
        * block_average(bgra, row, p, 0)) / 256 + 128
}

/// The three planes of a packed BGRA image.
pub open spec fn yuv_of_bgra(bgra: Seq<u8>, w: int, h: int) -> (Seq<u8>, Seq<u8>, Seq<u8>) {
    let row = w * 4;
    let chroma_len = ((w / 2) * (h / 2)) as nat;
    (
        Seq::new((w * h) as nat, |i: int| luma_at(bgra, i * 4) as u8),
        Seq::new(
            chroma_len,
            |i: int|
                blue_difference(bgra, row, i / (w / 2) * 2 * row + i % (w / 2) * 8) as u8,
        ),
        Seq::new(
            chroma_len,
            |i: int|
                red_difference(bgra, row, i / (w / 2) * 2 * row + i % (w / 2) * 8) as u8,
        ),
    )
}

/// Calls `YUVBuffer::from_bgra8_source` of the openh264 crate and copies its
/// three planes out. It weighs each pixel for the luma plane and the rounded
/// average of each two-by-two block for the chroma planes, all in integers.
#[verifier::external_body]
fn yuv_from_bgra(packed: &[u8], w: usize, h: usize) -> (r: (Vec<u8>, Vec<u8>, Vec<u8>))
    requires
        w % 2 == 0,
        h % 2 == 0,
        w * 4 <= usize::MAX,
        packed@.len() == w * h * 4,
    ensures
        r.0@ == yuv_of_bgra(packed@, w as int, h as int).0,
        r.1@ == yuv_of_bgra(packed@, w as int, h as int).1,
        r.2@ == yuv_of_bgra(packed@, w as int, h as int).2,
{
    let yuv = YUVBuffer::from_bgra8_source(BgraSliceU8::new(packed, (w, h)));
    (yuv.y().to_vec(), yuv.u().to_vec(), yuv.v().to_vec())
}

/// A BGRA image of this size holds every byte asked for.
pub open spec fn bgra_fits(width: u32, height: u32, len: int, stride: usize) -> bool {
    &&& width * 4 * height <= usize::MAX
    &&& width * 4 <= usize::MAX
    &&& if stride == width * 4 {
        len == width * 4 * height
    } else {
        rows_fit(len, stride as int, width * 4, height as int)
    }
}

/// What a BGRA image of this size becomes.
pub open spec fn is_converted(
    r: I420Frame,
    width: u32,
    height: u32,
    data: Seq<u8>,
    stride: usize,
) -> bool {
    let packed = plane(data, stride as int, width * 4, height as int, 1, 0);
    let yuv = yuv_of_bgra(packed, width as int, height as int);
    &&& r.width == width
    &&& r.height == height
    &&& r.y@ == yuv.0
    &&& r.u@ == yuv.1
    &&& r.v@ == yuv.2
}

/// Converts a packed BGRA frame of even dimensions.
pub fn bgra_to_i420(width: u32, height: u32, data: &[u8], stride: usize) -> (r: I420Frame)
    requires
        width % 2 == 0,
        height % 2 == 0,
        bgra_fits(width, height, data@.len() as int, stride),
    ensures
        is_converted(r, width, height, data@, stride),
{
    let w: usize = width as usize;
    let h: usize = height as usize;
    let row_bytes: usize = w * 4;
    let (y, u, v) = if stride == row_bytes {
        proof {
            lemma_packed_is_itself(data@, row_bytes as int, h as int);
            assert(w * h * 4 == w * 4 * h) by (nonlinear_arith);
        }
        yuv_from_bgra(data, w, h)
    } else {
        let packed: Vec<u8> = take_plane(data, stride, row_bytes, h, 1, 0);
        proof {
            assert(w * h * 4 == w * 4 * h) by (nonlinear_arith);
        }
        yuv_from_bgra(packed.as_slice(), w, h)
    };
    I420Frame { width, height, y, u, v }
}

/// Without padding the packed plane is the buffer itself.
proof fn lemma_packed_is_itself(data: Seq<u8>, row: int, h: int)
    requires
        data.len() == row * h,
        row >= 0,
        h >= 0,
    ensures
        plane(data, row, row, h, 1, 0) == data,
{
    assert forall|i: int| 0 <= i < row * h implies plane(data, row, row, h, 1, 0)[i] == data[i] by {
        assert(row > 0) by (nonlinear_arith)
            requires
                0 <= i < row * h,
                row >= 0,
        ;
        vstd::arithmetic::div_mod::lemma_fundamental_div_mod(i, row);
        assert(i / row * row == row * (i / row)) by (nonlinear_arith);
    }
    assert(plane(data, row, row, h, 1, 0) =~= data);
}

/// `to_i420` can read every byte it needs of `frame`.
pub open spec fn convertible(frame: RawFrame) -> bool {
    match frame {
        RawFrame::Nv12 { width, height, y, y_stride, uv, uv_stride, .. } => nv12_fits(
            crate::arith::even(width as int) as u32,
            crate::arith::even(height as int) as u32,
            y@.len() as int,
            y_stride,
            uv@.len() as int,
            uv_stride,
        ),
        RawFrame::Bgra { width, height, data, stride, .. } => bgra_fits(
            crate::arith::even(width as int) as u32,
            crate::arith::even(height as int) as u32,
            data@.len() as int,
            stride,
        ),
    }
}

/// Whether a plane of `len` bytes holds `h` rows of `row` bytes.
pub(crate) fn has_rows(len: usize, stride: usize, row: u64, h: u64) -> (r: bool)
    ensures
        r == rows_fit(len as int, stride as int, row as int, h as int),
{
    if h == 0 {
        return true;
    }
    let above: u128 = wide_mul(h - 1, stride as u64);
    proof {
        let above_int = (h - 1) * stride;
        assert(0 <= above_int <= 0xffff_ffff_ffff_fffe * 0xffff_ffff_ffff_ffff) by (nonlinear_arith)
            requires
                0 <= h - 1 <= 0xffff_ffff_ffff_fffe,
                0 <= stride <= 0xffff_ffff_ffff_ffff,
                above_int == (h - 1) * stride,
        ;
    }
    above + (row as u128) <= len as u128
}

pub(crate) fn fits_usize(a: u64, b: u64) -> (r: bool)
    ensures
        r == (a * b <= usize::MAX),
{
    wide_mul(a, b) <= usize::MAX as u128
}

/// Whether `to_i420` can read every byte it needs of a frame.
pub fn can_convert(frame: &RawFrame) -> (r: bool)
    ensures
        r == convertible(*frame),
{
    match frame {
        RawFrame::Nv12 { width, height, y, y_stride, uv, uv_stride, .. } => {
            let (ew, eh): (u32, u32) = even_dims(*width, *height);
            let w: u64 = ew as u64;
            let h: u64 = eh as u64;
            let cw: u64 = w / 2 + w % 2;
            let ch: u64 = h / 2 + h % 2;
            fits_usize(w, h) && fits_usize(cw, 2) && fits_usize(cw, ch) && has_rows(
                y.len(),
                *y_stride,
                w,
                h,
            ) && has_rows(uv.len(), *uv_stride, cw * 2, ch)
        },
        RawFrame::Bgra { width, height, data, stride, .. } => {
            let (ew, eh): (u32, u32) = even_dims(*width, *height);
            let row: u64 = ew as u64 * 4;
            let total: u128 = wide_mul(row, eh as u64);
            total <= usize::MAX as u128 && fits_usize(row, 1) && if *stride as u64 == row {
                data.len() as u128 == total
            } else {
                has_rows(data.len(), *stride, row, eh as u64)
            }
        },
    }
}

/// `r` is the I420 form of `frame`, cropped to even dimensions.
pub open spec fn is_i420_of(r: I420Frame, frame: RawFrame) -> bool {
    match frame {
        RawFrame::Nv12 { width, height, y, y_stride, uv, uv_stride, .. } => is_deinterleaved(
            r,
            crate::arith::even(width as int) as u32,
            crate::arith::even(height as int) as u32,
            y@,
            y_stride,
            uv@,
            uv_stride,
        ),
        RawFrame::Bgra { width, height, data, stride, .. } => is_converted(
            r,
            crate::arith::even(width as int) as u32,
            crate::arith::even(height as int) as u32,
            data@,
            stride,
        ),
    }
}

/// The planes of a converted frame have the lengths that its even dimensions
/// call for.
pub proof fn lemma_i420_lengths(r: I420Frame, frame: RawFrame)
    requires
        is_i420_of(r, frame),
    ensures
        r.width % 2 == 0,
        r.height % 2 == 0,
        r.y@.len() == r.height * r.width,
        r.u@.len() == (r.height / 2) * (r.width / 2),
        r.v@.len() == (r.height / 2) * (r.width / 2),
{
    let w = r.width as int;
    let h = r.height as int;
    assert(w * h == h * w && (w / 2) * (h / 2) == (h / 2) * (w / 2)) by (nonlinear_arith);
    assert(0 <= w * h && 0 <= (w / 2) * (h / 2)) by (nonlinear_arith)
        requires
            w >= 0,
            h >= 0,
    ;
}

/// Converts whichever kind of frame this is, cropped to even dimensions (the
/// encoder requires them).
pub fn to_i420(frame: &RawFrame) -> (r: I420Frame)
    requires
        convertible(*frame),
    ensures
        is_i420_of(r, *frame),
{
    match frame {
        RawFrame::Nv12 { width, height, y, y_stride, uv, uv_stride, .. } => {
            let (ew, eh) = even_dims(*width, *height);
            nv12_to_i420(ew, eh, y.as_slice(), *y_stride, uv.as_slice(), *uv_stride)
        },
        RawFrame::Bgra { width, height, data, stride, .. } => {
            let (ew, eh) = even_dims(*width, *height);
            bgra_to_i420(ew, eh, data.as_slice(), *stride)
        },
    }
}

/// Both dimensions without their lowest bit.
pub fn even_dims(width: u32, height: u32) -> (r: (u32, u32))
    ensures
        r.0 == crate::arith::even(width as int),
        r.1 == crate::arith::even(height as int),
{
    (width - width % 2, height - height % 2)
}

/// `a` and `b` taken in turns.
pub open spec fn interleaved(a: Seq<u8>, b: Seq<u8>) -> Seq<u8> {
    Seq::new(
        a.len() * 2,
        |i: int|
            if i % 2 == 0 {
                a[i / 2]
            } else {
                b[i / 2]
            },
    )
}

impl I420Frame {
    /// The chroma planes hold one byte for each two-by-two block.
    pub open spec fn chroma_complete(self) -> bool {
        let n = half_up(self.width as int) * half_up(self.height as int);
        &&& n * 2 <= usize::MAX
        &&& self.u@.len() >= n
        &&& self.v@.len() >= n
    }
}

/// Interleaves the chroma planes into NV12: the luma plane unchanged, and a
/// dense plane U0 V0 U1 V1 and so on.
pub fn i420_to_nv12(frame: &I420Frame) -> (r: (Vec<u8>, Vec<u8>))
    requires
        frame.chroma_complete(),
    ensures
        r.0@ == frame.y@,
        r.1@ == interleaved(
            frame.u@.take(half_up(frame.width as int) * half_up(frame.height as int)),
            frame.v@.take(half_up(frame.width as int) * half_up(frame.height as int)),
        ),
{
    let w: u64 = frame.width as u64;
    let h: u64 = frame.height as u64;
    proof {
        assert(0 <= half_up(w as int) * half_up(h as int)) by (nonlinear_arith)
            requires
                half_up(w as int) >= 0,
                half_up(h as int) >= 0,
        ;
    }
    let cw: u32 = (w / 2 + w % 2) as u32;
    let ch: u32 = (h / 2 + h % 2) as u32;
    let n: usize = crate::arith::wide_mul_u32(cw, ch) as usize;
    let mut uv: Vec<u8> = Vec::new();
    let mut i: usize = 0;
    while i < n
        invariant
            frame.chroma_complete(),
            n == half_up(frame.width as int) * half_up(frame.height as int),
            i <= n,
            uv@.len() == i * 2,
            forall|j: int|
                0 <= j < uv@.len() ==> uv@[j] == #[trigger] interleaved(
                    frame.u@.take(n as int),
                    frame.v@.take(n as int),
                )[j],
        decreases n - i,
    {
        uv.push(frame.u[i]);
        uv.push(frame.v[i]);
        i = i + 1;
    }
    assert(uv@ =~= interleaved(frame.u@.take(n as int), frame.v@.take(n as int)));
    let mut y: Vec<u8> = Vec::new();
    y.extend_from_slice(frame.y.as_slice());
    assert(y@ =~= frame.y@);
    (y, uv)
}

/// Splitting a dense NV12 image and interleaving it again gives the image back.
pub proof fn law_nv12_survives_the_round_trip(
    frame: I420Frame,
    width: u32,
    height: u32,
    y: Seq<u8>,
    uv: Seq<u8>,
    uv_stride: usize,
)
    requires
        y.len() == width * height,
        uv_stride == half_up(width as int) * 2,
        uv.len() == uv_stride * half_up(height as int),
        is_deinterleaved(frame, width, height, y, width as usize, uv, uv_stride),
        width <= usize::MAX,
    ensures
        frame.y@ == y,
        interleaved(frame.u@, frame.v@) == uv,
{
    let w = width as int;
    let h = height as int;
    let cw = half_up(w);
    let ch = half_up(h);
    lemma_packed_is_itself(y, w, h);
    assert(frame.u@.len() * 2 == uv.len()) by (nonlinear_arith)
        requires
            frame.u@.len() == cw * ch,
            uv.len() == (cw * 2) * ch,
    ;
    assert forall|i: int| 0 <= i < uv.len() implies interleaved(frame.u@, frame.v@)[i] == uv[i] by {
        lemma_pair_index(i / 2, cw, ch);
    }
    assert(interleaved(frame.u@, frame.v@) =~= uv);
}

/// Interleaving a dense I420 image into NV12 and splitting that again gives the
/// image back, at every size.
pub proof fn law_i420_survives_the_round_trip(frame: I420Frame, uv_stride: usize)
    requires
        frame.y@.len() == frame.width * frame.height,
        frame.u@.len() == half_up(frame.width as int) * half_up(frame.height as int),
        frame.v@.len() == frame.u@.len(),
        uv_stride == half_up(frame.width as int) * 2,
        frame.width <= usize::MAX,
    ensures
        is_deinterleaved(
            frame,
            frame.width,
            frame.height,
            frame.y@,
            frame.width as usize,
            interleaved(frame.u@, frame.v@),
            uv_stride,
        ),
{
    let cw = half_up(frame.width as int);
    let ch = half_up(frame.height as int);
    let uv = interleaved(frame.u@, frame.v@);
    lemma_packed_is_itself(frame.y@, frame.width as int, frame.height as int);
    assert forall|k: int| 0 <= k < cw * ch implies frame.u@[k] == plane(
        uv,
        uv_stride as int,
        cw,
        ch,
        2,
        0,
    )[k] && frame.v@[k] == plane(uv, uv_stride as int, cw, ch, 2, 1)[k] by {
        lemma_pair_index(k, cw, ch);
    }
    assert(frame.u@ =~= plane(uv, uv_stride as int, cw, ch, 2, 0));
    assert(frame.v@ =~= plane(uv, uv_stride as int, cw, ch, 2, 1));
}

/// In dense rows of pairs, pair `k` of the image is pair `k` of the buffer.
proof fn lemma_pair_index(k: int, cw: int, ch: int)
    requires
        0 <= k < cw * ch,
        cw >= 0,
    ensures
        cw > 0,
        k / cw * (cw * 2) + k % cw * 2 == k * 2,
{
    assert(cw > 0) by (nonlinear_arith)
        requires
            0 <= k < cw * ch,
            cw >= 0,
    ;
    vstd::arithmetic::div_mod::lemma_fundamental_div_mod(k, cw);
    assert(k / cw * (cw * 2) + k % cw * 2 == k * 2) by (nonlinear_arith)
        requires
            k == cw * (k / cw) + k % cw,
    ;
}

/// Where row `row` and column `col` lie in a dense plane, and back.
pub proof fn lemma_dense_index(row: int, col: int, w: int, h: int)
    requires
        0 <= col < w,
        0 <= row < h,
    ensures
        0 <= row * w + col < w * h,
        (row * w + col) / w == row,
        (row * w + col) % w == col,
{
    let i = row * w + col;
    assert(0 <= i < w * h && row * w == w * row) by (nonlinear_arith)
        requires
            0 <= col < w,
            0 <= row < h,
            i == row * w + col,
    ;
    vstd::arithmetic::div_mod::lemma_fundamental_div_mod_converse(i, w, row, col);
}

/// Splitting NV12 keeps every sample in its place: pixel `col` of row `row`, and the
/// two halves of pair `pair` of chroma row `line`, first blue and then red.
pub proof fn law_samples_keep_their_places(
    r: I420Frame,
    frame: RawFrame,
    row: int,
    col: int,
    line: int,
    pair: int,
)
    requires
        is_i420_of(r, frame),
        frame is Nv12,
        0 <= row < r.height,
        0 <= col < r.width,
        0 <= line < r.height / 2,
        0 <= pair < r.width / 2,
    ensures
        frame matches RawFrame::Nv12 { width, height, y, y_stride, uv, uv_stride, .. } ==> {
            &&& r.width == width - width % 2
            &&& r.height == height - height % 2
            &&& r.y@[row * r.width + col] == y@[row * y_stride + col]
            &&& r.u@[line * (r.width / 2) + pair] == uv@[line * uv_stride + 2 * pair]
            &&& r.v@[line * (r.width / 2) + pair] == uv@[line * uv_stride + 2 * pair + 1]
        },
{
    let w = r.width as int;
    let h = r.height as int;
    lemma_dense_index(row, col, w, h);
    lemma_dense_index(line, pair, w / 2, h / 2);
    if let RawFrame::Nv12 { .. } = frame {
        assert(half_up(w) == w / 2 && half_up(h) == h / 2);
    }
}

/// A converted picture has the frame's size without odd pixels, and its luma is
/// that of the pixels in their places, read past the padding of the rows.
pub proof fn law_pixels_keep_their_places(r: I420Frame, frame: RawFrame, row: int, col: int)
    requires
        is_i420_of(r, frame),
        frame is Bgra,
        0 <= row < r.height,
        0 <= col < r.width,
    ensures
        frame matches RawFrame::Bgra { width, height, data, stride, .. } ==> {
            let at = row * stride + col * 4;
            &&& r.width == width - width % 2
            &&& r.height == height - height % 2
            &&& r.y@[row * r.width + col] == (66 * data@[at + 2] + 129 * data@[at + 1] + 25
                * data@[at]) / 256 + 16
        },
{
    if let RawFrame::Bgra { width, height, data, stride, .. } = frame {
        let w = r.width as int;
        let h = r.height as int;
        let i = row * w + col;
        lemma_dense_index(row, col, w, h);
        let packed = plane(data@, stride as int, w * 4, h, 1, 0);
        assert((w * 4) * h == w * h * 4 && i * 4 == row * (w * 4) + col * 4) by (nonlinear_arith)
            requires
                i == row * w + col,
        ;
        lemma_dense_index(row, col * 4, w * 4, h);
        lemma_dense_index(row, col * 4 + 1, w * 4, h);
        lemma_dense_index(row, col * 4 + 2, w * 4, h);
        let at = row * stride + col * 4;
        assert(packed[i * 4] == data@[at]);
        assert(packed[i * 4 + 1] == data@[at + 1]);
        assert(packed[i * 4 + 2] == data@[at + 2]);
        assert(w * h >= 0) by (nonlinear_arith)
            requires
                w >= 0,
                h >= 0,
        ;
    }
}

/// Taking two planes in turns puts the bytes of the first at the even places and
/// those of the second at the odd ones.
pub proof fn law_turns_are_taken(a: Seq<u8>, b: Seq<u8>, i: int)
    requires
        a.len() == b.len(),
        0 <= i < a.len(),
    ensures
        interleaved(a, b).len() == a.len() + b.len(),
        interleaved(a, b)[2 * i] == a[i],
        interleaved(a, b)[2 * i + 1] == b[i],
{
}

/// A frame can be converted as soon as each of its planes holds its rows, the last
/// one without padding.
pub proof fn law_complete_frames_can_be_converted(frame: RawFrame)
    requires
        frame is Nv12,
    ensures
        frame matches RawFrame::Nv12 { width, height, y, y_stride, uv, uv_stride, .. } ==> {
            let w = width - width % 2;
            let h = height - height % 2;
            w * h <= usize::MAX && w <= usize::MAX && h > 0 ==> convertible(frame) == ((h - 1)
                * y_stride + w <= y@.len() && (h / 2 - 1) * uv_stride + w <= uv@.len())
        },
{
    if let RawFrame::Nv12 { width, height, .. } = frame {
        let w = width - width % 2;
        let h = height - height % 2;
        assert(half_up(w) == w / 2 && half_up(h) == h / 2 && half_up(w) * 2 == w);
        assert((w / 2) * (h / 2) <= w * h) by (nonlinear_arith)
            requires
                w >= 0,
                h >= 0,
        ;
    }
}

} // verus!
