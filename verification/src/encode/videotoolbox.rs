//! The VideoToolbox backend of macOS: how a session is set up, what is handed to
//! it and what becomes of its output.

use vstd::prelude::*;

use super::convert::has_rows;
use super::{bitrate_bps, check_size, EncodeError, EncodedFrame, EncoderConfig, RateTarget};
use crate::arith::wide_mul;
use crate::capture::RawFrame;
use crate::text::{concat, concat3, signed_decimal_of};

verus! {

/// The value of a session property.
#[derive(Debug, Clone, Copy, PartialEq, Eq, Structural)]
pub enum PropertyValue {
    Flag(bool),
    Number(i32),
    /// So many bytes in so many seconds.
    Limit { bytes: i32, seconds: i32 },
    /// Constrained Baseline, at whatever level fits.
    ConstrainedBaseline,
}

/// A property of a session. A session without one that is required is of no use;
/// one that is not required may be refused.
#[derive(Debug, Clone, Copy, PartialEq, Eq)]
pub struct Property {
    pub name: &'static str,
    pub value: PropertyValue,
    pub required: bool,
}

/// The properties that set the rate, which a running session takes too: the
/// average, a hard limit for each second, and the frame rate to expect.
pub open spec fn rate_properties(bitrate_kbps: u32, fps: u32) -> Seq<Property> {
    let bps = super::bits_per_second(bitrate_kbps);
    seq![
        Property {
            name: "AverageBitRate",
            value: PropertyValue::Number(bps as u32 as i32),
            required: true,
        },
        Property {
            name: "DataRateLimits",
            value: PropertyValue::Limit { bytes: (bps / 8) as i32, seconds: 1 },
            required: true,
        },
        Property {
            name: "ExpectedFrameRate",
            value: PropertyValue::Number(fps as i32),
            required: true,
        },
    ]
}

/// All properties of a session, in the order in which they are set: real time,
/// no reordering of frames, and as little delay as the encoder grants.
pub open spec fn session_properties(cfg: EncoderConfig) -> Seq<Property> {
    let profile = seq![
        Property { name: "RealTime", value: PropertyValue::Flag(true), required: true },
        Property {
            name: "ProfileLevel",
            value: PropertyValue::ConstrainedBaseline,
            required: true,
        },
    ];
    let frames = seq![
        Property {
            name: "AllowFrameReordering",
            value: PropertyValue::Flag(false),
            required: true,
        },
        Property {
            name: "MaxKeyFrameInterval",
            value: PropertyValue::Number(cfg.keyframe_interval_frames as i32),
            required: true,
        },
        Property { name: "MaxFrameDelayCount", value: PropertyValue::Number(0), required: false },
    ];
    let quality = match cfg.max_qp {
        Some(qp) => seq![
            Property {
                name: "MaxAllowedFrameQP",
                value: PropertyValue::Number(qp as i32),
                required: false,
            },
        ],
        None => Seq::empty(),
    };
    profile + rate_properties(cfg.bitrate_kbps, cfg.fps) + frames + quality
}

/// The properties that move a session to a rate.
pub fn apply_rate(bitrate_kbps: u32, fps: u32) -> (r: Vec<Property>)
    ensures
        r@ == rate_properties(bitrate_kbps, fps),
{
    let bps: u32 = bitrate_bps(bitrate_kbps);
    let mut list: Vec<Property> = Vec::new();
    list.push(
        Property {
            name: "AverageBitRate",
            value: PropertyValue::Number(bps as i32),
            required: true,
        },
    );
    list.push(
        Property {
            name: "DataRateLimits",
            value: PropertyValue::Limit { bytes: (bps / 8) as i32, seconds: 1 },
            required: true,
        },
    );
    list.push(
        Property {
            name: "ExpectedFrameRate",
            value: PropertyValue::Number(fps as i32),
            required: true,
        },
    );
    list
}

/// The properties that a new session is given.
pub fn configure_session(cfg: &EncoderConfig) -> (r: Vec<Property>)
    ensures
        r@ == session_properties(*cfg),
{
    let mut list: Vec<Property> = Vec::new();
    list.push(Property { name: "RealTime", value: PropertyValue::Flag(true), required: true });
    list.push(
        Property {
            name: "ProfileLevel",
            value: PropertyValue::ConstrainedBaseline,
            required: true,
        },
    );
    let mut rate: Vec<Property> = apply_rate(cfg.bitrate_kbps, cfg.fps);
    list.append(&mut rate);
    list.push(
        Property {
            name: "AllowFrameReordering",
            value: PropertyValue::Flag(false),
            required: true,
        },
    );
    list.push(
        Property {
            name: "MaxKeyFrameInterval",
            value: PropertyValue::Number(cfg.keyframe_interval_frames as i32),
            required: true,
        },
    );
    list.push(
        Property { name: "MaxFrameDelayCount", value: PropertyValue::Number(0), required: false },
    );
    if let Some(qp) = cfg.max_qp {
        list.push(
            Property {
                name: "MaxAllowedFrameQP",
                value: PropertyValue::Number(qp as i32),
                required: false,
            },
        );
    }
    assert(list@ =~= session_properties(*cfg));
    list
}

/// Whether the session can go on after setting a property came to `status`.
pub fn set_property(property: &Property, status: i32) -> (r: Result<(), EncodeError>)
    ensures
        match r {
            Ok(_) => status == 0 || !property.required,
            Err(err) => {
                &&& status != 0 && property.required
                &&& err matches EncodeError::Backend(text) && text@
                    == "VideoToolbox VTSessionSetProperty("@ + property.name@ + "): OSStatus "@
                    + crate::text::signed_decimal(status as int)
            },
        },
{
    if status == 0 || !property.required {
        return Ok(());
    }
    let mut text: String = concat3(
        "VideoToolbox VTSessionSetProperty(",
        property.name,
        "): OSStatus ",
    );
    text.append(signed_decimal_of(status).as_str());
    Err(EncodeError::Backend(text))
}

/// The error of a call that came to `status`; none where that is 0.
pub fn check_status(call: &str, status: i32) -> (r: Result<(), EncodeError>)
    ensures
        match r {
            Ok(_) => status == 0,
            Err(err) => status != 0 && (err matches EncodeError::Backend(text) && text@
                == "VideoToolbox "@ + call@ + ": OSStatus "@ + crate::text::signed_decimal(
                status as int,
            )),
        },
{
    if status == 0 {
        return Ok(());
    }
    let mut text: String = concat3("VideoToolbox ", call, ": OSStatus ");
    text.append(signed_decimal_of(status).as_str());
    Err(EncodeError::Backend(text))
}

/// The presentation time of a frame, in microseconds since the encoder was
/// opened.
pub fn presentation_us(started: u64, now: u64) -> (r: i64)
    ensures
        r == crate::arith::monus(now as int, started as int) / 1000,
{
    (now.saturating_sub(started) / 1000) as i64
}

/// The state of an encoder around its session.
pub struct VideoToolboxEncoder {
    pub cfg: EncoderConfig,
    /// When it was opened.
    pub started: u64,
}

/// How a frame is handed to the session.
#[derive(Debug, Clone, PartialEq, Eq)]
pub struct Submission {
    pub planes: Vec<PlaneRows>,
    pub presentation_us: i64,
    pub force_keyframe: bool,
}

impl VideoToolboxEncoder {
    pub fn new(cfg: EncoderConfig, now: u64) -> (r: Self)
        ensures
            r.cfg == cfg,
            r.started == now,
    {
        VideoToolboxEncoder { cfg, started: now }
    }

    /// What to hand to the session for a frame. Only frames of the size that the
    /// encoder was opened for are taken.
    pub fn submission(&self, frame: &RawFrame, force_keyframe: bool, now: u64) -> (r: Result<
        Submission,
        EncodeError,
    >)
        requires
            super::dims_of(*frame).0 * 4 <= usize::MAX,
        ensures
            match r {
                Ok(s) => {
                    &&& super::dims_of(*frame) == (self.cfg.width, self.cfg.height)
                    &&& s.planes@ == planes_of(*frame)
                    &&& s.presentation_us == crate::arith::monus(
                        now as int,
                        self.started as int,
                    ) / 1000
                    &&& s.force_keyframe == force_keyframe
                },
                Err(err) => {
                    &&& super::dims_of(*frame) != (self.cfg.width, self.cfg.height)
                    &&& err matches EncodeError::Backend(text) && text@ == super::size_complaint(
                        "VideoToolbox"@,
                        self.cfg,
                        *frame,
                    )
                },
            },
    {
        match check_size("VideoToolbox", &self.cfg, frame) {
            Err(err) => Err(err),
            Ok(_) => Ok(
                Submission {
                    planes: frame_planes(frame),
                    presentation_us: presentation_us(self.started, now),
                    force_keyframe,
                },
            ),
        }
    }

    /// The properties that move the running session to a rate.
    pub fn set_rate(&self, target: RateTarget) -> (r: Vec<Property>)
        ensures
            r@ == rate_properties(target.bitrate_kbps, target.fps),
    {
        apply_rate(target.bitrate_kbps, target.fps)
    }
}

/// The rows of one plane to copy: how many, of how many bytes, and how far apart
/// they are in the frame.
#[derive(Debug, Clone, Copy, PartialEq, Eq, Structural)]
pub struct PlaneRows {
    pub rows: usize,
    pub row_bytes: usize,
    pub src_stride: usize,
}

/// The planes of a frame: luma and interleaved chroma, or one of four bytes for
/// each pixel.
pub open spec fn planes_of(frame: RawFrame) -> Seq<PlaneRows> {
    match frame {
        RawFrame::Nv12 { width, height, y_stride, uv_stride, .. } => seq![
            PlaneRows {
                rows: height as usize,
                row_bytes: width as usize,
                src_stride: y_stride,
            },
            PlaneRows {
                rows: super::convert::half_up(height as int) as usize,
                row_bytes: (super::convert::half_up(width as int) * 2) as usize,
                src_stride: uv_stride,
            },
        ],
        RawFrame::Bgra { width, height, stride, .. } => seq![
            PlaneRows {
                rows: height as usize,
                row_bytes: (width * 4) as usize,
                src_stride: stride,
            },
        ],
    }
}

/// The planes to copy into a pixel buffer.
pub fn frame_planes(frame: &RawFrame) -> (r: Vec<PlaneRows>)
    requires
        super::dims_of(*frame).0 * 4 <= usize::MAX,
    ensures
        r@ == planes_of(*frame),
{
    let mut list: Vec<PlaneRows> = Vec::new();
    match frame {
        RawFrame::Nv12 { width, height, y_stride, uv_stride, .. } => {
            let w: usize = *width as usize;
            let h: usize = *height as usize;
            list.push(PlaneRows { rows: h, row_bytes: w, src_stride: *y_stride });
            list.push(
                PlaneRows {
                    rows: h / 2 + h % 2,
                    row_bytes: (w / 2 + w % 2) * 2,
                    src_stride: *uv_stride,
                },
            );
        },
        RawFrame::Bgra { width, height, stride, .. } => {
            let w: usize = *width as usize;
            list.push(
                PlaneRows { rows: *height as usize, row_bytes: w * 4, src_stride: *stride },
            );
        },
    }
    assert(list@ =~= planes_of(*frame));
    list
}

/// `dst` after rows of `src` were copied into it: within the first `row_bytes`
/// of each row the bytes of `src`, elsewhere as before.
pub open spec fn rows_copied(
    src: Seq<u8>,
    shape: PlaneRows,
    before: Seq<u8>,
    dst_stride: int,
) -> Seq<u8> {
    Seq::new(
        before.len(),
        |k: int|
            if k / dst_stride < shape.rows && k % dst_stride < shape.row_bytes {
                src[k / dst_stride * shape.src_stride + k % dst_stride]
            } else {
                before[k]
            },
    )
}

/// A plane can be copied into `dst_len` bytes of rows `dst_stride` bytes apart.
pub open spec fn copyable(src_len: int, shape: PlaneRows, dst_len: int, dst_stride: int) -> bool {
    &&& 0 < dst_stride
    &&& shape.row_bytes <= dst_stride
    &&& dst_len == shape.rows * dst_stride
    &&& super::convert::rows_fit(
        src_len,
        shape.src_stride as int,
        shape.row_bytes as int,
        shape.rows as int,
    )
}

/// Whether `copy_plane` takes a plane and a buffer of these sizes.
pub fn can_copy_plane(src: &[u8], shape: PlaneRows, dst_len: usize, dst_stride: usize) -> (r: bool)
    ensures
        r == copyable(src@.len() as int, shape, dst_len as int, dst_stride as int),
{
    0 < dst_stride && shape.row_bytes <= dst_stride && wide_mul(
        shape.rows as u64,
        dst_stride as u64,
    ) == dst_len as u128 && has_rows(
        src.len(),
        shape.src_stride,
        shape.row_bytes as u64,
        shape.rows as u64,
    )
}

/// Copies the rows of a plane into a buffer whose rows are `dst_stride` bytes
/// apart.
pub fn copy_plane(src: &[u8], shape: PlaneRows, dst: Vec<u8>, dst_stride: usize) -> (r: Vec<u8>)
    requires
        copyable(src@.len() as int, shape, dst@.len() as int, dst_stride as int),
    ensures
        r@ == rows_copied(src@, shape, dst@, dst_stride as int),
{
    let ghost before = dst@;
    let ghost goal = rows_copied(src@, shape, dst@, dst_stride as int);
    let len: usize = src.len();
    let total: usize = dst.len();
    let mut out: Vec<u8> = dst;
    let mut row: usize = 0;
    while row < shape.rows
        invariant
            0 < dst_stride,
            shape.row_bytes <= dst_stride,
            total == shape.rows * dst_stride,
            len == src@.len(),
            out@.len() == total,
            before.len() == total,
            goal == rows_copied(src@, shape, before, dst_stride as int),
            super::convert::rows_fit(
                src@.len() as int,
                shape.src_stride as int,
                shape.row_bytes as int,
                shape.rows as int,
            ),
            row <= shape.rows,
            forall|k: int|
                0 <= k < total ==> #[trigger] out@[k] == if k < row * dst_stride {
                    goal[k]
                } else {
                    before[k]
                },
        decreases shape.rows - row,
    {
        let ghost base = row * dst_stride;
        let ghost from = row * shape.src_stride;
        proof {
            assert(base + dst_stride <= total && base >= 0 && from >= 0 && from + shape.row_bytes
                <= len) by (nonlinear_arith)
                requires
                    0 <= row < shape.rows,
                    dst_stride > 0,
                    shape.src_stride >= 0,
                    base == row * dst_stride,
                    from == row * shape.src_stride,
                    total == shape.rows * dst_stride,
                    (shape.rows - 1) * shape.src_stride + shape.row_bytes <= len,
            ;
        }
        let start: usize = row * dst_stride;
        let src_start: usize = row * shape.src_stride;
        let mut col: usize = 0;
        while col < shape.row_bytes
            invariant
                0 < dst_stride,
                shape.row_bytes <= dst_stride,
                row < shape.rows,
                start == row * dst_stride,
                src_start == row * shape.src_stride,
                start + dst_stride <= total,
                src_start + shape.row_bytes <= len,
                len == src@.len(),
                out@.len() == total,
                before.len() == total,
                goal == rows_copied(src@, shape, before, dst_stride as int),
                col <= shape.row_bytes,
                forall|k: int|
                    0 <= k < total ==> #[trigger] out@[k] == if k < start + col {
                        goal[k]
                    } else {
                        before[k]
                    },
            decreases shape.row_bytes - col,
        {
            let ghost k = start + col;
            proof {
                vstd::arithmetic::div_mod::lemma_fundamental_div_mod_converse(
                    k,
                    dst_stride as int,
                    row as int,
                    col as int,
                );
                assert(row * dst_stride == dst_stride * row) by (nonlinear_arith);
                assert(goal[k] == src@[src_start + col]);
            }
            out.set(start + col, src[src_start + col]);
            col = col + 1;
        }
        proof {
            assert forall|k: int| start + col <= k < start + dst_stride implies goal[k]
                == before[k] by {
                assert(row * dst_stride == dst_stride * row) by (nonlinear_arith);
                vstd::arithmetic::div_mod::lemma_fundamental_div_mod_converse(
                    k,
                    dst_stride as int,
                    row as int,
                    k - start,
                );
            }
            assert((row + 1) * dst_stride == start + dst_stride) by (nonlinear_arith)
                requires
                    start == row * dst_stride,
            ;
        }
        row = row + 1;
    }
    assert(out@ =~= goal);
    out
}

/// An encoded access unit, Annex-B.
#[derive(Debug, Clone, PartialEq, Eq)]
pub struct EncodedOutput {
    pub data: Vec<u8>,
    pub keyframe: bool,
}

/// A parameter set, and how many bytes the length in front of each unit has.
#[derive(Debug, Clone, PartialEq, Eq)]
pub struct ParameterSet {
    pub bytes: Vec<u8>,
    pub nal_length_size: usize,
}

/// What VideoToolbox hands over of a compressed frame, each part or the status
/// of reading it: the attachment that marks a frame which depends on others, the
/// two parameter sets, and the units, each behind its length.
#[derive(Debug, PartialEq, Eq)]
pub struct Sample {
    pub not_sync: Option<bool>,
    pub sps: Result<ParameterSet, i32>,
    pub pps: Result<ParameterSet, i32>,
    pub payload: Result<Vec<u8>, i32>,
}

/// Status of what does not hold together.
pub const MALFORMED: i32 = -1;

/// What comes before each unit in Annex-B.
pub open spec fn start_code() -> Seq<u8> {
    seq![0u8, 0, 0, 1]
}

/// A number in bytes, the highest first.
pub open spec fn big_endian(b: Seq<u8>) -> int
    decreases b.len(),
{
    if b.len() == 0 {
        0
    } else {
        big_endian(b.drop_last()) * 256 + b.last()
    }
}

/// Units behind lengths of `size` bytes, as Annex-B: what was turned, and
/// whether all of it could be. A unit that is longer than what is left ends it
/// in failure; a remainder too short for a length is dropped.
pub open spec fn annexb(size: nat, avcc: Seq<u8>) -> (Seq<u8>, bool)
    decreases avcc.len(),
{
    if size == 0 {
        (Seq::empty(), false)
    } else if avcc.len() < size {
        (Seq::empty(), true)
    } else {
        let len = big_endian(avcc.take(size as int));
        if len < 0 || size + len > avcc.len() {
            (Seq::empty(), false)
        } else {
            let rest = annexb(size, avcc.skip(size + len));
            (start_code() + avcc.subrange(size as int, size + len) + rest.0, rest.1)
        }
    }
}

proof fn lemma_big_endian_grows(b: Seq<u8>)
    ensures
        big_endian(b) >= 0,
    decreases b.len(),
{
    if b.len() > 0 {
        lemma_big_endian_grows(b.drop_last());
    }
}

/// The number in bytes, or the largest `usize` where it is larger.
fn length_of(avcc: &[u8], start: usize, size: usize) -> (r: usize)
    requires
        start + size <= avcc@.len(),
    ensures
        r == crate::arith::min(
            big_endian(avcc@.subrange(start as int, start + size)),
            usize::MAX as int,
        ),
{
    let total: usize = avcc.len();
    let mut len: usize = 0;
    let mut k: usize = 0;
    while k < size
        invariant
            total == avcc@.len(),
            start + size <= total,
            k <= size,
            len == crate::arith::min(
                big_endian(avcc@.subrange(start as int, start + k)),
                usize::MAX as int,
            ),
        decreases size - k,
    {
        let b: usize = avcc[start + k] as usize;
        proof {
            let s = avcc@.subrange(start as int, start + k + 1);
            assert(s.drop_last() =~= avcc@.subrange(start as int, start + k));
            lemma_big_endian_grows(s.drop_last());
        }
        len = if len <= (usize::MAX - b) / 256 {
            len * 256 + b
        } else {
            usize::MAX
        };
        k = k + 1;
    }
    len
}

/// Turns units behind lengths into Annex-B, behind what `out` holds already.
pub fn avcc_to_annexb(nal_length_size: usize, avcc: &[u8], out: &mut Vec<u8>) -> (r: Result<(), i32>)
    ensures
        final(out)@ == old(out)@ + annexb(nal_length_size as nat, avcc@).0,
        r == (if annexb(nal_length_size as nat, avcc@).1 {
            Ok::<(), i32>(())
        } else {
            Err::<(), i32>(MALFORMED)
        }),
{
    let ghost first = out@;
    let ghost all = annexb(nal_length_size as nat, avcc@);
    if nal_length_size == 0 {
        assert(out@ =~= first + all.0);
        return Err(MALFORMED);
    }
    let total: usize = avcc.len();
    let mut i: usize = 0;
    assert(avcc@.skip(0) =~= avcc@);
    while nal_length_size <= total - i
        invariant
            total == avcc@.len(),
            nal_length_size > 0,
            first == old(out)@,
            all == annexb(nal_length_size as nat, avcc@),
            i <= total,
            first + all.0 == out@ + annexb(nal_length_size as nat, avcc@.skip(i as int)).0,
            all.1 == annexb(nal_length_size as nat, avcc@.skip(i as int)).1,
        decreases total - i,
    {
        let len: usize = length_of(avcc, i, nal_length_size);
        let ghost tail = avcc@.skip(i as int);
        let ghost before = out@;
        proof {
            assert(tail.take(nal_length_size as int) =~= avcc@.subrange(
                i as int,
                i + nal_length_size,
            ));
            lemma_big_endian_grows(tail.take(nal_length_size as int));
        }
        let start: usize = i + nal_length_size;
        if len > total - start {
            assert(annexb(nal_length_size as nat, tail) == (Seq::<u8>::empty(), false));
            assert(out@ =~= first + all.0);
            return Err(MALFORMED);
        }
        let code: [u8; 4] = [0, 0, 0, 1];
        out.extend_from_slice(&code);
        let unit: &[u8] = vstd::slice::slice_subrange(avcc, start, start + len);
        out.extend_from_slice(unit);
        proof {
            assert(tail.subrange(nal_length_size as int, nal_length_size + len) =~= unit@);
            assert(tail.skip(nal_length_size + len) =~= avcc@.skip(start + len));
            assert(out@ =~= before + start_code() + unit@);
            assert(out@ + annexb(nal_length_size as nat, avcc@.skip(start + len)).0 =~= before
                + annexb(nal_length_size as nat, tail).0);
        }
        i = start + len;
    }
    assert(annexb(nal_length_size as nat, avcc@.skip(i as int)) == (Seq::<u8>::empty(), true));
    assert(out@ =~= first + all.0);
    Ok(())
}

/// A sample is a keyframe unless it is marked as one that depends on others.
pub open spec fn is_keyframe(sample: Sample) -> bool {
    sample.not_sync != Some(true)
}

/// What a sample becomes: a keyframe starts with the parameter sets, and the
/// units follow. The first part that is missing is the failure.
pub open spec fn output_of(sample: Sample) -> Result<(Seq<u8>, bool), i32> {
    match sample.sps {
        Err(status) => Err(status),
        Ok(sps) => match (is_keyframe(sample), sample.pps) {
            (true, Err(status)) => Err(status),
            (keyframe, pps) => match sample.payload {
                Err(status) => Err(status),
                Ok(avcc) => {
                    let units = annexb(sps.nal_length_size as nat, avcc@);
                    let sets = match pps {
                        Ok(p) if keyframe => start_code() + sps.bytes@ + start_code() + p.bytes@,
                        _ => Seq::empty(),
                    };
                    if units.1 {
                        Ok((sets + units.0, keyframe))
                    } else {
                        Err(MALFORMED)
                    }
                },
            },
        },
    }
}

/// `r` is this output, or this status.
pub open spec fn is_output(r: Result<EncodedOutput, i32>, o: Result<(Seq<u8>, bool), i32>) -> bool {
    match (r, o) {
        (Ok(out), Ok((data, keyframe))) => out.data@ == data && out.keyframe == keyframe,
        (Err(a), Err(b)) => a == b,
        _ => false,
    }
}

/// Turns a sample into an access unit.
pub fn encode_sample_buffer(sample: &Sample) -> (r: Result<EncodedOutput, i32>)
    ensures
        is_output(r, output_of(*sample)),
{
    let keyframe: bool = match sample.not_sync {
        Some(flag) => !flag,
        None => true,
    };
    let sps: &ParameterSet = match &sample.sps {
        Ok(sps) => sps,
        Err(status) => return Err(*status),
    };
    let mut data: Vec<u8> = Vec::new();
    let code: [u8; 4] = [0, 0, 0, 1];
    if keyframe {
        data.extend_from_slice(&code);
        data.extend_from_slice(sps.bytes.as_slice());
        match &sample.pps {
            Ok(pps) => {
                data.extend_from_slice(&code);
                data.extend_from_slice(pps.bytes.as_slice());
                assert(data@ =~= start_code() + sps.bytes@ + start_code() + pps.bytes@);
            },
            Err(status) => return Err(*status),
        }
    }
    let avcc: &Vec<u8> = match &sample.payload {
        Ok(avcc) => avcc,
        Err(status) => return Err(*status),
    };
    match avcc_to_annexb(sps.nal_length_size, avcc.as_slice(), &mut data) {
        Ok(_) => Ok(EncodedOutput { data, keyframe }),
        Err(status) => Err(status),
    }
}

/// What the output callback reports: a failure, nothing for a frame that was
/// dropped or has no sample, or the access unit.
pub fn compression_output(status: i32, dropped: bool, sample: Option<&Sample>) -> (r: Option<
    Result<EncodedOutput, i32>,
>)
    ensures
        match r {
            Some(output) => if status != 0 {
                output == Err::<EncodedOutput, i32>(status)
            } else {
                !dropped && (sample matches Some(s) && is_output(output, output_of(*s)))
            },
            None => status == 0 && (dropped || sample is None),
        },
{
    if status != 0 {
        return Some(Err(status));
    }
    if dropped {
        return None;
    }
    match sample {
        Some(s) => Some(encode_sample_buffer(s)),
        None => None,
    }
}

/// What a call of the encoder gives back of the outputs that came in during it:
/// the first, if there is one.
pub fn first_output(outputs: &[Result<EncodedOutput, i32>], captured_at: u64, now: u64) -> (r:
    Result<Option<EncodedFrame>, EncodeError>)
    ensures
        match r {
            Ok(None) => outputs@.len() == 0,
            Ok(Some(frame)) => {
                &&& outputs@.len() > 0
                &&& outputs@[0] matches Ok(out) && frame.data@ == out.data@ && frame.keyframe
                    == out.keyframe
                &&& frame.captured_at == captured_at
                &&& frame.ts == now
            },
            Err(err) => {
                &&& outputs@.len() > 0
                &&& outputs@[0] matches Err(status) && (err matches EncodeError::Backend(text)
                    && text@ == "VideoToolbox encode callback reported OSStatus "@
                    + crate::text::signed_decimal(status as int))
            },
        },
{
    if outputs.len() == 0 {
        return Ok(None);
    }
    match &outputs[0] {
        Ok(out) => {
            let mut data: Vec<u8> = Vec::new();
            data.extend_from_slice(out.data.as_slice());
            assert(data@ =~= out.data@);
            Ok(Some(EncodedFrame { data, keyframe: out.keyframe, ts: now, captured_at }))
        },
        Err(status) => Err(
            EncodeError::Backend(
                concat(
                    "VideoToolbox encode callback reported OSStatus ",
                    signed_decimal_of(*status).as_str(),
                ),
            ),
        ),
    }
}

/// A number as `size` bytes, the highest first.
pub open spec fn big_endian_bytes(size: nat, n: int) -> Seq<u8>
    decreases size,
{
    if size == 0 {
        Seq::empty()
    } else {
        big_endian_bytes((size - 1) as nat, n / 256).push((n % 256) as u8)
    }
}

/// Units, each behind its length.
pub open spec fn length_prefixed(size: nat, units: Seq<Seq<u8>>) -> Seq<u8>
    decreases units.len(),
{
    if units.len() == 0 {
        Seq::empty()
    } else {
        big_endian_bytes(size, units[0].len() as int) + units[0] + length_prefixed(
            size,
            units.skip(1),
        )
    }
}

/// Units, each behind a start code.
pub open spec fn start_coded(units: Seq<Seq<u8>>) -> Seq<u8>
    decreases units.len(),
{
    if units.len() == 0 {
        Seq::empty()
    } else {
        start_code() + units[0] + start_coded(units.skip(1))
    }
}

proof fn lemma_big_endian_round_trips(size: nat, n: int)
    requires
        0 <= n < vstd::arithmetic::power::pow(256, size),
    ensures
        big_endian_bytes(size, n).len() == size,
        big_endian(big_endian_bytes(size, n)) == n,
    decreases size,
{
    reveal(vstd::arithmetic::power::pow);
    if size > 0 {
        let m = (size - 1) as nat;
        let p = vstd::arithmetic::power::pow(256, m);
        assert(vstd::arithmetic::power::pow(256, size) == 256 * p);
        lemma_big_endian_round_trips(m, n / 256);
        let b = big_endian_bytes(size, n);
        assert(b.drop_last() =~= big_endian_bytes(m, n / 256));
        assert(b.last() == n % 256);
    }
}

/// Units whose lengths fit their prefixes come out one by one, each behind a
/// start code.
pub proof fn law_units_survive_the_conversion(size: nat, units: Seq<Seq<u8>>)
    requires
        size > 0,
        forall|i: int|
            0 <= i < units.len() ==> (#[trigger] units[i]).len() < vstd::arithmetic::power::pow(
                256,
                size,
            ),
    ensures
        annexb(size, length_prefixed(size, units)) == (start_coded(units), true),
    decreases units.len(),
{
    let avcc = length_prefixed(size, units);
    if units.len() > 0 {
        let u = units[0];
        let n = u.len() as int;
        let rest = units.skip(1);
        lemma_big_endian_round_trips(size, n);
        assert forall|i: int| 0 <= i < rest.len() implies (#[trigger] rest[i]).len()
            < vstd::arithmetic::power::pow(256, size) by {
            assert(rest[i] == units[i + 1]);
        }
        law_units_survive_the_conversion(size, rest);
        let prefix = big_endian_bytes(size, n);
        assert(avcc.take(size as int) =~= prefix);
        assert(avcc.subrange(size as int, size + n) =~= u);
        assert(avcc.skip(size + n) =~= length_prefixed(size, rest));
    }
}

/// A rate that fits the session's numbers is set as it is: the average in bits, at
/// most an eighth of that in bytes in any one second, and the frame rate.
pub proof fn law_the_rate_is_set_as_asked(bitrate_kbps: u32, fps: u32)
    requires
        bitrate_kbps <= 2_147_483,
        fps <= i32::MAX,
    ensures
        ({
            let list = rate_properties(bitrate_kbps, fps);
            &&& list.len() == 3
            &&& list[0].name == "AverageBitRate"
            &&& list[0].value matches PropertyValue::Number(bps) && bps == bitrate_kbps * 1000
            &&& list[1].name == "DataRateLimits"
            &&& list[1].value matches PropertyValue::Limit { bytes, seconds } && bytes * 8
                == bitrate_kbps * 1000 && seconds == 1
            &&& list[2].name == "ExpectedFrameRate"
            &&& list[2].value matches PropertyValue::Number(rate) && rate == fps
            &&& forall|i: int| 0 <= i < 3 ==> (#[trigger] list[i]).required
        }),
{
}

/// A new session runs in real time, in the constrained baseline profile and without
/// reordering; keyframes are as far apart as asked, and the quantization parameter
/// is capped only where that was asked for. All that sets the rate is among it.
pub proof fn law_sessions_are_set_up_for_live_pictures(cfg: EncoderConfig)
    requires
        cfg.keyframe_interval_frames <= i32::MAX,
    ensures
        ({
            let list = session_properties(cfg);
            &&& list[0].name == "RealTime" && list[0].value == PropertyValue::Flag(true)
                && list[0].required
            &&& list[1].name == "ProfileLevel" && list[1].value is ConstrainedBaseline
                && list[1].required
            &&& list.subrange(2, 5) == rate_properties(cfg.bitrate_kbps, cfg.fps)
            &&& list[5].name == "AllowFrameReordering" && list[5].value == PropertyValue::Flag(
                false,
            ) && list[5].required
            &&& list[6].name == "MaxKeyFrameInterval" && list[6].required
            &&& list[6].value matches PropertyValue::Number(n) && n
                == cfg.keyframe_interval_frames
            &&& list[7].name == "MaxFrameDelayCount" && list[7].value == PropertyValue::Number(0)
                && !list[7].required
            &&& cfg.max_qp is None ==> list.len() == 8
            &&& cfg.max_qp matches Some(qp) ==> {
                &&& list.len() == 9
                &&& list[8].name == "MaxAllowedFrameQP" && !list[8].required
                &&& list[8].value matches PropertyValue::Number(n) && n == qp
            }
        }),
{
    let list = session_properties(cfg);
    assert(list.subrange(2, 5) =~= rate_properties(cfg.bitrate_kbps, cfg.fps));
}

/// Every row of a frame is copied, and all of it: the bytes of the planes add up to
/// four for each pixel, or to one for luma and two for each block of chroma.
pub proof fn law_planes_cover_the_frame(frame: RawFrame)
    requires
        super::dims_of(frame).0 * 4 <= usize::MAX,
    ensures
        ({
            let list = planes_of(frame);
            match frame {
                RawFrame::Nv12 { width, height, y_stride, uv_stride, .. } => {
                    &&& list.len() == 2
                    &&& list[0].rows == height && list[0].row_bytes == width
                    &&& list[0].src_stride == y_stride
                    &&& height <= list[1].rows * 2 <= height + 1
                    &&& list[1].row_bytes % 2 == 0
                    &&& width <= list[1].row_bytes <= width + 1
                    &&& list[1].src_stride == uv_stride
                },
                RawFrame::Bgra { width, height, stride, .. } => {
                    &&& list.len() == 1
                    &&& list[0].rows == height
                    &&& list[0].row_bytes == width * 4
                    &&& list[0].src_stride == stride
                },
            }
        }),
{
}

/// The byte in column `col` of row `row` ends up in that column and row of the
/// buffer, whatever the two distances between rows are; what lies behind the row is
/// left alone.
pub proof fn law_every_byte_goes_to_its_place(
    src: Seq<u8>,
    shape: PlaneRows,
    before: Seq<u8>,
    dst_stride: int,
    row: int,
    col: int,
)
    requires
        copyable(src.len() as int, shape, before.len() as int, dst_stride),
        0 <= row < shape.rows,
        0 <= col < dst_stride,
    ensures
        ({
            let after = rows_copied(src, shape, before, dst_stride);
            &&& after.len() == before.len()
            &&& 0 <= row * dst_stride + col < after.len()
            &&& col < shape.row_bytes ==> after[row * dst_stride + col] == src[row
                * shape.src_stride + col]
            &&& col >= shape.row_bytes ==> after[row * dst_stride + col] == before[row * dst_stride
                + col]
        }),
{
    let k = row * dst_stride + col;
    assert(0 <= k < shape.rows * dst_stride) by (nonlinear_arith)
        requires
            0 <= row < shape.rows,
            0 <= col < dst_stride,
            k == row * dst_stride + col,
    ;
    assert(row * dst_stride == dst_stride * row) by (nonlinear_arith);
    vstd::arithmetic::div_mod::lemma_fundamental_div_mod_converse(k, dst_stride, row, col);
}

/// A plane can be copied as soon as its last row lies within what there is of it.
pub proof fn law_a_last_row_may_lack_padding(
    src_len: int,
    shape: PlaneRows,
    dst_len: int,
    dst_stride: int,
)
    requires
        shape.rows > 0,
        0 < dst_stride,
        shape.row_bytes <= dst_stride,
        dst_len == shape.rows * dst_stride,
    ensures
        copyable(src_len, shape, dst_len, dst_stride) == ((shape.rows - 1) * shape.src_stride
            + shape.row_bytes <= src_len),
{
}

/// A unit that claims to be longer than what is left of the data, or a length of no
/// bytes, makes the whole of it a failure; a few bytes at the end that are not even
/// a length do not.
pub proof fn law_truncated_units_are_failures(size: nat, avcc: Seq<u8>)
    ensures
        size == 0 ==> !annexb(size, avcc).1,
        avcc.len() < size ==> annexb(size, avcc) == (Seq::<u8>::empty(), true),
        0 < size <= avcc.len() && big_endian(avcc.take(size as int)) > avcc.len() - size
            ==> !annexb(size, avcc).1,
{
}

/// Every keyframe starts with both parameter sets, each behind a start code, and no
/// other frame has them; the units of the payload follow.
pub proof fn law_keyframes_carry_their_parameters(
    sample: Sample,
    sps: ParameterSet,
    pps: ParameterSet,
    payload: Vec<u8>,
)
    requires
        sample.sps == Ok::<ParameterSet, i32>(sps),
        sample.pps == Ok::<ParameterSet, i32>(pps),
        sample.payload == Ok::<Vec<u8>, i32>(payload),
        annexb(sps.nal_length_size as nat, payload@).1,
    ensures
        ({
            let units = annexb(sps.nal_length_size as nat, payload@).0;
            let code = seq![0u8, 0, 0, 1];
            if sample.not_sync == Some(true) {
                output_of(sample) == Ok::<(Seq<u8>, bool), i32>((units, false))
            } else {
                output_of(sample) == Ok::<(Seq<u8>, bool), i32>(
                    (code + sps.bytes@ + code + pps.bytes@ + units, true),
                )
            }
        }),
{
    let units = annexb(sps.nal_length_size as nat, payload@).0;
    assert(Seq::<u8>::empty() + units =~= units);
}

/// The first part of a sample that is missing is the failure, and the second
/// parameter set is missed only for a keyframe. Units that do not hold together are
/// a failure too.
pub proof fn law_missing_parts_are_failures(sample: Sample)
    ensures
        sample.sps matches Err(status) ==> output_of(sample) == Err::<(Seq<u8>, bool), i32>(status),
        sample.sps is Ok && sample.not_sync != Some(true) ==> (sample.pps matches Err(status)
            ==> output_of(sample) == Err::<(Seq<u8>, bool), i32>(status)),
        sample.sps is Ok && (sample.not_sync == Some(true) || sample.pps is Ok) ==> (
        sample.payload matches Err(status) ==> output_of(sample) == Err::<(Seq<u8>, bool), i32>(
            status,
        )),
        sample.sps matches Ok(sps) ==> (sample.payload matches Ok(payload) ==> !annexb(
            sps.nal_length_size as nat,
            payload@,
        ).1 ==> output_of(sample) is Err),
{
}

/// What comes of a sample is told as it is: the bytes and whether they are a
/// keyframe, or the status of what failed.
pub proof fn law_outcomes_are_told_as_they_are(
    r: Result<EncodedOutput, i32>,
    data: Seq<u8>,
    keyframe: bool,
    status: i32,
)
    ensures
        is_output(r, Ok((data, keyframe))) <==> (r matches Ok(out) && out.data@ == data
            && out.keyframe == keyframe),
        is_output(r, Err(status)) <==> r == Err::<EncodedOutput, i32>(status),
{
}

} // verus!
