//! The software encoder: OpenH264, through the `openh264` crate.

use vstd::prelude::*;

use openh264::encoder::{
    BitRate, Encoder as SoftwareEncoder, EncoderConfig as SoftwareConfig, FrameRate, FrameType,
    IntraFramePeriod, Profile, QpRange, RateControlMode, UsageType,
};
use openh264::formats::YUVSlices;
use openh264::{OpenH264API, Timestamp};

use super::convert::{to_i420, I420Frame};
use super::{has_idr, nal_types, EncodeError, EncodedFrame, Encoder, EncoderConfig, RateTarget};
use crate::capture::RawFrame;

verus! {

/// Lower bound of the quantization parameter. OpenH264 throws the whole range
/// away where a bound is zero.
pub const MIN_QP: u8 = 1;

/// Upper bound of the quantization parameter where none was configured; without
/// one, rate control blurs typed text.
pub const DEFAULT_MAX_QP: u8 = 30;

/// The largest quantization parameter of H.264.
pub const QP_LIMIT: u8 = 51;

/// What kind of picture is encoded.
#[derive(Debug, Clone, Copy, PartialEq, Eq, Structural)]
pub enum Content {
    Camera,
    Screen,
}

/// What rate control holds on to.
#[derive(Debug, Clone, Copy, PartialEq, Eq, Structural)]
pub enum RateMode {
    Quality,
    Bitrate,
}

/// The H.264 profile.
#[derive(Debug, Clone, Copy, PartialEq, Eq, Structural)]
pub enum H264Profile {
    Baseline,
    Main,
    High,
}

/// The settings OpenH264 is opened with.
#[derive(Debug, Clone, Copy, PartialEq, Eq, Structural)]
pub struct SoftwareSettings {
    pub bitrate_bps: u32,
    pub fps: u32,
    pub keyframe_interval_frames: u32,
    pub min_qp: u8,
    pub max_qp: u8,
    pub content: Content,
    pub rate_mode: RateMode,
    pub profile: H264Profile,
    pub skip_frames: bool,
    /// Zero lets the encoder choose.
    pub threads: u16,
}

/// The settings of a session: screen content held to its bitrate, no skipped
/// frames, and the quantization parameter capped.
pub open spec fn settings_of(cfg: EncoderConfig) -> SoftwareSettings {
    SoftwareSettings {
        bitrate_bps: crate::arith::min(cfg.bitrate_kbps * 1000, u32::MAX as int) as u32,
        fps: cfg.fps,
        keyframe_interval_frames: cfg.keyframe_interval_frames,
        min_qp: MIN_QP,
        max_qp: match cfg.max_qp {
            Some(max) => crate::arith::clamp(max as int, MIN_QP as int, QP_LIMIT as int) as u8,
            None => DEFAULT_MAX_QP,
        },
        content: Content::Screen,
        rate_mode: RateMode::Bitrate,
        profile: H264Profile::Baseline,
        skip_frames: false,
        threads: 0,
    }
}

/// Derives the encoder's settings from a session's configuration.
pub fn settings_for(cfg: EncoderConfig) -> (r: SoftwareSettings)
    ensures
        r == settings_of(cfg),
{
    let bps: u64 = (cfg.bitrate_kbps as u64) * 1000;
    SoftwareSettings {
        bitrate_bps: if bps > 0xffff_ffff {
            u32::MAX
        } else {
            bps as u32
        },
        fps: cfg.fps,
        keyframe_interval_frames: cfg.keyframe_interval_frames,
        min_qp: MIN_QP,
        max_qp: match cfg.max_qp {
            Some(max) => if max < MIN_QP {
                MIN_QP
            } else if max > QP_LIMIT {
                QP_LIMIT
            } else {
                max
            },
            None => DEFAULT_MAX_QP,
        },
        content: Content::Screen,
        rate_mode: RateMode::Bitrate,
        profile: H264Profile::Baseline,
        skip_frames: false,
        threads: 0,
    }
}

/// The encoder of the `openh264` crate.
#[verifier::external_type_specification]
#[verifier::external_body]
pub struct ExSoftwareEncoder(SoftwareEncoder);

/// The error of the `openh264` crate.
#[verifier::external_type_specification]
#[verifier::external_body]
pub struct ExSoftwareError(openh264::Error);

/// The rate-control modes of the `openh264` crate.
#[verifier::external_type_specification]
#[verifier::external_body]
pub struct ExRateControlMode(openh264::encoder::RateControlMode);

/// The profiles of the `openh264` crate.
#[verifier::external_type_specification]
#[verifier::external_body]
pub struct ExProfile(openh264::encoder::Profile);

/// A picture as it is handed to the encoder: three dense planes, its size, its
/// time since the encoder was opened, and whether it has to be a keyframe.
pub struct Picture {
    pub y: Seq<u8>,
    pub u: Seq<u8>,
    pub v: Seq<u8>,
    pub width: int,
    pub height: int,
    pub ts_ms: int,
    pub forced: bool,
}

/// An opened encoder, what it was opened with, and the pictures it was handed.
pub struct OpenedEncoder {
    encoder: SoftwareEncoder,
    settings: SoftwareSettings,
    pictures: Ghost<Seq<Picture>>,
}

impl OpenedEncoder {
    pub closed spec fn opened_with(&self) -> SoftwareSettings {
        self.settings
    }

    /// Every picture so far, the ones that failed among them.
    pub closed spec fn handed(&self) -> Seq<Picture> {
        self.pictures@
    }
}

/// Calls `Encoder::with_api_config` of the openh264 crate with a configuration
/// that holds `s` field by field, and keeps `s` beside the encoder; all else is
/// the crate's default, parameter sets with constant ids among it. The
/// configuration is stored and not looked at before the first picture, and the
/// native library does no more than allocate the encoder, so this succeeds. The
/// frame rate goes in as the floating-point number that its decimal digits denote.
#[verifier::external_body]
fn open_encoder(s: &SoftwareSettings) -> (r: Result<OpenedEncoder, openh264::Error>)
    requires
        s.min_qp <= s.max_qp <= QP_LIMIT,
    ensures
        r is Ok,
        r matches Ok(opened) ==> opened.opened_with() == *s && opened.handed().len() == 0,
{
    let usage = match s.content {
        Content::Camera => UsageType::CameraVideoRealTime,
        Content::Screen => UsageType::ScreenContentRealTime,
    };
    let rate = FrameRate::from_hz(s.fps.to_string().parse().unwrap_or_default());
    let period = IntraFramePeriod::from_num_frames(s.keyframe_interval_frames);
    let config = SoftwareConfig::new().usage_type(usage).profile(h264_profile(s.profile))
        .bitrate(BitRate::from_bps(s.bitrate_bps)).max_frame_rate(rate)
        .rate_control_mode(rate_control_mode(s.rate_mode)).intra_frame_period(period)
        .qp(QpRange::new(s.min_qp, s.max_qp)).skip_frames(s.skip_frames).num_threads(s.threads);
    let encoder = SoftwareEncoder::with_api_config(OpenH264API::from_source(), config)?;
    Ok(OpenedEncoder { encoder, settings: *s, pictures: Ghost(Seq::empty()) })
}

/// What OpenH264 never encodes: a picture of more than 3840 by 2160 pixels,
/// either way up, and any picture at a bitrate that needs more than 31 bits.
pub open spec fn refused(s: SoftwareSettings, w: int, h: int) -> bool {
    ||| crate::arith::max(w, h) > 3840
    ||| crate::arith::min(w, h) > 2160
    ||| s.bitrate_bps > i32::MAX
}

/// Three dense planes of a picture with even sides.
pub open spec fn planes_fit(planes: (&[u8], &[u8], &[u8]), w: usize, h: usize) -> bool {
    &&& w % 2 == 0 && h % 2 == 0
    &&& w <= i32::MAX && h <= i32::MAX
    &&& planes.0@.len() == h * w
    &&& planes.1@.len() == (h / 2) * (w / 2)
    &&& planes.2@.len() == (h / 2) * (w / 2)
}

/// An encoder that was opened with `s` can give these bytes for the last of the
/// pictures that it was handed, and call them an IDR frame or not.
pub uninterp spec fn encodes_to(
    s: SoftwareSettings,
    handed: Seq<Picture>,
    data: Seq<u8>,
    idr: bool,
) -> bool;

/// The planes as a picture.
pub open spec fn picture(
    planes: (&[u8], &[u8], &[u8]),
    w: usize,
    h: usize,
    ts_ms: u64,
    forced: bool,
) -> Picture {
    Picture {
        y: planes.0@,
        u: planes.1@,
        v: planes.2@,
        width: w as int,
        height: h as int,
        ts_ms: ts_ms as int,
        forced,
    }
}

/// Calls `Encoder::encode_at` of the openh264 crate on three dense planes, and
/// returns the bitstream and whether the crate calls it an IDR frame. Pictures
/// and bitrates beyond its limits are refused. The bytes depend on the settings,
/// on all pictures so far and on the machine's threads, so which they are is left
/// unsaid.
#[verifier::external_body]
fn encode_planes(
    opened: &mut OpenedEncoder,
    planes: (&[u8], &[u8], &[u8]),
    w: usize,
    h: usize,
    ts_ms: u64,
) -> (r: Result<(Vec<u8>, bool), openh264::Error>)
    requires
        planes_fit(planes, w, h),
        ts_ms <= i64::MAX,
    ensures
        final(opened).opened_with() == old(opened).opened_with(),
        final(opened).handed() == old(opened).handed().push(picture(planes, w, h, ts_ms, false)),
        refused(old(opened).opened_with(), w as int, h as int) ==> r is Err,
        r matches Ok(out) ==> encodes_to(
            old(opened).opened_with(),
            final(opened).handed(),
            out.0@,
            out.1,
        ),
{
    let source = YUVSlices::new(planes, (w, h), (w, w / 2, w / 2));
    let stream = opened.encoder.encode_at(&source, Timestamp::from_millis(ts_ms))?;
    Ok((stream.to_vec(), matches!(stream.frame_type(), FrameType::IDR)))
}

/// Calls `Encoder::force_intra_frame` of the openh264 crate, which makes the next
/// frame that is encoded a keyframe, and then `Encoder::encode_at`: what comes
/// out, if anything does, is an IDR frame.
#[verifier::external_body]
fn encode_planes_forced(
    opened: &mut OpenedEncoder,
    planes: (&[u8], &[u8], &[u8]),
    w: usize,
    h: usize,
    ts_ms: u64,
) -> (r: Result<(Vec<u8>, bool), openh264::Error>)
    requires
        planes_fit(planes, w, h),
        ts_ms <= i64::MAX,
    ensures
        final(opened).opened_with() == old(opened).opened_with(),
        final(opened).handed() == old(opened).handed().push(picture(planes, w, h, ts_ms, true)),
        refused(old(opened).opened_with(), w as int, h as int) ==> r is Err,
        r matches Ok(out) ==> encodes_to(
            old(opened).opened_with(),
            final(opened).handed(),
            out.0@,
            out.1,
        ),
        r matches Ok(out) ==> out.0@.len() > 0 ==> out.1,
{
    opened.encoder.force_intra_frame();
    let source = YUVSlices::new(planes, (w, h), (w, w / 2, w / 2));
    let stream = opened.encoder.encode_at(&source, Timestamp::from_millis(ts_ms))?;
    Ok((stream.to_vec(), matches!(stream.frame_type(), FrameType::IDR)))
}

/// Calls `to_string` on an error of the openh264 crate. The text is the
/// crate's own, so nothing is claimed of it.
#[verifier::external_body]
fn error_text(error: &openh264::Error) -> String {
    error.to_string()
}

/// The software encoder of one session.
pub struct OpenH264Encoder {
    pub inner: OpenedEncoder,
    /// When it was opened; the encoder's own timestamps count from here.
    pub started: u64,
}

impl OpenH264Encoder {
    /// Opens an encoder. That always succeeds: what is wrong with a configuration
    /// comes out when a frame is encoded.
    pub fn new(cfg: EncoderConfig, now: u64) -> (r: Result<Self, EncodeError>)
        ensures
            match r {
                Ok(encoder) => {
                    &&& encoder.inner.opened_with() == settings_of(cfg)
                    &&& encoder.inner.handed().len() == 0
                    &&& encoder.started == now
                },
                Err(_) => false,
            },
    {
        let settings: SoftwareSettings = settings_for(cfg);
        match open_encoder(&settings) {
            Ok(inner) => Ok(OpenH264Encoder { inner, started: now }),
            Err(e) => Err(EncodeError::Backend(error_text(&e))),
        }
    }

    /// Milliseconds since the encoder was opened.
    pub open spec fn elapsed_ms(self, now: u64) -> int {
        crate::arith::monus(now as int, self.started as int) / 1_000_000
    }
}

/// The encoder `after` is the encoder `before` with one more picture handed to it:
/// the I420 form of a frame.
pub open spec fn took(
    before: OpenedEncoder,
    after: OpenedEncoder,
    frame: RawFrame,
    ts_ms: int,
    forced: bool,
) -> bool {
    &&& after.opened_with() == before.opened_with()
    &&& exists|i420: I420Frame|
        #![trigger super::convert::is_i420_of(i420, frame)]
        super::convert::is_i420_of(i420, frame) && after.handed() == before.handed().push(
            Picture {
                y: i420.y@,
                u: i420.u@,
                v: i420.v@,
                width: i420.width as int,
                height: i420.height as int,
                ts_ms,
                forced,
            },
        )
}

/// What becomes of a bitstream: an empty one is a skipped frame; any other is a
/// keyframe where the encoder says so or an IDR unit is in it.
pub fn finish_frame(data: Vec<u8>, idr: bool, captured_at: u64, ts: u64) -> (r: Option<EncodedFrame>)
    ensures
        match r {
            None => data@.len() == 0,
            Some(frame) => {
                &&& data@.len() > 0
                &&& frame.data@ == data@
                &&& frame.keyframe == (idr || super::nal_types_of(data@).contains(super::NAL_IDR))
                &&& frame.captured_at == captured_at
                &&& frame.ts == ts
            },
        },
{
    if data.len() == 0 {
        return None;
    }
    let types: Vec<u8> = nal_types(data.as_slice());
    let keyframe: bool = idr || has_idr(types.as_slice());
    Some(EncodedFrame { data, keyframe, ts, captured_at })
}

/// Dimensions that an encoder's interface can hold.
pub open spec fn encodable(frame: RawFrame) -> bool {
    super::dims_of(frame).0 <= i32::MAX && super::dims_of(frame).1 <= i32::MAX
}

impl Encoder for OpenH264Encoder {
    open spec fn accepts(&self, frame: RawFrame, now: u64) -> bool {
        super::convert::convertible(frame) && encodable(frame)
    }

    /// `now` is when encoding begins: the picture goes in under it, and what
    /// comes out carries it until it is stamped.
    fn encode(&mut self, frame: &RawFrame, force_keyframe: bool, now: u64) -> (r: Result<
        Option<EncodedFrame>,
        EncodeError,
    >)
        ensures
            final(self).started == old(self).started,
            took(
                old(self).inner,
                final(self).inner,
                *frame,
                old(self).elapsed_ms(now),
                force_keyframe,
            ),
            match r {
                Ok(Some(encoded)) => {
                    &&& encoded.data@.len() > 0
                    &&& exists|idr: bool| #[trigger]
                        encodes_to(
                            old(self).inner.opened_with(),
                            final(self).inner.handed(),
                            encoded.data@,
                            idr,
                        ) && encoded.keyframe == (idr || super::nal_types_of(
                            encoded.data@,
                        ).contains(super::NAL_IDR))
                    &&& force_keyframe ==> encoded.keyframe
                    &&& encoded.captured_at == frame.spec_ts()
                    &&& encoded.ts == now
                },
                Ok(None) => exists|idr: bool| #[trigger]
                    encodes_to(
                        old(self).inner.opened_with(),
                        final(self).inner.handed(),
                        Seq::<u8>::empty(),
                        idr,
                    ),
                Err(e) => e is Backend,
            },
            refused(
                old(self).inner.opened_with(),
                crate::arith::even(super::dims_of(*frame).0 as int),
                crate::arith::even(super::dims_of(*frame).1 as int),
            ) ==> r is Err,
    {
        let captured_at: u64 = frame.ts();
        let i420 = to_i420(frame);
        let w: usize = i420.width as usize;
        let h: usize = i420.height as usize;
        let ts_ms: u64 = now.saturating_sub(self.started) / 1_000_000;
        proof {
            super::convert::lemma_i420_lengths(i420, *frame);
        }
        let planes = (i420.y.as_slice(), i420.u.as_slice(), i420.v.as_slice());
        let outcome = if force_keyframe {
            encode_planes_forced(&mut self.inner, planes, w, h, ts_ms)
        } else {
            encode_planes(&mut self.inner, planes, w, h, ts_ms)
        };
        assert(super::convert::is_i420_of(i420, *frame));
        match outcome {
            Ok((data, idr)) => {
                assert(encodes_to(
                    old(self).inner.opened_with(),
                    self.inner.handed(),
                    data@,
                    idr,
                ));
                assert(data@.len() == 0 ==> data@ =~= Seq::<u8>::empty());
                Ok(finish_frame(data, idr, captured_at, now))
            },
            Err(e) => Err(EncodeError::Backend(error_text(&e))),
        }
    }

    /// OpenH264 is opened for one rate; a running encoder keeps it.
    fn set_rate(&mut self, target: RateTarget) -> (r: Result<(), EncodeError>)
        ensures
            r matches Err(EncodeError::Backend(text)) && text@
                == "openh264 keeps the rate it was opened with"@,
            *final(self) == *old(self),
    {
        Err(EncodeError::Backend(String::from_str("openh264 keeps the rate it was opened with")))
    }
}

/// Turns a rate mode into the openh264 crate's own.
#[verifier::external_body]
fn rate_control_mode(mode: RateMode) -> RateControlMode {
    match mode {
        RateMode::Quality => RateControlMode::Quality,
        RateMode::Bitrate => RateControlMode::Bitrate,
    }
}

/// Turns a profile into the openh264 crate's own.
#[verifier::external_body]
fn h264_profile(profile: H264Profile) -> Profile {
    match profile {
        H264Profile::Baseline => Profile::Baseline,
        H264Profile::Main => Profile::Main,
        H264Profile::High => Profile::High,
    }
}

/// A session is encoded as screen content in the baseline profile, at its own
/// bitrate, frame rate and keyframe distance, and without a frame left out. The
/// quantization parameter runs from one to what was asked for, or to thirty, and
/// never beyond the largest of H.264.
pub proof fn law_settings_follow_the_session(cfg: EncoderConfig)
    ensures
        ({
            let s = settings_of(cfg);
            &&& cfg.bitrate_kbps <= 4_294_967 ==> s.bitrate_bps == cfg.bitrate_kbps * 1000
            &&& cfg.bitrate_kbps > 4_294_967 ==> s.bitrate_bps == 4_294_967_295
            &&& s.fps == cfg.fps
            &&& s.keyframe_interval_frames == cfg.keyframe_interval_frames
            &&& s.min_qp == 1
            &&& cfg.max_qp is None ==> s.max_qp == 30
            &&& cfg.max_qp matches Some(qp) ==> {
                &&& 1 <= qp <= 51 ==> s.max_qp == qp
                &&& qp == 0 ==> s.max_qp == 1
                &&& qp > 51 ==> s.max_qp == 51
            }
            &&& s.content is Screen
            &&& s.rate_mode is Bitrate
            &&& s.profile is Baseline
            &&& !s.skip_frames
            &&& s.threads == 0
        }),
{
}

/// The encoder's clock starts at zero when it is opened, and counts whole
/// milliseconds.
pub proof fn law_the_clock_counts_milliseconds(encoder: OpenH264Encoder, now: u64)
    ensures
        now >= encoder.started ==> encoder.elapsed_ms(now) * 1_000_000 <= now - encoder.started
            < encoder.elapsed_ms(now) * 1_000_000 + 1_000_000,
        now < encoder.started ==> encoder.elapsed_ms(now) == 0,
{
}

/// A frame that is handed over adds one picture: all that were handed over before
/// stay, and the new one has the frame's size without odd pixels, the time and the
/// demand for a keyframe.
pub proof fn law_one_frame_is_one_picture(
    before: OpenedEncoder,
    after: OpenedEncoder,
    frame: RawFrame,
    ts_ms: int,
    forced: bool,
)
    requires
        took(before, after, frame, ts_ms, forced),
    ensures
        after.handed().len() == before.handed().len() + 1,
        after.handed().drop_last() == before.handed(),
        after.opened_with() == before.opened_with(),
        ({
            let p = after.handed().last();
            let (w, h) = super::dims_of(frame);
            &&& p.width % 2 == 0 && w - 1 <= p.width <= w
            &&& p.height % 2 == 0 && h - 1 <= p.height <= h
            &&& p.ts_ms == ts_ms
            &&& p.forced == forced
            &&& p.y.len() == p.width * p.height
        }),
{
    let i420 = choose|i420: I420Frame|
        #![trigger super::convert::is_i420_of(i420, frame)]
        super::convert::is_i420_of(i420, frame) && after.handed() == before.handed().push(
            Picture {
                y: i420.y@,
                u: i420.u@,
                v: i420.v@,
                width: i420.width as int,
                height: i420.height as int,
                ts_ms,
                forced,
            },
        );
    super::convert::lemma_i420_lengths(i420, frame);
    assert(after.handed().drop_last() =~= before.handed());
    assert(i420.width * i420.height == i420.height * i420.width) by (nonlinear_arith);
}

} // verus!
