//! H.264 encoding: turns raw frames into Annex-B access units.

use vstd::prelude::*;

use crate::capture::RawFrame;
use crate::encode::software::OpenH264Encoder;
use crate::proto::HostOs;
use crate::text::{concat, decimal_of};

pub mod convert;
pub mod mediafoundation;
pub mod software;
pub mod videotoolbox;

verus! {

/// The bitrate and frame rate an encoder is driven at.
#[derive(Debug, Clone, Copy, PartialEq, Eq, Structural)]
pub struct RateTarget {
    pub bitrate_kbps: u32,
    pub fps: u32,
}

/// One encoded access unit, Annex-B.
#[derive(Debug, Clone)]
pub struct EncodedFrame {
    pub data: Vec<u8>,
    pub keyframe: bool,
    /// When encoding finished; until the frame is stamped, when it began.
    pub ts: u64,
    /// When the source frame was captured.
    pub captured_at: u64,
}

impl EncodedFrame {
    /// The frame with the time at which encoding finished.
    pub fn stamped(self, finished: u64) -> (r: Self)
        ensures
            r == (EncodedFrame { ts: finished, ..self }),
    {
        EncodedFrame {
            data: self.data,
            keyframe: self.keyframe,
            ts: finished,
            captured_at: self.captured_at,
        }
    }
}

/// Something that encodes raw frames.
pub trait Encoder {
    /// The encoder takes `frame` at `now`.
    open spec fn accepts(&self, frame: RawFrame, now: u64) -> bool {
        true
    }

    /// Encodes `frame`, beginning at `now`; as a keyframe where that is forced.
    /// Nothing comes out of a frame that the encoder skipped. What does come out
    /// is stamped with the time at which it did.
    fn encode(&mut self, frame: &RawFrame, force_keyframe: bool, now: u64) -> Result<
        Option<EncodedFrame>,
        EncodeError,
    >
        requires
            old(self).accepts(*frame, now),
    ;

    /// Moves the running encoder to a new rate.
    fn set_rate(&mut self, target: RateTarget) -> Result<(), EncodeError>;
}

/// An encoder backend.
#[derive(Debug, Clone, Copy, PartialEq, Eq, Structural)]
pub enum EncoderKind {
    /// Software, on every platform.
    OpenH264,
    /// Hardware, on macOS only.
    VideoToolbox,
    /// Hardware or software, on Windows only.
    MediaFoundation,
}

impl EncoderKind {
    pub open spec fn spec_name(self) -> &'static str {
        match self {
            EncoderKind::OpenH264 => "openh264",
            EncoderKind::VideoToolbox => "videotoolbox",
            EncoderKind::MediaFoundation => "mediafoundation",
        }
    }

    pub fn name(self) -> (r: &'static str)
        ensures
            r == self.spec_name(),
    {
        match self {
            EncoderKind::OpenH264 => "openh264",
            EncoderKind::VideoToolbox => "videotoolbox",
            EncoderKind::MediaFoundation => "mediafoundation",
        }
    }

    /// The backend that comes with the platform.
    pub open spec fn native_to(os: HostOs) -> Option<EncoderKind> {
        match os {
            HostOs::Macos => Some(EncoderKind::VideoToolbox),
            HostOs::Windows => Some(EncoderKind::MediaFoundation),
            HostOs::Other => None,
        }
    }

    pub fn native(os: HostOs) -> (r: Option<EncoderKind>)
        ensures
            r == EncoderKind::native_to(os),
    {
        match os {
            HostOs::Macos => Some(EncoderKind::VideoToolbox),
            HostOs::Windows => Some(EncoderKind::MediaFoundation),
            HostOs::Other => None,
        }
    }
}

/// How an encoder for a session is to be built.
#[derive(Debug, Clone, Copy, PartialEq, Eq, Structural)]
pub enum EncoderPlan {
    /// The software encoder.
    Software,
    /// The platform's own encoder; where it cannot be built, the software one
    /// if `fallback`, otherwise its error.
    Native { kind: EncoderKind, fallback: bool },
    /// A backend that this platform does not have.
    Unavailable(EncoderKind),
}

/// What a requested backend means on a platform. `None` is "auto": the
/// platform's own encoder first, with the software one to fall back to.
pub open spec fn plan_for(os: HostOs, kind: Option<EncoderKind>) -> EncoderPlan {
    match kind {
        None => match EncoderKind::native_to(os) {
            Some(native) => EncoderPlan::Native { kind: native, fallback: true },
            None => EncoderPlan::Software,
        },
        Some(EncoderKind::OpenH264) => EncoderPlan::Software,
        Some(wanted) => if EncoderKind::native_to(os) == Some(wanted) {
            EncoderPlan::Native { kind: wanted, fallback: false }
        } else {
            EncoderPlan::Unavailable(wanted)
        },
    }
}

/// Decides how to build the requested backend on `os`.
pub fn plan_encoder(os: HostOs, kind: Option<EncoderKind>) -> (r: EncoderPlan)
    ensures
        r == plan_for(os, kind),
{
    match kind {
        None => match EncoderKind::native(os) {
            Some(native) => EncoderPlan::Native { kind: native, fallback: true },
            None => EncoderPlan::Software,
        },
        Some(EncoderKind::OpenH264) => EncoderPlan::Software,
        Some(EncoderKind::VideoToolbox) => if os == HostOs::Macos {
            EncoderPlan::Native { kind: EncoderKind::VideoToolbox, fallback: false }
        } else {
            EncoderPlan::Unavailable(EncoderKind::VideoToolbox)
        },
        Some(EncoderKind::MediaFoundation) => if os == HostOs::Windows {
            EncoderPlan::Native { kind: EncoderKind::MediaFoundation, fallback: false }
        } else {
            EncoderPlan::Unavailable(EncoderKind::MediaFoundation)
        },
    }
}

/// The encoder a session ends up with: one built here, or the platform's own,
/// which the caller has built.
pub enum BuiltEncoder {
    Software(OpenH264Encoder),
    Native,
}

/// Builds the encoder for `kind` on `os`, and says which backend it is. Where
/// the plan asks for the platform's own encoder, `native` is the outcome of
/// building that one.
pub fn build_encoder(
    os: HostOs,
    kind: Option<EncoderKind>,
    cfg: EncoderConfig,
    native: Result<(), EncodeError>,
    now: u64,
) -> (r: Result<(BuiltEncoder, EncoderKind), EncodeError>)
    ensures
        match plan_for(os, kind) {
            EncoderPlan::Unavailable(wanted) => r == Err::<
                (BuiltEncoder, EncoderKind),
                EncodeError,
            >(EncodeError::Unsupported(wanted)),
            EncoderPlan::Native { kind: chosen, fallback } => match native {
                Ok(_) => r == Ok::<(BuiltEncoder, EncoderKind), EncodeError>(
                    (BuiltEncoder::Native, chosen),
                ),
                Err(e) => if fallback {
                    is_software(r, cfg, now)
                } else {
                    r == Err::<(BuiltEncoder, EncoderKind), EncodeError>(e)
                },
            },
            EncoderPlan::Software => is_software(r, cfg, now),
        },
{
    match plan_encoder(os, kind) {
        EncoderPlan::Unavailable(wanted) => return Err(EncodeError::Unsupported(wanted)),
        EncoderPlan::Native { kind: chosen, fallback } => {
            match native {
                Ok(_) => return Ok((BuiltEncoder::Native, chosen)),
                Err(e) => if !fallback {
                    return Err(e);
                },
            }
        },
        EncoderPlan::Software => {},
    }
    match OpenH264Encoder::new(cfg, now) {
        Ok(encoder) => Ok((BuiltEncoder::Software(encoder), EncoderKind::OpenH264)),
        Err(e) => Err(e),
    }
}

/// The outcome of building the software encoder, which always can be built.
pub open spec fn is_software(
    r: Result<(BuiltEncoder, EncoderKind), EncodeError>,
    cfg: EncoderConfig,
    now: u64,
) -> bool {
    match r {
        Ok((BuiltEncoder::Software(encoder), kind)) => {
            &&& kind == EncoderKind::OpenH264
            &&& encoder.inner.opened_with() == software::settings_of(cfg)
            &&& encoder.inner.handed().len() == 0
            &&& encoder.started == now
        },
        _ => false,
    }
}

#[derive(Debug, Clone, Copy)]
pub struct EncoderConfig {
    pub width: u32,
    pub height: u32,
    pub fps: u32,
    pub bitrate_kbps: u32,
    pub keyframe_interval_frames: u32,
    /// Ceiling on the quantization parameter, which puts a floor under frame
    /// quality. `None` leaves the backend's default: the software encoder caps
    /// at [`software::DEFAULT_MAX_QP`], the others not at all.
    pub max_qp: Option<u8>,
}

#[derive(Debug, Clone)]
pub enum EncodeError {
    Backend(String),
    /// A backend that this platform does not have.
    Unsupported(EncoderKind),
}

impl EncodeError {
    /// The text shown to the user.
    pub open spec fn spec_message(self) -> Seq<char> {
        match self {
            EncodeError::Backend(detail) => "encoder backend error: "@ + detail@,
            EncodeError::Unsupported(EncoderKind::OpenH264) =>
                "OpenH264 encoder is not available in this build"@,
            EncodeError::Unsupported(EncoderKind::VideoToolbox) =>
                "VideoToolbox encoder is not available in this build"@,
            EncodeError::Unsupported(EncoderKind::MediaFoundation) =>
                "MediaFoundation encoder is not available in this build"@,
        }
    }

    pub fn message(&self) -> (r: String)
        ensures
            r@ == self.spec_message(),
    {
        match self {
            EncodeError::Backend(detail) => concat("encoder backend error: ", detail.as_str()),
            EncodeError::Unsupported(EncoderKind::OpenH264) => String::from_str(
                "OpenH264 encoder is not available in this build",
            ),
            EncodeError::Unsupported(EncoderKind::VideoToolbox) => String::from_str(
                "VideoToolbox encoder is not available in this build",
            ),
            EncodeError::Unsupported(EncoderKind::MediaFoundation) => String::from_str(
                "MediaFoundation encoder is not available in this build",
            ),
        }
    }
}

/// Byte `p` is a NAL header: a start code `0 0 1` ends right before it. (A
/// four-byte start code ends in a three-byte one.)
pub open spec fn is_nal_header(annexb: Seq<u8>, p: int) -> bool {
    3 <= p < annexb.len() && annexb[p - 3] == 0 && annexb[p - 2] == 0 && annexb[p - 1] == 1
}

/// The types (low five bits) of the NAL headers before byte `n`, in order.
pub open spec fn nal_types_before(annexb: Seq<u8>, n: int) -> Seq<u8>
    decreases n,
{
    if n <= 0 {
        Seq::empty()
    } else if is_nal_header(annexb, n - 1) {
        nal_types_before(annexb, n - 1).push((annexb[n - 1] % 32) as u8)
    } else {
        nal_types_before(annexb, n - 1)
    }
}

/// The type of every NAL unit in an Annex-B stream, in order.
pub open spec fn nal_types_of(annexb: Seq<u8>) -> Seq<u8> {
    nal_types_before(annexb, annexb.len() as int)
}

/// Parses an Annex-B stream (3- or 4-byte start codes) and returns the type of
/// every NAL unit, in order.
pub fn nal_types(annexb: &[u8]) -> (r: Vec<u8>)
    ensures
        r@ == nal_types_of(annexb@),
{
    let mut types: Vec<u8> = Vec::new();
    let mut p: usize = 0;
    while p < annexb.len()
        invariant
            p <= annexb@.len(),
            types@ == nal_types_before(annexb@, p as int),
        decreases annexb@.len() - p,
    {
        if p >= 3 && annexb[p - 3] == 0 && annexb[p - 2] == 0 && annexb[p - 1] == 1 {
            types.push(annexb[p] % 32);
        }
        p = p + 1;
    }
    types
}

/// The NAL type of an instantaneous decoder refresh, which starts a keyframe.
pub const NAL_IDR: u8 = 5;

/// Whether an IDR unit is among `types`.
pub fn has_idr(types: &[u8]) -> (r: bool)
    ensures
        r == types@.contains(NAL_IDR),
{
    let mut i: usize = 0;
    while i < types.len()
        invariant
            i <= types@.len(),
            forall|j: int| 0 <= j < i ==> types@[j] != NAL_IDR,
        decreases types@.len() - i,
    {
        if types[i] == NAL_IDR {
            return true;
        }
        i = i + 1;
    }
    false
}

/// Width and height of a frame.
pub open spec fn dims_of(frame: RawFrame) -> (u32, u32) {
    match frame {
        RawFrame::Nv12 { width, height, .. } => (width, height),
        RawFrame::Bgra { width, height, .. } => (width, height),
    }
}

pub fn frame_dims(frame: &RawFrame) -> (r: (u32, u32))
    ensures
        r == dims_of(*frame),
{
    match frame {
        RawFrame::Nv12 { width, height, .. } => (*width, *height),
        RawFrame::Bgra { width, height, .. } => (*width, *height),
    }
}

/// The complaint of a backend about a frame of another size than it was opened
/// for.
pub open spec fn size_complaint(backend: Seq<char>, cfg: EncoderConfig, frame: RawFrame) -> Seq<
    char,
> {
    backend + " encoder configured for "@ + crate::text::decimal(cfg.width as nat) + "x"@
        + crate::text::decimal(cfg.height as nat) + ", got a "@ + crate::text::decimal(
        dims_of(frame).0 as nat,
    ) + "x"@ + crate::text::decimal(dims_of(frame).1 as nat) + " frame"@
}

/// A hardware backend takes only frames of the size that it was opened for.
pub fn check_size(backend: &str, cfg: &EncoderConfig, frame: &RawFrame) -> (r: Result<
    (),
    EncodeError,
>)
    ensures
        match r {
            Ok(_) => dims_of(*frame) == (cfg.width, cfg.height),
            Err(err) => {
                &&& dims_of(*frame) != (cfg.width, cfg.height)
                &&& err matches EncodeError::Backend(text) && text@ == size_complaint(
                    backend@,
                    *cfg,
                    *frame,
                )
            },
        },
{
    let (width, height): (u32, u32) = frame_dims(frame);
    if width == cfg.width && height == cfg.height {
        return Ok(());
    }
    let mut text: String = concat(backend, " encoder configured for ");
    text.append(decimal_of(cfg.width as u64).as_str());
    text.append("x");
    text.append(decimal_of(cfg.height as u64).as_str());
    text.append(", got a ");
    text.append(decimal_of(width as u64).as_str());
    text.append("x");
    text.append(decimal_of(height as u64).as_str());
    text.append(" frame");
    Err(EncodeError::Backend(text))
}

/// A bitrate in bit/s, as far as 32 bits go.
pub open spec fn bits_per_second(kbps: u32) -> int {
    crate::arith::min(kbps * 1000, u32::MAX as int)
}

pub fn bitrate_bps(kbps: u32) -> (r: u32)
    ensures
        r == bits_per_second(kbps),
{
    if kbps <= u32::MAX / 1000 {
        kbps * 1000
    } else {
        u32::MAX
    }
}

/// Left to choose, a session always gets an encoder: the platform's own, with the
/// software one behind it, and the software one where the platform has none.
pub proof fn law_a_free_choice_always_works(os: HostOs)
    ensures
        match os {
            HostOs::Macos => plan_for(os, None) == (EncoderPlan::Native {
                kind: EncoderKind::VideoToolbox,
                fallback: true,
            }),
            HostOs::Windows => plan_for(os, None) == (EncoderPlan::Native {
                kind: EncoderKind::MediaFoundation,
                fallback: true,
            }),
            HostOs::Other => plan_for(os, None) == EncoderPlan::Software,
        },
{
}

/// A backend that was asked for is never replaced by another one: it is built
/// where the platform has it, and refused where it has not. The software one is to
/// be had everywhere.
pub proof fn law_a_requested_backend_is_never_replaced(os: HostOs, kind: EncoderKind)
    ensures
        match plan_for(os, Some(kind)) {
            EncoderPlan::Software => kind is OpenH264,
            EncoderPlan::Native { kind: built, fallback } => {
                &&& built == kind
                &&& !fallback
                &&& (kind is VideoToolbox && os is Macos) || (kind is MediaFoundation
                    && os is Windows)
            },
            EncoderPlan::Unavailable(named) => {
                &&& named == kind
                &&& kind !is OpenH264
                &&& !(kind is VideoToolbox && os is Macos)
                &&& !(kind is MediaFoundation && os is Windows)
            },
        },
{
}

proof fn lemma_types_depend_on_what_came_before(a: Seq<u8>, b: Seq<u8>, n: int)
    requires
        n <= a.len(),
        n <= b.len(),
        forall|i: int| 0 <= i < n ==> a[i] == b[i],
    ensures
        nal_types_before(a, n) == nal_types_before(b, n),
    decreases n,
{
    if n > 0 {
        lemma_types_depend_on_what_came_before(a, b, n - 1);
    }
}

/// A byte right behind `0 0 1` adds its low five bits to the types, and a byte
/// anywhere else adds nothing.
pub proof fn law_only_start_codes_begin_units(stream: Seq<u8>, byte: u8)
    ensures
        ({
            let n = stream.len() as int;
            let more = nal_types_of(stream.push(byte));
            if n >= 3 && stream.skip(n - 3) == seq![0u8, 0, 1] {
                more.len() == nal_types_of(stream).len() + 1 && more.drop_last() == nal_types_of(
                    stream,
                ) && (byte - more.last()) % 32 == 0 && more.last() < 32
            } else {
                more == nal_types_of(stream)
            }
        }),
        nal_types_of(Seq::<u8>::empty()).len() == 0,
{
    let n = stream.len() as int;
    let longer = stream.push(byte);
    lemma_types_depend_on_what_came_before(stream, longer, n);
    let tail = stream.skip(n - 3);
    if n >= 3 {
        assert(longer[n - 3] == tail[0] && longer[n - 2] == tail[1] && longer[n - 1] == tail[2]);
        if is_nal_header(longer, n) {
            assert(tail =~= seq![0u8, 0, 1]);
        }
        if tail == seq![0u8, 0, 1] {
            assert(is_nal_header(longer, n));
            assert(nal_types_of(longer).drop_last() =~= nal_types_of(stream));
        }
    }
}

proof fn lemma_found_types(stream: Seq<u8>, n: int, t: u8)
    requires
        0 <= n <= stream.len(),
    ensures
        nal_types_before(stream, n).contains(t) == exists|p: int|
            3 <= p < n && stream[p - 3] == 0 && stream[p - 2] == 0 && stream[p - 1] == 1
                && #[trigger] stream[p] % 32 == t,
    decreases n,
{
    if n > 0 {
        lemma_found_types(stream, n - 1, t);
        let before = nal_types_before(stream, n - 1);
        let all = nal_types_before(stream, n);
        if all.contains(t) {
            let k = choose|k: int| 0 <= k < all.len() && all[k] == t;
            if k < before.len() {
                assert(before[k] == t);
                assert(before.contains(t));
            } else {
                assert(stream[n - 1] % 32 == t);
            }
        }
        if before.contains(t) {
            let k = choose|k: int| 0 <= k < before.len() && before[k] == t;
            assert(all[k] == t);
        }
        if is_nal_header(stream, n - 1) && stream[n - 1] % 32 == t {
            assert(all[all.len() - 1] == t);
        }
        assert(all.contains(t) == exists|p: int|
            3 <= p < n && stream[p - 3] == 0 && stream[p - 2] == 0 && stream[p - 1] == 1
                && #[trigger] stream[p] % 32 == t);
    }
}

/// A stream holds an IDR unit where some start code is followed by a byte whose low
/// five bits are five, and nowhere else.
pub proof fn law_keyframes_are_recognised(stream: Seq<u8>)
    ensures
        nal_types_of(stream).contains(NAL_IDR) == exists|p: int|
            3 <= p < stream.len() && stream[p - 3] == 0 && stream[p - 2] == 0 && stream[p - 1]
                == 1 && #[trigger] stream[p] % 32 == 5,
{
    lemma_found_types(stream, stream.len() as int, NAL_IDR);
}

/// A frame's size is its width and its height, whichever way its pixels are kept.
pub proof fn law_frames_have_their_size(frame: RawFrame)
    ensures
        frame matches RawFrame::Nv12 { width, height, .. } ==> dims_of(frame).0 == width && dims_of(
            frame,
        ).1 == height,
        frame matches RawFrame::Bgra { width, height, .. } ==> dims_of(frame).0 == width && dims_of(
            frame,
        ).1 == height,
{
}

/// A kilobit is a thousand bits, up to what 32 bits hold.
pub proof fn law_a_kilobit_is_a_thousand_bits(kbps: u32)
    ensures
        kbps <= 4_294_967 ==> bits_per_second(kbps) == kbps * 1000,
        kbps > 4_294_967 ==> bits_per_second(kbps) == 4_294_967_295,
{
}

/// Every error is told in words of its own, and what a backend says is passed on.
pub proof fn law_errors_are_told_apart(a: EncodeError, b: EncodeError)
    requires
        a.spec_message() == b.spec_message(),
    ensures
        a matches EncodeError::Unsupported(k) ==> b == EncodeError::Unsupported(k),
        a matches EncodeError::Backend(s) ==> (b matches EncodeError::Backend(t) && s@ == t@),
{
    reveal_strlit("encoder backend error: ");
    reveal_strlit("OpenH264 encoder is not available in this build");
    reveal_strlit("VideoToolbox encoder is not available in this build");
    reveal_strlit("MediaFoundation encoder is not available in this build");
    let m = a.spec_message();
    let n = b.spec_message();
    assert(m[0] == n[0]);
    if let (EncodeError::Backend(s), EncodeError::Backend(t)) = (a, b) {
        assert(m.skip(23) =~= s@);
        assert(n.skip(23) =~= t@);
    }
}

/// Each backend goes by a name of its own.
pub proof fn law_backends_have_names(a: EncoderKind, b: EncoderKind)
    requires
        a != b,
    ensures
        a.spec_name()@ != b.spec_name()@,
{
    reveal_strlit("openh264");
    reveal_strlit("videotoolbox");
    reveal_strlit("mediafoundation");
    assert(a.spec_name()@.len() != b.spec_name()@.len());
}

} // verus!
