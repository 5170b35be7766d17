//! The Media Foundation backend of Windows: which transform is taken and how it
//! is set up, what is handed to it, and how its input and output are kept in
//! step.

use std::collections::VecDeque;

use vstd::prelude::*;

use super::convert::{can_convert, fits_usize, has_rows, i420_to_nv12, take_plane, to_i420};
use super::{bitrate_bps, check_size, has_idr, nal_types, EncodeError, EncodedFrame, EncoderConfig};
use crate::capture::RawFrame;
use crate::text::{concat, concat3, hexadecimal_of};

verus! {

/// The code that says that COM is set up already, in another way.
pub const RPC_E_CHANGED_MODE: i32 = -2147417850;

/// Whether COM can be used after setting it up came to `code`. That it was set
/// up before, in another way, is no failure.
pub fn com_ready(code: i32) -> (r: Result<(), EncodeError>)
    ensures
        match r {
            Ok(_) => code >= 0 || code == RPC_E_CHANGED_MODE,
            Err(err) => {
                &&& code < 0 && code != RPC_E_CHANGED_MODE
                &&& err matches EncodeError::Backend(text) && text@
                    == "MediaFoundation CoInitializeEx: HRESULT 0x"@ + crate::text::hexadecimal(
                    (code + 0x1_0000_0000) as nat,
                )
            },
        },
{
    if code >= 0 || code == RPC_E_CHANGED_MODE {
        return Ok(());
    }
    let wide: u32 = (code as i64 + 0x1_0000_0000) as u32;
    Err(
        EncodeError::Backend(
            concat(
                "MediaFoundation CoInitializeEx: HRESULT 0x",
                hexadecimal_of(wide).as_str(),
            ),
        ),
    )
}

/// The error of a step that failed with `detail`.
pub fn step_failed(step: &str, detail: &str) -> (r: EncodeError)
    ensures
        r matches EncodeError::Backend(text) && text@ == "MediaFoundation "@ + step@ + ": "@
            + detail@,
{
    let mut text: String = concat3("MediaFoundation ", step, ": ");
    text.append(detail);
    EncodeError::Backend(text)
}

/// The transform to use.
#[derive(Debug, Clone, Copy, PartialEq, Eq, Structural)]
pub enum TransformChoice {
    /// The first of the hardware encoders.
    Hardware,
    /// The first of the software encoders.
    Software,
    /// Ask for software encoders too.
    LookForSoftware,
    /// There is none to be had.
    Nothing,
}

/// Takes a hardware encoder where there is one, and a software one only where
/// that is allowed. `software` is how many of those there are, once that is
/// known.
pub fn choose_transform(hardware: usize, allow_software: bool, software: Option<usize>) -> (r:
    TransformChoice)
    ensures
        r == (if hardware > 0 {
            TransformChoice::Hardware
        } else if !allow_software {
            TransformChoice::Nothing
        } else {
            match software {
                None => TransformChoice::LookForSoftware,
                Some(n) => if n > 0 {
                    TransformChoice::Software
                } else {
                    TransformChoice::Nothing
                },
            }
        }),
{
    if hardware > 0 {
        return TransformChoice::Hardware;
    }
    if !allow_software {
        return TransformChoice::Nothing;
    }
    match software {
        None => TransformChoice::LookForSoftware,
        Some(n) => if n > 0 {
            TransformChoice::Software
        } else {
            TransformChoice::Nothing
        },
    }
}

/// The complaint where there is no transform.
pub const NO_TRANSFORM: &'static str = "no H.264 encoder MFT found";

/// A step of setting an encoder up, in the order in which they are taken.
#[derive(Debug, Clone, Copy, PartialEq, Eq, Structural)]
pub enum SetupStep {
    /// Start Media Foundation.
    Start,
    /// Look for hardware encoders.
    FindHardware,
    /// Look for software encoders.
    FindSoftware,
    /// Bring the first encoder found to life.
    Activate,
    /// Find out whether it works on its own, and unlock it if so.
    Unlock,
    /// Give the codec its properties.
    Configure,
    OutputType,
    InputType,
    /// Ask for the output buffers that it needs.
    StreamInfo,
    BeginStreaming,
    StartOfStream,
    /// Get at the events of a transform that works on its own.
    Events,
    /// Take the events that it has sent already.
    DrainEvents,
    Ready,
}

/// What a step came to.
#[derive(Debug, Clone)]
pub enum SetupEvent {
    Done,
    /// So many encoders were found.
    Found(usize),
    /// Whether the transform works on its own.
    Async(bool),
    /// The step's one call failed, with this text.
    Failed(String),
    /// One of the step's calls failed.
    Refused(EncodeError),
}

/// The call that a step is made of, as errors name it.
pub open spec fn setup_call(step: SetupStep) -> &'static str {
    match step {
        SetupStep::Start => "MFStartup",
        SetupStep::FindHardware => "MFTEnumEx",
        SetupStep::FindSoftware => "MFTEnumEx",
        SetupStep::Activate => "ActivateObject",
        SetupStep::Unlock => "MF_TRANSFORM_ASYNC_UNLOCK",
        SetupStep::StreamInfo => "GetOutputStreamInfo",
        SetupStep::BeginStreaming => "NOTIFY_BEGIN_STREAMING",
        SetupStep::StartOfStream => "NOTIFY_START_OF_STREAM",
        SetupStep::Events => "cast to IMFMediaEventGenerator",
        _ => "",
    }
}

/// How far an encoder is set up.
#[derive(Debug, Clone, Copy, PartialEq, Eq, Structural)]
pub struct Setup {
    pub step: SetupStep,
    pub allow_software: bool,
    /// The encoder found is one of hardware.
    pub hardware: bool,
    /// The transform works on its own.
    pub is_async: bool,
}

impl Setup {
    /// An event is one of those that the step can come to.
    pub open spec fn expects(self, event: SetupEvent) -> bool {
        match self.step {
            SetupStep::FindHardware => event is Found || event is Failed,
            SetupStep::FindSoftware => event is Found || event is Failed,
            SetupStep::Unlock => event is Async || event is Failed,
            SetupStep::Configure => event is Done || event is Refused,
            SetupStep::OutputType => event is Done || event is Refused,
            SetupStep::InputType => event is Done || event is Refused,
            SetupStep::DrainEvents => event is Done || event is Refused,
            SetupStep::Ready => false,
            _ => event is Done || event is Failed,
        }
    }

    /// The state after an event; `None` where the set-up ends in an error.
    pub open spec fn advanced(self, event: SetupEvent) -> Option<Setup> {
        match event {
            SetupEvent::Failed(_) => None,
            SetupEvent::Refused(_) => None,
            SetupEvent::Found(n) => if self.step == SetupStep::FindHardware {
                if n > 0 {
                    Some(Setup { step: SetupStep::Activate, hardware: true, ..self })
                } else if self.allow_software {
                    Some(Setup { step: SetupStep::FindSoftware, ..self })
                } else {
                    None
                }
            } else if n > 0 {
                Some(Setup { step: SetupStep::Activate, hardware: false, ..self })
            } else {
                None
            },
            SetupEvent::Async(on) => Some(
                Setup { step: SetupStep::Configure, is_async: on, ..self },
            ),
            SetupEvent::Done => Some(
                Setup {
                    step: match self.step {
                        SetupStep::Start => SetupStep::FindHardware,
                        SetupStep::Activate => SetupStep::Unlock,
                        SetupStep::Configure => SetupStep::OutputType,
                        SetupStep::OutputType => SetupStep::InputType,
                        SetupStep::InputType => SetupStep::StreamInfo,
                        SetupStep::StreamInfo => SetupStep::BeginStreaming,
                        SetupStep::BeginStreaming => SetupStep::StartOfStream,
                        SetupStep::StartOfStream => if self.is_async {
                            SetupStep::Events
                        } else {
                            SetupStep::Ready
                        },
                        SetupStep::Events => SetupStep::DrainEvents,
                        _ => SetupStep::Ready,
                    },
                    ..self
                },
            ),
        }
    }

    /// `err` is the error that the set-up ends in.
    pub open spec fn ends_in(self, event: SetupEvent, err: EncodeError) -> bool {
        match event {
            SetupEvent::Refused(inner) => err == inner,
            SetupEvent::Failed(detail) => err matches EncodeError::Backend(text) && text@
                == "MediaFoundation "@ + setup_call(self.step)@ + ": "@ + detail@,
            _ => err matches EncodeError::Backend(text) && text@ == NO_TRANSFORM@,
        }
    }

    pub fn new(allow_software: bool) -> (r: Self)
        ensures
            r == (Setup {
                step: SetupStep::Start,
                allow_software,
                hardware: false,
                is_async: false,
            }),
    {
        Setup { step: SetupStep::Start, allow_software, hardware: false, is_async: false }
    }

    /// Takes in what the current step came to, and moves on to the next.
    pub fn advance(&mut self, event: SetupEvent) -> (r: Result<SetupStep, EncodeError>)
        requires
            old(self).expects(event),
        ensures
            match r {
                Ok(step) => old(self).advanced(event) == Some(*final(self)) && step
                    == final(self).step,
                Err(err) => {
                    &&& old(self).advanced(event) is None
                    &&& old(self).ends_in(event, err)
                    &&& *final(self) == *old(self)
                },
            },
    {
        match event {
            SetupEvent::Failed(detail) => {
                let call: &'static str = match self.step {
                    SetupStep::Start => "MFStartup",
                    SetupStep::FindHardware => "MFTEnumEx",
                    SetupStep::FindSoftware => "MFTEnumEx",
                    SetupStep::Activate => "ActivateObject",
                    SetupStep::Unlock => "MF_TRANSFORM_ASYNC_UNLOCK",
                    SetupStep::StreamInfo => "GetOutputStreamInfo",
                    SetupStep::BeginStreaming => "NOTIFY_BEGIN_STREAMING",
                    SetupStep::StartOfStream => "NOTIFY_START_OF_STREAM",
                    SetupStep::Events => "cast to IMFMediaEventGenerator",
                    _ => "",
                };
                return Err(step_failed(call, detail.as_str()));
            },
            SetupEvent::Refused(err) => {
                return Err(err);
            },
            SetupEvent::Found(n) => {
                let choice: TransformChoice = if self.step == SetupStep::FindHardware {
                    choose_transform(n, self.allow_software, None)
                } else {
                    choose_transform(0, true, Some(n))
                };
                match choice {
                    TransformChoice::Hardware => {
                        self.hardware = true;
                        self.step = SetupStep::Activate;
                    },
                    TransformChoice::Software => {
                        self.hardware = false;
                        self.step = SetupStep::Activate;
                    },
                    TransformChoice::LookForSoftware => {
                        self.step = SetupStep::FindSoftware;
                    },
                    TransformChoice::Nothing => {
                        return Err(EncodeError::Backend(NO_TRANSFORM.to_owned()));
                    },
                }
            },
            SetupEvent::Async(on) => {
                self.is_async = on;
                self.step = SetupStep::Configure;
            },
            SetupEvent::Done => {
                self.step = match self.step {
                    SetupStep::Start => SetupStep::FindHardware,
                    SetupStep::Activate => SetupStep::Unlock,
                    SetupStep::Configure => SetupStep::OutputType,
                    SetupStep::OutputType => SetupStep::InputType,
                    SetupStep::InputType => SetupStep::StreamInfo,
                    SetupStep::StreamInfo => SetupStep::BeginStreaming,
                    SetupStep::BeginStreaming => SetupStep::StartOfStream,
                    SetupStep::StartOfStream => if self.is_async {
                        SetupStep::Events
                    } else {
                        SetupStep::Ready
                    },
                    SetupStep::Events => SetupStep::DrainEvents,
                    _ => SetupStep::Ready,
                };
            },
        }
        Ok(self.step)
    }

    /// Whether Media Foundation is to be shut down again where the set-up ends
    /// in an error.
    pub fn started(&self) -> (r: bool)
        ensures
            r == (self.step != SetupStep::Start),
    {
        self.step != SetupStep::Start
    }
}

/// The place of a step in the order of steps.
pub open spec fn place(step: SetupStep) -> int {
    match step {
        SetupStep::Start => 0,
        SetupStep::FindHardware => 1,
        SetupStep::FindSoftware => 2,
        SetupStep::Activate => 3,
        SetupStep::Unlock => 4,
        SetupStep::Configure => 5,
        SetupStep::OutputType => 6,
        SetupStep::InputType => 7,
        SetupStep::StreamInfo => 8,
        SetupStep::BeginStreaming => 9,
        SetupStep::StartOfStream => 10,
        SetupStep::Events => 11,
        SetupStep::DrainEvents => 12,
        SetupStep::Ready => 13,
    }
}

/// A set-up never goes back, so it comes to an end; and from the unlocked
/// transform up to the start of the stream it leaves no step out: the codec is
/// given its properties before the output its type, that before the input, and
/// both before the stream begins.
pub proof fn law_setup_keeps_the_order(s: Setup, event: SetupEvent)
    requires
        s.expects(event),
    ensures
        s.advanced(event) matches Some(t) ==> {
            &&& place(t.step) > place(s.step)
            &&& 4 <= place(s.step) < 10 ==> place(t.step) == place(s.step) + 1
        },
{
}

/// A software encoder is taken only where that is allowed.
pub proof fn law_software_has_to_be_allowed(s: Setup, event: SetupEvent)
    requires
        s.expects(event),
        s.step == SetupStep::FindHardware,
    ensures
        s.advanced(event) matches Some(t) ==> t.hardware || s.allow_software,
{
}

/// The bytes of a buffer for output: what the transform asks for, and no fewer
/// than the picture has pixels.
pub fn output_buffer_size(asked: u32, cfg: &EncoderConfig) -> (r: u32)
    requires
        cfg.width * cfg.height <= u32::MAX,
    ensures
        r == crate::arith::max(asked as int, cfg.width * cfg.height),
{
    let pixels: u32 = cfg.width * cfg.height;
    if asked > pixels {
        asked
    } else {
        pixels
    }
}

/// A property of the codec. One that is required has to be taken for the bitrate
/// to be met at all.
#[derive(Debug, Clone, Copy, PartialEq, Eq)]
pub struct CodecValue {
    pub name: &'static str,
    pub value: Setting,
    pub required: bool,
}

/// The value of a property.
#[derive(Debug, Clone, Copy, PartialEq, Eq, Structural)]
pub enum Setting {
    /// A constant bitrate.
    ConstantBitrate,
    Number(u32),
    Flag(bool),
}

/// The properties of the codec, in the order in which they are set.
pub open spec fn codec_values(cfg: EncoderConfig) -> Seq<CodecValue> {
    let always = seq![
        CodecValue {
            name: "AVEncCommonRateControlMode",
            value: Setting::ConstantBitrate,
            required: true,
        },
        CodecValue {
            name: "AVEncCommonMeanBitRate",
            value: Setting::Number(super::bits_per_second(cfg.bitrate_kbps) as u32),
            required: true,
        },
        CodecValue { name: "AVLowLatencyMode", value: Setting::Flag(true), required: false },
        CodecValue {
            name: "AVEncMPVGOPSize",
            value: Setting::Number(cfg.keyframe_interval_frames),
            required: false,
        },
    ];
    match cfg.max_qp {
        Some(qp) => always.push(
            CodecValue {
                name: "AVEncVideoMaxQP",
                value: Setting::Number(qp as u32),
                required: false,
            },
        ),
        None => always,
    }
}

/// The properties that the codec is given.
pub fn configure_codec_api(cfg: &EncoderConfig) -> (r: Vec<CodecValue>)
    ensures
        r@ == codec_values(*cfg),
{
    let mut list: Vec<CodecValue> = Vec::new();
    list.push(
        CodecValue {
            name: "AVEncCommonRateControlMode",
            value: Setting::ConstantBitrate,
            required: true,
        },
    );
    list.push(
        CodecValue {
            name: "AVEncCommonMeanBitRate",
            value: Setting::Number(bitrate_bps(cfg.bitrate_kbps)),
            required: true,
        },
    );
    list.push(
        CodecValue { name: "AVLowLatencyMode", value: Setting::Flag(true), required: false },
    );
    list.push(
        CodecValue {
            name: "AVEncMPVGOPSize",
            value: Setting::Number(cfg.keyframe_interval_frames),
            required: false,
        },
    );
    if let Some(qp) = cfg.max_qp {
        list.push(
            CodecValue {
                name: "AVEncVideoMaxQP",
                value: Setting::Number(qp as u32),
                required: false,
            },
        );
    }
    assert(list@ =~= codec_values(*cfg));
    list
}

/// Width and height in one number, the width in the high half.
pub fn frame_size_value(width: u32, height: u32) -> (r: u64)
    ensures
        r == width * 0x1_0000_0000 + height,
{
    let w: u64 = width as u64;
    w * 0x1_0000_0000 + height as u64
}

/// A frame rate as a fraction in one number: over one second.
pub fn frame_rate_value(fps: u32) -> (r: u64)
    ensures
        r == fps * 0x1_0000_0000 + 1,
{
    let n: u64 = fps as u64;
    n * 0x1_0000_0000 + 1
}

/// The profile to ask for.
#[derive(Debug, Clone, Copy, PartialEq, Eq, Structural)]
pub enum ProfileChoice {
    ConstrainedBaseline,
    Baseline,
}

/// What a stream carries.
#[derive(Debug, Clone, Copy, PartialEq, Eq, Structural)]
pub enum VideoFormat {
    H264,
    Nv12,
}

/// An attribute of a stream's type.
#[derive(Debug, Clone, Copy, PartialEq, Eq, Structural)]
pub enum TypeAttribute {
    /// The stream is one of pictures.
    Video,
    Format(VideoFormat),
    /// Bits per second.
    Bitrate(u32),
    FrameSize(u64),
    FrameRate(u64),
    /// Frames, not fields.
    Progressive,
    Profile(ProfileChoice),
    /// Every picture stands for itself.
    AllSamplesIndependent,
}

/// The attributes of the output's type, in the order in which they are set.
pub open spec fn output_attributes(cfg: EncoderConfig) -> Seq<TypeAttribute> {
    seq![
        TypeAttribute::Video,
        TypeAttribute::Format(VideoFormat::H264),
        TypeAttribute::Bitrate(super::bits_per_second(cfg.bitrate_kbps) as u32),
        TypeAttribute::FrameSize((cfg.width * 0x1_0000_0000 + cfg.height) as u64),
        TypeAttribute::FrameRate((cfg.fps * 0x1_0000_0000 + 1) as u64),
        TypeAttribute::Progressive,
        TypeAttribute::Profile(ProfileChoice::ConstrainedBaseline),
    ]
}

/// The attributes of the input's type, in the order in which they are set. A
/// type that the transform offers says of itself that it carries NV12.
pub open spec fn input_attributes(cfg: EncoderConfig, offered: bool) -> Seq<TypeAttribute> {
    let format = if offered {
        Seq::empty()
    } else {
        seq![TypeAttribute::Video, TypeAttribute::Format(VideoFormat::Nv12)]
    };
    format + seq![
        TypeAttribute::FrameSize((cfg.width * 0x1_0000_0000 + cfg.height) as u64),
        TypeAttribute::FrameRate((cfg.fps * 0x1_0000_0000 + 1) as u64),
        TypeAttribute::Progressive,
        TypeAttribute::AllSamplesIndependent,
    ]
}

/// Describes the output.
pub fn output_type(cfg: &EncoderConfig) -> (r: Vec<TypeAttribute>)
    ensures
        r@ == output_attributes(*cfg),
{
    let mut list: Vec<TypeAttribute> = Vec::new();
    list.push(TypeAttribute::Video);
    list.push(TypeAttribute::Format(VideoFormat::H264));
    list.push(TypeAttribute::Bitrate(bitrate_bps(cfg.bitrate_kbps)));
    list.push(TypeAttribute::FrameSize(frame_size_value(cfg.width, cfg.height)));
    list.push(TypeAttribute::FrameRate(frame_rate_value(cfg.fps)));
    list.push(TypeAttribute::Progressive);
    list.push(TypeAttribute::Profile(ProfileChoice::ConstrainedBaseline));
    assert(list@ =~= output_attributes(*cfg));
    list
}

/// Describes the input.
pub fn input_type(cfg: &EncoderConfig, offered: bool) -> (r: Vec<TypeAttribute>)
    ensures
        r@ == input_attributes(*cfg, offered),
{
    let mut list: Vec<TypeAttribute> = Vec::new();
    if !offered {
        list.push(TypeAttribute::Video);
        list.push(TypeAttribute::Format(VideoFormat::Nv12));
    }
    list.push(TypeAttribute::FrameSize(frame_size_value(cfg.width, cfg.height)));
    list.push(TypeAttribute::FrameRate(frame_rate_value(cfg.fps)));
    list.push(TypeAttribute::Progressive);
    list.push(TypeAttribute::AllSamplesIndependent);
    assert(list@ =~= input_attributes(*cfg, offered));
    list
}

/// What setting an attribute of the input or the output is called.
pub open spec fn attribute_name(attribute: TypeAttribute, input: bool) -> &'static str {
    match attribute {
        TypeAttribute::Video => "MF_MT_MAJOR_TYPE",
        TypeAttribute::Format(_) => "MF_MT_SUBTYPE",
        TypeAttribute::Bitrate(_) => "MF_MT_AVG_BITRATE",
        TypeAttribute::FrameSize(_) => if input {
            "MF_MT_FRAME_SIZE (input)"
        } else {
            "MF_MT_FRAME_SIZE"
        },
        TypeAttribute::FrameRate(_) => if input {
            "MF_MT_FRAME_RATE (input)"
        } else {
            "MF_MT_FRAME_RATE"
        },
        TypeAttribute::Progressive => if input {
            "MF_MT_INTERLACE_MODE (input)"
        } else {
            "MF_MT_INTERLACE_MODE"
        },
        TypeAttribute::Profile(ProfileChoice::ConstrainedBaseline) => "MF_MT_MPEG2_PROFILE",
        TypeAttribute::Profile(ProfileChoice::Baseline) => "MF_MT_MPEG2_PROFILE (Base)",
        TypeAttribute::AllSamplesIndependent => "MF_MT_ALL_SAMPLES_INDEPENDENT",
    }
}

/// The error of an attribute that was not taken.
pub fn attribute_failed(attribute: TypeAttribute, input: bool, detail: &str) -> (r: EncodeError)
    ensures
        r matches EncodeError::Backend(text) && text@ == "MediaFoundation "@ + attribute_name(
            attribute,
            input,
        )@ + ": "@ + detail@,
{
    let step: &'static str = match attribute {
        TypeAttribute::Video => "MF_MT_MAJOR_TYPE",
        TypeAttribute::Format(_) => "MF_MT_SUBTYPE",
        TypeAttribute::Bitrate(_) => "MF_MT_AVG_BITRATE",
        TypeAttribute::FrameSize(_) => if input {
            "MF_MT_FRAME_SIZE (input)"
        } else {
            "MF_MT_FRAME_SIZE"
        },
        TypeAttribute::FrameRate(_) => if input {
            "MF_MT_FRAME_RATE (input)"
        } else {
            "MF_MT_FRAME_RATE"
        },
        TypeAttribute::Progressive => if input {
            "MF_MT_INTERLACE_MODE (input)"
        } else {
            "MF_MT_INTERLACE_MODE"
        },
        TypeAttribute::Profile(ProfileChoice::ConstrainedBaseline) => "MF_MT_MPEG2_PROFILE",
        TypeAttribute::Profile(ProfileChoice::Baseline) => "MF_MT_MPEG2_PROFILE (Base)",
        TypeAttribute::AllSamplesIndependent => "MF_MT_ALL_SAMPLES_INDEPENDENT",
    };
    step_failed(step, detail)
}

/// The profile to ask for after `refused` was, with `detail`: not every transform
/// knows the constrained one, and there is one to fall back to.
pub fn next_profile(refused: ProfileChoice, detail: &str) -> (r: Result<
    ProfileChoice,
    EncodeError,
>)
    ensures
        match refused {
            ProfileChoice::ConstrainedBaseline => r == Ok::<ProfileChoice, EncodeError>(
                ProfileChoice::Baseline,
            ),
            ProfileChoice::Baseline => r matches Err(EncodeError::Backend(text)) && text@
                == "MediaFoundation "@ + "SetOutputType"@ + ": "@ + detail@,
        },
{
    match refused {
        ProfileChoice::ConstrainedBaseline => Ok(ProfileChoice::Baseline),
        ProfileChoice::Baseline => Err(step_failed("SetOutputType", detail)),
    }
}

/// The type of input to take among those that the transform offers: the first
/// that is NV12. `None` to describe one from scratch.
pub fn pick_input_type(is_nv12: &[bool]) -> (r: Option<usize>)
    ensures
        match r {
            Some(i) => i < is_nv12@.len() && is_nv12@[i as int] && forall|j: int|
                0 <= j < i ==> !#[trigger] is_nv12@[j],
            None => forall|j: int| 0 <= j < is_nv12@.len() ==> !#[trigger] is_nv12@[j],
        },
{
    let mut i: usize = 0;
    while i < is_nv12.len()
        invariant
            i <= is_nv12@.len(),
            forall|j: int| 0 <= j < i ==> !#[trigger] is_nv12@[j],
        decreases is_nv12@.len() - i,
    {
        if is_nv12[i] {
            return Some(i);
        }
        i = i + 1;
    }
    None
}

/// When a frame was captured, in units of 100 ns since the encoder was opened.
pub fn sample_time(started: u64, captured_at: u64) -> (r: i64)
    ensures
        r == crate::arith::monus(captured_at as int, started as int) / 100,
{
    (captured_at.saturating_sub(started) / 100) as i64
}

/// How long a frame lasts, in units of 100 ns.
pub fn sample_duration(fps: u32) -> (r: i64)
    ensures
        r == 10_000_000int / crate::arith::max(fps as int, 1),
{
    let rate: u32 = if fps > 1 {
        fps
    } else {
        1
    };
    proof {
        let q = 10_000_000int / rate as int;
        assert(0 <= q <= 10_000_000) by (nonlinear_arith)
            requires
                q == 10_000_000int / rate as int,
                rate >= 1,
        ;
    }
    (10_000_000 / rate) as i64
}

/// A frame can be turned into dense NV12.
pub open spec fn nv12_ready(frame: RawFrame) -> bool {
    match frame {
        RawFrame::Nv12 { width, height, y, y_stride, uv, uv_stride, .. } => {
            &&& super::convert::nv12_fits(
                width,
                height,
                y@.len() as int,
                y_stride,
                uv@.len() as int,
                uv_stride,
            )
            &&& super::convert::half_up(width as int) * 2 * super::convert::half_up(height as int)
                <= usize::MAX
        },
        RawFrame::Bgra { width, height, .. } => {
            &&& super::convert::convertible(frame)
            &&& width * height <= usize::MAX
        },
    }
}

/// Whether `frame_to_nv12` can read every byte it needs of a frame.
pub fn can_make_nv12(frame: &RawFrame) -> (r: bool)
    ensures
        r == nv12_ready(*frame),
{
    match frame {
        RawFrame::Nv12 { width, height, y, y_stride, uv, uv_stride, .. } => {
            let w: u64 = *width as u64;
            let h: u64 = *height as u64;
            let cw: u64 = w / 2 + w % 2;
            let ch: u64 = h / 2 + h % 2;
            fits_usize(w, h) && fits_usize(cw, 2) && fits_usize(cw, ch) && has_rows(
                y.len(),
                *y_stride,
                w,
                h,
            ) && has_rows(uv.len(), *uv_stride, cw * 2, ch) && fits_usize(cw * 2, ch)
        },
        RawFrame::Bgra { width, height, .. } => can_convert(frame) && fits_usize(
            *width as u64,
            *height as u64,
        ),
    }
}

/// `r` is the frame as dense NV12: the planes without their padding, or what the
/// picture becomes by way of I420.
pub open spec fn is_nv12_of(r: (Vec<u8>, Vec<u8>), frame: RawFrame) -> bool {
    match frame {
        RawFrame::Nv12 { width, height, y, y_stride, uv, uv_stride, .. } => {
            &&& r.0@ == super::convert::plane(
                y@,
                y_stride as int,
                width as int,
                height as int,
                1,
                0,
            )
            &&& r.1@ == super::convert::plane(
                uv@,
                uv_stride as int,
                super::convert::half_up(width as int) * 2,
                super::convert::half_up(height as int),
                1,
                0,
            )
        },
        RawFrame::Bgra { .. } => exists|i420: super::convert::I420Frame| #[trigger]
            super::convert::is_i420_of(i420, frame) && r.0@ == i420.y@ && r.1@
                == super::convert::interleaved(i420.u@, i420.v@),
    }
}

/// Turns a frame into dense NV12.
pub fn frame_to_nv12(frame: &RawFrame) -> (r: (Vec<u8>, Vec<u8>))
    requires
        nv12_ready(*frame),
    ensures
        is_nv12_of(r, *frame),
{
    match frame {
        RawFrame::Nv12 { width, height, y, y_stride, uv, uv_stride, .. } => {
            let w: usize = *width as usize;
            let h: usize = *height as usize;
            let row: usize = (w / 2 + w % 2) * 2;
            let rows: usize = h / 2 + h % 2;
            (
                take_plane(y.as_slice(), *y_stride, w, h, 1, 0),
                take_plane(uv.as_slice(), *uv_stride, row, rows, 1, 0),
            )
        },
        RawFrame::Bgra { width, height, .. } => {
            let i420 = to_i420(frame);
            proof {
                super::convert::lemma_i420_lengths(i420, *frame);
                let w = i420.width as int;
                let h = i420.height as int;
                let n = super::convert::half_up(w) * super::convert::half_up(h);
                let cw = w / 2;
                let ch = h / 2;
                assert(super::convert::half_up(w) == cw && super::convert::half_up(h) == ch);
                assert(n == ch * cw) by (nonlinear_arith)
                    requires
                        n == cw * ch,
                ;
                assert(n * 2 <= *width * *height) by (nonlinear_arith)
                    requires
                        n == ch * cw,
                        0 <= cw * 2 <= *width,
                        0 <= ch * 2 <= *height,
                ;
                assert(i420.u@.take(n) =~= i420.u@);
                assert(i420.v@.take(n) =~= i420.v@);
            }
            i420_to_nv12(&i420)
        },
    }
}

/// What becomes of an output sample. Not every transform marks a keyframe as a
/// clean point, so an IDR unit counts too. The sample's time, which is the
/// frame's own, tells when it was captured.
pub fn frame_from_output_sample(
    data: Vec<u8>,
    clean_point: bool,
    sample_time: i64,
    started: u64,
    now: u64,
) -> (r: EncodedFrame)
    requires
        started + sample_time * 100 <= u64::MAX,
    ensures
        r.data@ == data@,
        r.keyframe == (clean_point || super::nal_types_of(data@).contains(super::NAL_IDR)),
        r.ts == now,
        r.captured_at == started + crate::arith::max(sample_time as int, 0) * 100,
{
    let types: Vec<u8> = nal_types(data.as_slice());
    let keyframe: bool = clean_point || has_idr(types.as_slice());
    let since: u64 = if sample_time > 0 {
        sample_time as u64
    } else {
        0
    };
    EncodedFrame { data, keyframe, ts: now, captured_at: started + since * 100 }
}

/// What asking the transform for output came to.
#[derive(Debug, Clone, PartialEq, Eq)]
pub enum Output {
    /// It has another output type now.
    FormatChanged,
    /// A sample, or none.
    Done { sample: bool },
    /// It needs more input first.
    NeedsInput,
    Failed(String),
}

/// What to do about it.
#[derive(Debug, Clone)]
pub enum OutputStep {
    /// Take over the new type, and ask again.
    Renegotiate,
    /// Read the frame from the sample.
    Read,
    /// There is no output yet.
    Nothing,
    Fail(EncodeError),
}

/// Decides what to do about an answer of the transform.
pub fn drain_output(output: Output) -> (r: OutputStep)
    ensures
        match output {
            Output::FormatChanged => r is Renegotiate,
            Output::Done { sample } => if sample {
                r is Read
            } else {
                r is Nothing
            },
            Output::NeedsInput => r is Nothing,
            Output::Failed(detail) => r matches OutputStep::Fail(EncodeError::Backend(text))
                && text@ == "MediaFoundation "@ + "ProcessOutput"@ + ": "@ + detail@,
        },
{
    match output {
        Output::FormatChanged => OutputStep::Renegotiate,
        Output::Done { sample } => if sample {
            OutputStep::Read
        } else {
            OutputStep::Nothing
        },
        Output::NeedsInput => OutputStep::Nothing,
        Output::Failed(detail) => OutputStep::Fail(step_failed("ProcessOutput", detail.as_str())),
    }
}

/// What handing the transform a frame came to.
#[derive(Debug, Clone, PartialEq, Eq)]
pub enum Input {
    Taken,
    /// It cannot take another one before its output is drained.
    NotAccepting(String),
    Failed(String),
}

/// What a transform that works in step does next.
#[derive(Debug, Clone)]
pub enum SyncStep {
    /// Drain the output, which belongs to an earlier frame, and offer the frame
    /// once more.
    DrainAndRetry,
    /// Give back the oldest frame there is, or else drain the output.
    Deliver,
    Fail(EncodeError),
}

/// Decides what follows on an offered frame. It is offered once more, and no
/// more often.
pub fn encode_sync(input: Input, retried: bool) -> (r: SyncStep)
    ensures
        match input {
            Input::Taken => r is Deliver,
            Input::NotAccepting(detail) => if retried {
                r matches SyncStep::Fail(EncodeError::Backend(text)) && text@ == "MediaFoundation "@
                    + "ProcessInput (retry after NOTACCEPTING)"@ + ": "@ + detail@
            } else {
                r is DrainAndRetry
            },
            Input::Failed(detail) => r matches SyncStep::Fail(EncodeError::Backend(text)) && text@
                == "MediaFoundation "@ + (if retried {
                "ProcessInput (retry after NOTACCEPTING)"@
            } else {
                "ProcessInput"@
            }) + ": "@ + detail@,
        },
{
    match input {
        Input::Taken => SyncStep::Deliver,
        Input::NotAccepting(detail) => if retried {
            SyncStep::Fail(
                step_failed("ProcessInput (retry after NOTACCEPTING)", detail.as_str()),
            )
        } else {
            SyncStep::DrainAndRetry
        },
        Input::Failed(detail) => if retried {
            SyncStep::Fail(
                step_failed("ProcessInput (retry after NOTACCEPTING)", detail.as_str()),
            )
        } else {
            SyncStep::Fail(step_failed("ProcessInput", detail.as_str()))
        },
    }
}

/// An event of a transform that works on its own.
#[derive(Debug, Clone)]
pub enum TransformEvent {
    /// It can take one more frame.
    NeedInput,
    /// It had output; this is the frame, where there was one in it.
    HaveOutput(Option<EncodedFrame>),
    Other,
}

/// The state of an encoder around its transform.
pub struct MediaFoundationEncoder {
    pub cfg: EncoderConfig,
    /// When it was opened.
    pub started: u64,
    /// The transform works on its own, and tells by events when it takes a frame
    /// or has one.
    pub is_async: bool,
    /// The transform brings its own buffers for output; otherwise each is to
    /// have `output_buffer_size` bytes.
    pub provides_samples: bool,
    pub output_buffer_size: u32,
    /// How many frames the transform has said it takes.
    pub credits: u32,
    /// Frames that came out and were not given back yet, oldest first.
    pub pending: VecDeque<EncodedFrame>,
}

/// A frame as it is handed to the transform.
#[derive(Debug, Clone, PartialEq, Eq)]
pub struct InputSample {
    /// Luma, then interleaved chroma, without padding.
    pub data: Vec<u8>,
    /// In units of 100 ns.
    pub time: i64,
    pub duration: i64,
}

impl MediaFoundationEncoder {
    /// An encoder around a transform that is set up: what it says of its output
    /// buffers, and whether it works on its own.
    pub fn new(
        cfg: EncoderConfig,
        is_async: bool,
        provides_samples: bool,
        asked_bytes: u32,
        now: u64,
    ) -> (r: Self)
        requires
            cfg.width * cfg.height <= u32::MAX,
        ensures
            r.cfg == cfg,
            r.started == now,
            r.is_async == is_async,
            r.provides_samples == provides_samples,
            r.output_buffer_size == crate::arith::max(asked_bytes as int, cfg.width * cfg.height),
            r.credits == 0,
            r.pending@.len() == 0,
    {
        let output_buffer_size: u32 = output_buffer_size(asked_bytes, &cfg);
        MediaFoundationEncoder {
            cfg,
            started: now,
            is_async,
            provides_samples,
            output_buffer_size,
            credits: 0,
            pending: VecDeque::new(),
        }
    }

    /// What to hand to the transform for a frame: its pixels as NV12, when it
    /// was captured and how long it lasts. Only frames of the size that the
    /// encoder was opened for are taken.
    pub fn build_input_sample(&self, frame: &RawFrame) -> (r: Result<InputSample, EncodeError>)
        requires
            nv12_ready(*frame),
        ensures
            match r {
                Ok(sample) => {
                    &&& super::dims_of(*frame) == (self.cfg.width, self.cfg.height)
                    &&& is_dense_nv12(sample.data@, *frame)
                    &&& sample.time == crate::arith::monus(
                        frame.spec_ts() as int,
                        self.started as int,
                    ) / 100
                    &&& sample.duration == 10_000_000int / crate::arith::max(
                        self.cfg.fps as int,
                        1,
                    )
                },
                Err(err) => {
                    &&& super::dims_of(*frame) != (self.cfg.width, self.cfg.height)
                    &&& err matches EncodeError::Backend(text) && text@ == super::size_complaint(
                        "MediaFoundation"@,
                        self.cfg,
                        *frame,
                    )
                },
            },
    {
        match check_size("MediaFoundation", &self.cfg, frame) {
            Err(err) => Err(err),
            Ok(_) => {
                let (y, mut uv): (Vec<u8>, Vec<u8>) = frame_to_nv12(frame);
                let ghost planes = (y, uv);
                let mut data: Vec<u8> = y;
                data.append(&mut uv);
                assert(is_nv12_of(planes, *frame) && data@ == planes.0@ + planes.1@);
                Ok(
                    InputSample {
                        data,
                        time: sample_time(self.started, frame.ts()),
                        duration: sample_duration(self.cfg.fps),
                    },
                )
            },
        }
    }

    /// Takes account of an event.
    pub fn handle_event(&mut self, event: TransformEvent)
        requires
            old(self).credits < u32::MAX,
        ensures
            final(self).same_setup(*old(self)),
            final(self).credits == old(self).credits + (if event is NeedInput {
                1int
            } else {
                0
            }),
            final(self).pending@ == (match event {
                TransformEvent::HaveOutput(Some(frame)) => old(self).pending@.push(frame),
                _ => old(self).pending@,
            }),
    {
        match event {
            TransformEvent::NeedInput => {
                self.credits = self.credits + 1;
            },
            TransformEvent::HaveOutput(frame) => {
                if let Some(frame) = frame {
                    self.pending.push_back(frame);
                }
            },
            TransformEvent::Other => {},
        }
    }

    /// Everything but credits and frames is the same.
    pub open spec fn same_setup(&self, other: MediaFoundationEncoder) -> bool {
        &&& self.cfg == other.cfg
        &&& self.started == other.started
        &&& self.is_async == other.is_async
        &&& self.provides_samples == other.provides_samples
        &&& self.output_buffer_size == other.output_buffer_size
    }

    /// Keeps a frame that came out while there was another one to hand in.
    pub fn keep(&mut self, frame: EncodedFrame)
        ensures
            final(self).same_setup(*old(self)),
            final(self).credits == old(self).credits,
            final(self).pending@ == old(self).pending@.push(frame),
    {
        self.pending.push_back(frame);
    }

    /// Whether to wait for an event before handing in a frame.
    pub fn must_wait(&self) -> (r: bool)
        ensures
            r == (self.is_async && self.credits == 0),
    {
        self.is_async && self.credits == 0
    }

    /// A frame was handed in.
    pub fn submitted(&mut self)
        ensures
            final(self).same_setup(*old(self)),
            final(self).credits == crate::arith::monus(old(self).credits as int, 1),
            final(self).pending@ == old(self).pending@,
    {
        if self.credits > 0 {
            self.credits = self.credits - 1;
        }
    }

    /// The frame to give back.
    pub fn take(&mut self) -> (r: Option<EncodedFrame>)
        ensures
            final(self).same_setup(*old(self)),
            final(self).credits == old(self).credits,
            match r {
                Some(frame) => old(self).pending@.len() > 0 && frame == old(self).pending@[0]
                    && final(self).pending@ == old(self).pending@.skip(1),
                None => old(self).pending@.len() == 0 && final(self).pending@
                    == old(self).pending@,
            },
    {
        let frame: Option<EncodedFrame> = self.pending.pop_front();
        assert(frame is Some ==> self.pending@ =~= old(self).pending@.skip(1));
        frame
    }
}

/// `data` is the frame as NV12: luma, and chroma right behind it.
pub open spec fn is_dense_nv12(data: Seq<u8>, frame: RawFrame) -> bool {
    exists|planes: (Vec<u8>, Vec<u8>)| #[trigger]
        is_nv12_of(planes, frame) && data == planes.0@ + planes.1@
}

/// Frames leave in the order in which they came out: taking the oldest and then
/// keeping another is the same as the other way round, as long as there is an
/// oldest.
pub proof fn law_frames_leave_in_order(pending: Seq<EncodedFrame>, frame: EncodedFrame)
    requires
        pending.len() > 0,
    ensures
        pending.push(frame)[0] == pending[0],
        pending.push(frame).skip(1) == pending.skip(1).push(frame),
{
    assert(pending.push(frame).skip(1) =~= pending.skip(1).push(frame));
}

/// An encoder of hardware is taken wherever there is one; where there is none, the
/// set-up looks for one of software if that is allowed, and otherwise ends. It ends
/// too where none of software is found.
pub proof fn law_hardware_comes_first(s: Setup, found: usize)
    ensures
        s.step is FindHardware && found > 0 ==> (s.advanced(SetupEvent::Found(found)) matches Some(t)
            && t.step is Activate && t.hardware),
        s.step is FindHardware && found == 0 && s.allow_software ==> (s.advanced(
            SetupEvent::Found(found),
        ) matches Some(t) && t.step is FindSoftware),
        s.step is FindHardware && found == 0 && !s.allow_software ==> s.advanced(
            SetupEvent::Found(found),
        ) is None,
        s.step is FindSoftware && found > 0 ==> (s.advanced(SetupEvent::Found(found)) matches Some(t)
            && t.step is Activate && !t.hardware),
        s.step is FindSoftware && found == 0 ==> s.advanced(SetupEvent::Found(found)) is None,
{
}

/// A set-up in which all goes well reaches the end, by way of the events where the
/// transform works on its own, and it never forgets what it found or was told.
pub proof fn law_setup_reaches_the_end(s: Setup, event: SetupEvent)
    requires
        s.expects(event),
        event is Done || event is Async,
    ensures
        s.advanced(event) matches Some(t) && {
            &&& t.allow_software == s.allow_software
            &&& t.hardware == s.hardware
            &&& event matches SetupEvent::Async(on) ==> t.is_async == on
            &&& event is Done ==> t.is_async == s.is_async
            &&& s.step is Start ==> t.step is FindHardware
            &&& s.step is Activate ==> t.step is Unlock
            &&& s.step is StartOfStream ==> (if s.is_async {
                t.step is Events
            } else {
                t.step is Ready
            })
            &&& s.step is Events ==> t.step is DrainEvents
            &&& s.step is DrainEvents ==> t.step is Ready
        },
{
}

/// Whatever fails ends the set-up, and the failure of a single call names the call.
pub proof fn law_failures_end_the_setup(s: Setup, event: SetupEvent, err: EncodeError)
    requires
        s.expects(event),
        event is Failed || event is Refused,
        s.ends_in(event, err),
    ensures
        s.advanced(event) is None,
        event matches SetupEvent::Refused(inner) ==> err == inner,
        event is Failed ==> setup_call(s.step)@.len() > 0,
        event matches SetupEvent::Failed(detail) ==> (err matches EncodeError::Backend(text)
            && text@ == "MediaFoundation "@ + setup_call(s.step)@ + ": "@ + detail@),
{
    reveal_strlit("MFStartup");
    reveal_strlit("MFTEnumEx");
    reveal_strlit("ActivateObject");
    reveal_strlit("MF_TRANSFORM_ASYNC_UNLOCK");
    reveal_strlit("GetOutputStreamInfo");
    reveal_strlit("NOTIFY_BEGIN_STREAMING");
    reveal_strlit("NOTIFY_START_OF_STREAM");
    reveal_strlit("cast to IMFMediaEventGenerator");
}

/// The codec holds a constant bitrate, the session's own, at low latency, with the
/// session's distance between keyframes; only the two that set the bitrate have to
/// be taken. The quantization parameter is capped only where that was asked for.
pub proof fn law_the_codec_is_set_for_live_pictures(cfg: EncoderConfig)
    ensures
        ({
            let list = codec_values(cfg);
            &&& list[0].name == "AVEncCommonRateControlMode" && list[0].value is ConstantBitrate
                && list[0].required
            &&& list[1].name == "AVEncCommonMeanBitRate" && list[1].required
            &&& list[1].value matches Setting::Number(bps) && (cfg.bitrate_kbps <= 4_294_967
                ==> bps == cfg.bitrate_kbps * 1000)
            &&& list[2].name == "AVLowLatencyMode" && list[2].value == Setting::Flag(true)
                && !list[2].required
            &&& list[3].name == "AVEncMPVGOPSize" && list[3].value == Setting::Number(
                cfg.keyframe_interval_frames,
            ) && !list[3].required
            &&& cfg.max_qp is None ==> list.len() == 4
            &&& cfg.max_qp matches Some(qp) ==> {
                &&& list.len() == 5
                &&& list[4].name == "AVEncVideoMaxQP" && !list[4].required
                &&& list[4].value matches Setting::Number(n) && n == qp
            }
        }),
{
}

/// Both types carry the session's size and frame rate; the output is H.264 at the
/// session's bitrate, and the input is NV12, which an offered type says itself.
pub proof fn law_the_types_describe_the_session(cfg: EncoderConfig, offered: bool)
    ensures
        ({
            let output = output_attributes(cfg);
            let input = input_attributes(cfg, offered);
            let first: int = if offered {
                0
            } else {
                2
            };
            &&& output.len() == 7
            &&& output[0] is Video
            &&& output[1] == TypeAttribute::Format(VideoFormat::H264)
            &&& output[2] matches TypeAttribute::Bitrate(bps) && (cfg.bitrate_kbps <= 4_294_967
                ==> bps == cfg.bitrate_kbps * 1000)
            &&& output[3] matches TypeAttribute::FrameSize(size) && size / 0x1_0000_0000
                == cfg.width && size % 0x1_0000_0000 == cfg.height
            &&& output[4] matches TypeAttribute::FrameRate(rate) && rate / 0x1_0000_0000
                == cfg.fps && rate % 0x1_0000_0000 == 1
            &&& output[5] is Progressive
            &&& output[6] == TypeAttribute::Profile(ProfileChoice::ConstrainedBaseline)
            &&& input.len() == first + 4
            &&& !offered ==> input[0] is Video && input[1] == TypeAttribute::Format(
                VideoFormat::Nv12,
            )
            &&& input[first] == output[3]
            &&& input[first + 1] == output[4]
            &&& input[first + 2] is Progressive
            &&& input[first + 3] is AllSamplesIndependent
        }),
{
    let size = cfg.width * 0x1_0000_0000 + cfg.height;
    let rate = cfg.fps * 0x1_0000_0000 + 1;
    assert(0 <= size <= u64::MAX && 0 <= rate <= u64::MAX);
    assert(size / 0x1_0000_0000 == cfg.width && size % 0x1_0000_0000 == cfg.height);
    assert(rate / 0x1_0000_0000 == cfg.fps && rate % 0x1_0000_0000 == 1);
}

/// A frame that is NV12 already goes over byte for byte: row by row the pixels, and
/// then row by row the pairs of chroma, without what lies between the rows.
pub proof fn law_nv12_goes_over_without_padding(
    r: (Vec<u8>, Vec<u8>),
    frame: RawFrame,
    row: int,
    col: int,
)
    requires
        is_nv12_of(r, frame),
        frame is Nv12,
        0 <= row,
        0 <= col,
    ensures
        frame matches RawFrame::Nv12 { width, height, y, y_stride, uv, uv_stride, .. } ==> {
            let chroma_row = width + width % 2;
            &&& r.0@.len() == width * height
            &&& r.1@.len() * 2 == chroma_row * (height + height % 2)
            &&& col < width && row < height ==> r.0@[row * width + col] == y@[row * y_stride + col]
            &&& col < chroma_row && row * 2 < height ==> r.1@[row * chroma_row + col] == uv@[row
                * uv_stride + col]
        },
{
    if let RawFrame::Nv12 { width, height, y, y_stride, uv, uv_stride, .. } = frame {
        let w = width as int;
        let h = height as int;
        let cw = w + w % 2;
        let ch = (h + h % 2) / 2;
        assert(super::convert::half_up(w) * 2 == cw && super::convert::half_up(h) == ch);
        assert(0 <= w * h && 0 <= cw * ch) by (nonlinear_arith)
            requires
                w >= 0,
                h >= 0,
                cw >= 0,
                ch >= 0,
        ;
        assert(cw * ch * 2 == cw * (h + h % 2)) by (nonlinear_arith)
            requires
                ch * 2 == h + h % 2,
        ;
        if col < w && row < h {
            super::convert::lemma_dense_index(row, col, w, h);
        }
        if col < cw && row * 2 < h {
            super::convert::lemma_dense_index(row, col, cw, ch);
        }
    }
}

/// A BGRA frame goes over with the luma of its pixels in their places, and half as
/// many bytes of chroma behind it.
pub proof fn law_bgra_goes_over_as_luma_and_chroma(
    r: (Vec<u8>, Vec<u8>),
    frame: RawFrame,
    row: int,
    col: int,
)
    requires
        is_nv12_of(r, frame),
        frame is Bgra,
        0 <= row,
        0 <= col,
    ensures
        frame matches RawFrame::Bgra { width, height, data, stride, .. } ==> {
            let w = width - width % 2;
            let h = height - height % 2;
            let at = row * stride + col * 4;
            &&& r.0@.len() == w * h
            &&& r.1@.len() * 2 == w * h
            &&& row < h && col < w ==> r.0@[row * w + col] == (66 * data@[at + 2] + 129 * data@[at
                + 1] + 25 * data@[at]) / 256 + 16
        },
{
    let i420 = choose|i420: super::convert::I420Frame| #[trigger]
        super::convert::is_i420_of(i420, frame) && r.0@ == i420.y@ && r.1@
            == super::convert::interleaved(i420.u@, i420.v@);
    assert(super::convert::is_i420_of(i420, frame));
    super::convert::lemma_i420_lengths(i420, frame);
    let w = i420.width as int;
    let h = i420.height as int;
    assert(h * w == w * h && (h / 2) * (w / 2) * 4 == w * h) by (nonlinear_arith)
        requires
            w % 2 == 0,
            h % 2 == 0,
    ;
    if row < h && col < w {
        super::convert::law_pixels_keep_their_places(i420, frame, row, col);
    }
}

} // verus!
