//! From the screen to encoded frames.

use rcdesk_host::capture::gdi::{
    blit_error, release_order, setup_error, GdiObject, GdiSource, ScreenRect,
};
use rcdesk_host::capture::scap::{accept_frame, CapturedFrame, ScapSource};
use rcdesk_host::capture::synthetic::{for_display, SyntheticSource};
use rcdesk_host::capture::{
    default_display, frame_unchanged, list_displays, CaptureError, CaptureTarget, DisplayInfo,
    FramePacer, FrameSource, RawFrame,
};
use rcdesk_host::encode::convert::{
    bgra_to_i420, can_convert, i420_to_nv12, nv12_to_i420, to_i420, I420Frame,
};
use rcdesk_host::encode::mediafoundation as mf;
use rcdesk_host::encode::mediafoundation::{
    Input, Output, OutputStep, SetupEvent, SetupStep, SyncStep, TransformChoice,
};
use rcdesk_host::encode::software::OpenH264Encoder;
use rcdesk_host::encode::videotoolbox as vt;
use rcdesk_host::encode::{
    build_encoder, check_size, nal_types, BuiltEncoder, EncodeError, EncodedFrame, Encoder,
    EncoderConfig, EncoderKind, RateTarget,
};
use rcdesk_host::pipeline::{EncodeOutcome, Pacer, Pipeline, FRAME_CHANNEL_CAPACITY};
use rcdesk_host::proto::HostOs;

const MS: u64 = 1_000_000;

fn test_cfg() -> EncoderConfig {
    EncoderConfig {
        width: 64,
        height: 64,
        fps: 30,
        bitrate_kbps: 2000,
        keyframe_interval_frames: 60,
        max_qp: None,
    }
}

#[test]
fn frame_unchanged_is_false_with_no_previous_frame() {
    assert!(!frame_unchanged(None, &[1, 2, 3]));
}

#[test]
fn frame_unchanged_is_true_for_identical_bytes() {
    let prev = vec![1, 2, 3, 4];
    let cur = vec![1, 2, 3, 4];
    assert!(frame_unchanged(Some(&prev), &cur));
}

#[test]
fn frame_unchanged_is_false_when_a_byte_differs() {
    let prev = vec![1, 2, 3, 4];
    let cur = vec![1, 2, 9, 4];
    assert!(!frame_unchanged(Some(&prev), &cur));
}

#[test]
fn wait_paces_at_the_configured_fps() {
    let mut pacer = FramePacer::new(100, 0);
    let mut now = 0;
    for _ in 0..20 {
        now += pacer.wait(now);
    }
    assert_eq!(now, 190 * MS);
}

#[test]
fn wait_resets_schedule_after_falling_behind_instead_of_bursting() {
    let mut pacer = FramePacer::new(100, 0);
    assert_eq!(pacer.wait(0), 0);
    // Ten intervals late: the schedule starts over instead of catching up.
    let late = 110 * MS;
    assert_eq!(pacer.wait(late), 0);
    assert_eq!(pacer.wait(late), 10 * MS);
    // Two intervals late: they are made up for.
    let mut pacer = FramePacer::new(100, 0);
    pacer.wait(0);
    assert_eq!(pacer.wait(30 * MS), 0);
    assert_eq!(pacer.wait(30 * MS), 0);
    assert_eq!(pacer.wait(30 * MS), 0);
    assert_eq!(pacer.wait(30 * MS), 10 * MS);
}

#[test]
fn produces_even_sized_nv12_frames_that_change_over_time() {
    let mut source = SyntheticSource::new(16, 8, 1000, 0);
    let first = source.next_frame(0).expect("first frame");
    let second = source.next_frame(1).expect("second frame");

    let (RawFrame::Nv12 { y: y1, .. }, RawFrame::Nv12 { y: y2, .. }) = (&first, &second) else {
        panic!("synthetic source must produce NV12 frames");
    };

    assert_eq!(source.size(), (16, 8));
    assert_ne!(y1, y2, "consecutive frames should differ");
}

#[test]
fn for_display_2_is_1024x768() {
    let source = for_display(2, 1000, 0).expect("display 2 exists");
    assert_eq!(source.size(), (1024, 768));
}

#[test]
fn for_display_2_renders_a_vertical_gradient_unlike_display_1() {
    let mut horizontal = for_display(1, 1000, 0).expect("display 1 exists");
    let mut vertical = for_display(2, 1000, 0).expect("display 2 exists");

    let (
        RawFrame::Nv12 {
            y: y1, width: w1, ..
        },
        RawFrame::Nv12 {
            y: y2, width: w2, ..
        },
    ) = (
        horizontal.next_frame(0).expect("display 1 frame"),
        vertical.next_frame(0).expect("display 2 frame"),
    )
    else {
        panic!("synthetic source must produce NV12 frames");
    };

    // Display 1's first row varies; that of display 2 is constant.
    let first_row_1 = &y1[..w1 as usize];
    let first_row_2 = &y2[..w2 as usize];
    assert!(
        first_row_1.windows(2).any(|pair| pair[0] != pair[1]),
        "display 1's first row should vary (horizontal gradient)"
    );
    assert!(
        first_row_2.windows(2).all(|pair| pair[0] == pair[1]),
        "display 2's first row should be constant (vertical gradient)"
    );
}

#[test]
fn for_display_unknown_id_is_an_error() {
    assert!(for_display(3, 30, 0).is_err());
}

fn display(id: u32, primary: bool) -> DisplayInfo {
    DisplayInfo {
        id,
        title: String::new(),
        x: 0,
        y: 0,
        width: 10,
        height: 10,
        primary,
    }
}

#[test]
fn windows_are_not_listed_as_displays() {
    let targets = || {
        vec![
            CaptureTarget::Window,
            CaptureTarget::Display(display(3, false)),
            CaptureTarget::Display(display(4, true)),
        ]
    };
    let displays = list_displays(HostOs::Macos, true, true, targets()).expect("displays");
    assert_eq!(displays.iter().map(|d| d.id).collect::<Vec<_>>(), vec![3, 4]);
    assert_eq!(default_display(&displays).map(|d| d.id), Some(4));
    assert!(default_display(&[]).is_none());
    for (os, supported, permitted, message) in [
        (HostOs::Other, true, true, "screen capture is not supported on this platform"),
        (HostOs::Macos, false, true, "screen capture is not supported on this platform"),
        (HostOs::Macos, true, false, "screen recording permission not granted"),
    ] {
        let err = list_displays(os, supported, permitted, targets()).unwrap_err();
        assert_eq!(err.message(), message);
    }

    let source = ScapSource::new(Some(4), 30, true, true, &targets()).expect("display 4");
    assert_eq!((source.target, source.fps), (2, 30));
    let source = ScapSource::new(None, 30, true, true, &targets()).expect("a display");
    assert_eq!(source.target, 1);
    let err = ScapSource::new(Some(9), 30, true, true, &targets()).unwrap_err();
    assert_eq!(err.message(), "capture backend error: display 9 not found");
    let err = ScapSource::new(None, 30, true, true, &[]).unwrap_err();
    assert_eq!(err.message(), "capture backend error: no capturable display found");
    assert_eq!(CaptureError::Stopped.message(), "capture source stopped");
}

#[test]
fn captured_frames_become_raw_ones() {
    let empty = CapturedFrame::Bgra {
        width: 0,
        height: 0,
        data: vec![],
    };
    assert!(matches!(accept_frame(empty, 1), Ok(None)));
    let frame = CapturedFrame::Bgra {
        width: 2,
        height: 1,
        data: vec![1; 8],
    };
    assert!(matches!(
        accept_frame(frame, 7),
        Ok(Some(RawFrame::Bgra { stride: 8, ts: 7, .. }))
    ));
    let err = accept_frame(CapturedFrame::Other, 1).unwrap_err();
    assert_eq!(err.message(), "capture backend error: unexpected frame type");
}

#[test]
fn an_unchanged_image_yields_nothing() {
    let monitor = ScreenRect {
        left: -3,
        top: 0,
        right: 0,
        bottom: 2,
    };
    let mut source = GdiSource::new(Some(1), 30, (0, 0), Some(monitor), 0).expect("a source");
    // An odd width loses its last column.
    assert_eq!(source.size(), (2, 2));
    assert_eq!(source.bitmap_size(), (2, -2));
    assert!(source.accept(&[1; 16], 1).is_some());
    assert!(source.accept(&[1; 16], 2).is_none());
    assert!(source.accept(&[2; 16], 3).is_some());
    assert!(GdiSource::new(Some(1), 30, (0, 0), None, 0).is_err());
    assert_eq!(blit_error("x").message(), "capture backend error: BitBlt: x");
    assert_eq!(
        setup_error(GdiObject::Bitmap, "code 8").message(),
        "capture backend error: CreateDIBSection: code 8"
    );
    assert_eq!(
        release_order(GdiObject::Selection),
        vec![GdiObject::Bitmap, GdiObject::MemoryDc, GdiObject::ScreenDc]
    );
}

#[test]
fn nv12_to_i420_deinterleaves_uv_exactly() {
    let y = vec![0u8, 1, 2, 3, 4, 5, 6, 7];
    let uv = vec![10u8, 20, 30, 40];

    let frame = nv12_to_i420(4, 2, &y, 4, &uv, 4);

    assert_eq!(frame.width, 4);
    assert_eq!(frame.height, 2);
    assert_eq!(frame.y, y);
    assert_eq!(frame.u, vec![10, 30]);
    assert_eq!(frame.v, vec![20, 40]);
}

#[test]
fn bgra_to_i420_white_is_high_luma_neutral_chroma() {
    let (w, h) = (8usize, 8usize);
    let data = vec![255u8; w * h * 4];

    let frame = bgra_to_i420(w as u32, h as u32, &data, w * 4);

    assert_eq!(frame.y.len(), w * h);
    assert_eq!(frame.u.len(), (w / 2) * (h / 2));
    assert_eq!(frame.v.len(), (w / 2) * (h / 2));
    for &y in &frame.y {
        assert!((232..=238).contains(&y), "unexpected Y value {y}");
    }
    for &u in &frame.u {
        assert!((125..=131).contains(&u), "unexpected U value {u}");
    }
    for &v in &frame.v {
        assert!((125..=131).contains(&v), "unexpected V value {v}");
    }
}

#[test]
fn bgra_to_i420_keeps_the_colours_apart() {
    // Blue, then green, then red, two by two pixels each; one byte of padding.
    for (bgra, yuv) in [
        ([255, 0, 0, 255], (40, 239, 110)),
        ([0, 255, 0, 255], (144, 54, 34)),
        ([0, 0, 255, 255], (81, 90, 239)),
        ([0, 0, 0, 255], (16, 128, 128)),
    ] {
        let mut data = Vec::new();
        for _ in 0..2 {
            data.extend_from_slice(&bgra);
            data.extend_from_slice(&bgra);
            data.push(77);
        }
        let frame = bgra_to_i420(2, 2, &data, 9);
        assert_eq!(frame.y, [yuv.0; 4], "{bgra:?}");
        assert_eq!((frame.u[0], frame.v[0]), (yuv.1, yuv.2), "{bgra:?}");
    }
}

#[test]
fn i420_to_nv12_interleaves_uv_exactly() {
    // 4x2 I420: Y unchanged, U/V (2x1 each) interleave to U0 V0 U1 V1.
    let frame = I420Frame {
        width: 4,
        height: 2,
        y: vec![0u8, 1, 2, 3, 4, 5, 6, 7],
        u: vec![10u8, 30],
        v: vec![20u8, 40],
    };

    let (y, uv) = i420_to_nv12(&frame);

    assert_eq!(y, frame.y);
    assert_eq!(uv, vec![10, 20, 30, 40]);
}

#[test]
fn images_survive_the_way_to_nv12_and_back() {
    for (width, height) in [(4u32, 2u32), (5, 3), (1, 1), (3, 4), (0, 2)] {
        let luma = (width * height) as u8;
        let chroma = (width.div_ceil(2) * height.div_ceil(2)) as u8;
        let frame = I420Frame {
            width,
            height,
            y: (0..luma).collect(),
            u: (100..100 + chroma).collect(),
            v: (200..200 + chroma).collect(),
        };
        let (y, uv) = i420_to_nv12(&frame);
        let stride = width.div_ceil(2) as usize * 2;
        let back = nv12_to_i420(width, height, &y, width as usize, &uv, stride);
        assert_eq!((back.width, back.height), (width, height));
        assert_eq!((&back.y, &back.u, &back.v), (&frame.y, &frame.u, &frame.v));
        assert_eq!(i420_to_nv12(&back), (y, uv));
    }
}

#[test]
fn a_finished_frame_is_stamped() {
    let mut encoder = OpenH264Encoder::new(test_cfg(), 0).expect("encoder init");
    let frame = synthetic_frames(1).remove(0);
    let encoded = encoder.encode(&frame, true, 7 * MS).expect("encode").expect("a frame");
    assert_eq!(encoded.ts, 7 * MS);
    let (data, captured_at) = (encoded.data.clone(), encoded.captured_at);
    let encoded = encoded.stamped(12 * MS);
    assert_eq!(encoded.ts, 12 * MS);
    assert!(encoded.keyframe);
    assert_eq!((encoded.data, encoded.captured_at), (data, captured_at));
}

#[test]
fn to_i420_crops_odd_dimensions_to_even() {
    let raw = RawFrame::Nv12 {
        width: 5,
        height: 3,
        y: vec![0u8; 5 * 3],
        y_stride: 5,
        uv: vec![128u8; 5 * 2],
        uv_stride: 5,
        ts: 0,
    };

    let frame = to_i420(&raw);

    assert_eq!(frame.width, 4);
    assert_eq!(frame.height, 2);
    assert_eq!(frame.y.len(), 8);
    assert_eq!(frame.u.len(), 2);
    assert_eq!(frame.v.len(), 2);
}

#[test]
fn nal_types_parses_3_and_4_byte_start_codes() {
    // SPS (7) with a 4-byte start code, PPS (8) and IDR (5) with 3-byte
    // start codes, matching what an Annex-B encoder emits.
    let stream: Vec<u8> = vec![
        0, 0, 0, 1, 0x67, 0xAA, 0xBB, // SPS
        0, 0, 1, 0x68, 0xCC, // PPS
        0, 0, 1, 0x65, 0xDD, 0xEE, // IDR
    ];

    assert_eq!(nal_types(&stream), vec![7, 8, 5]);
}

#[test]
fn nal_types_empty_for_no_start_code() {
    assert!(nal_types(&[1, 2, 3, 4]).is_empty());
}

#[test]
fn build_encoder_rejects_backends_not_built_in() {
    let build = |os, kind| build_encoder(os, kind, test_cfg(), Ok(()), 0);
    assert!(matches!(
        build(HostOs::Macos, Some(EncoderKind::MediaFoundation)),
        Err(EncodeError::Unsupported(_))
    ));
    let (_, kind) = build(HostOs::Macos, Some(EncoderKind::VideoToolbox))
        .expect("videotoolbox must build on macOS");
    assert_eq!(kind, EncoderKind::VideoToolbox);
    let (_, kind) = build(HostOs::Macos, None).expect("auto must build on macOS");
    assert_eq!(kind, EncoderKind::VideoToolbox);

    assert!(matches!(
        build(HostOs::Windows, Some(EncoderKind::VideoToolbox)),
        Err(EncodeError::Unsupported(_))
    ));
    let (_, kind) = build(HostOs::Windows, Some(EncoderKind::MediaFoundation))
        .expect("mediafoundation must build on windows (software MFT if no hardware)");
    assert_eq!(kind, EncoderKind::MediaFoundation);
    let (_, kind) = build(HostOs::Windows, None).expect("auto must build on windows");
    assert_eq!(kind, EncoderKind::MediaFoundation);

    assert!(matches!(
        build(HostOs::Other, Some(EncoderKind::VideoToolbox)),
        Err(EncodeError::Unsupported(_))
    ));
    assert!(matches!(
        build(HostOs::Other, Some(EncoderKind::MediaFoundation)),
        Err(EncodeError::Unsupported(_))
    ));
    let (_, kind) = build(HostOs::Other, None).expect("auto must build openh264");
    assert_eq!(kind, EncoderKind::OpenH264);
}

#[test]
fn the_software_encoder_opens_with_any_configuration() {
    for (side, fps, bitrate_kbps, max_qp) in [
        (0, 0, 0, Some(0)),
        (63, 1, 1, Some(51)),
        (u32::MAX, u32::MAX, u32::MAX, Some(255)),
    ] {
        let cfg = EncoderConfig {
            width: side,
            height: side,
            fps,
            bitrate_kbps,
            keyframe_interval_frames: fps,
            max_qp,
        };
        assert!(OpenH264Encoder::new(cfg, 3).is_ok());
        let (encoder, kind) = build_encoder(HostOs::Other, None, cfg, Ok(()), 3).expect("software");
        assert_eq!(kind, EncoderKind::OpenH264);
        assert!(matches!(encoder, BuiltEncoder::Software(inner) if inner.started == 3));
    }
}

#[test]
fn the_software_encoder_steps_in_where_it_may() {
    let failed = || Err(EncodeError::Backend("no hardware".to_string()));
    let (encoder, kind) =
        build_encoder(HostOs::Windows, None, test_cfg(), failed(), 0).expect("a fallback");
    assert_eq!(kind, EncoderKind::OpenH264);
    assert!(matches!(encoder, BuiltEncoder::Software(_)));
    let asked = Some(EncoderKind::MediaFoundation);
    let Err(err) = build_encoder(HostOs::Windows, asked, test_cfg(), failed(), 0) else {
        panic!("an explicit choice has no fallback");
    };
    assert_eq!(err.message(), "encoder backend error: no hardware");
    assert_eq!(
        EncodeError::Unsupported(EncoderKind::VideoToolbox).message(),
        "VideoToolbox encoder is not available in this build"
    );
    assert_eq!(EncoderKind::OpenH264.name(), "openh264");
}

/// Encodes frames of the synthetic source, forcing a keyframe at `force_at`.
fn encode_frames(cfg: EncoderConfig, frames: u32, force_at: u32) -> Vec<(u32, EncodedFrame)> {
    let mut source = SyntheticSource::new(64, 64, 1000, 0);
    let mut encoder = OpenH264Encoder::new(cfg, 0).expect("encoder init");
    let mut outputs = Vec::new();
    for i in 0..frames {
        let now = u64::from(i) * 33 * MS;
        let raw = source.next_frame(now).expect("frame");
        if let Some(encoded) = encoder.encode(&raw, i == force_at, now + 5).expect("encode") {
            assert_eq!((encoded.captured_at, encoded.ts), (now, now + 5));
            outputs.push((i, encoded));
        }
    }
    outputs
}

#[test]
fn openh264_first_frame_is_keyframe_with_sps_pps_idr() {
    let outputs = encode_frames(test_cfg(), 1, 99);
    let encoded = &outputs.first().expect("first frame must produce output").1;

    assert!(encoded.keyframe);
    let types = nal_types(&encoded.data);
    assert!(types.contains(&7), "missing SPS: {types:?}");
    assert!(types.contains(&8), "missing PPS: {types:?}");
    assert!(types.contains(&5), "missing IDR: {types:?}");
}

#[test]
fn thirty_frames_have_deltas_respect_force_keyframe_and_stay_small() {
    let outputs = encode_frames(test_cfg(), 30, 19);

    assert!(!outputs.is_empty());
    assert!(outputs[0].1.keyframe);

    let has_delta = outputs
        .iter()
        .skip(1)
        .take(10)
        .any(|(_, f)| nal_types(&f.data).contains(&1));
    assert!(
        has_delta,
        "expected at least one non-keyframe (NAL 1) among the next 10 frames"
    );

    let forced = outputs
        .iter()
        .find(|(idx, _)| *idx == 19)
        .expect("frame 20 should produce output");
    assert!(
        nal_types(&forced.1.data).contains(&5),
        "expected IDR after force_keyframe"
    );

    let total_size: usize = outputs.iter().map(|(_, f)| f.data.len()).sum();
    assert!(
        total_size < 200 * 1024,
        "total encoded size too large: {total_size} bytes"
    );
}

#[test]
fn max_qp_cap_encodes_keyframe_and_deltas() {
    let mut cfg = test_cfg();
    cfg.max_qp = Some(30);
    let outputs = encode_frames(cfg, 30, 99);

    assert!(!outputs.is_empty());
    assert!(outputs[0].1.keyframe);
    let types = nal_types(&outputs[0].1.data);
    assert!(types.contains(&7), "missing SPS: {types:?}");
    assert!(types.contains(&8), "missing PPS: {types:?}");
    assert!(types.contains(&5), "missing IDR: {types:?}");

    let has_delta = outputs
        .iter()
        .skip(1)
        .take(10)
        .any(|(_, f)| nal_types(&f.data).contains(&1));
    assert!(
        has_delta,
        "expected at least one non-keyframe (NAL 1) among the next 10 frames"
    );
}

#[test]
fn a_running_software_encoder_keeps_its_rate() {
    let mut encoder = OpenH264Encoder::new(test_cfg(), 0).expect("encoder init");
    assert!(encoder
        .set_rate(RateTarget {
            bitrate_kbps: 300,
            fps: 15
        })
        .is_err());
}

#[test]
fn the_software_encoder_refuses_what_is_beyond_it() {
    let wide = RawFrame::Nv12 {
        width: 3842,
        height: 2,
        y: vec![0; 3842 * 2],
        y_stride: 3842,
        uv: vec![128; 3842],
        uv_stride: 3842,
        ts: 0,
    };
    let mut encoder = OpenH264Encoder::new(test_cfg(), 0).expect("encoder init");
    let err = encoder.encode(&wide, false, 0).unwrap_err();
    assert!(err.message().starts_with("encoder backend error: "));
    let mut cfg = test_cfg();
    cfg.bitrate_kbps = 3_000_000;
    let mut encoder = OpenH264Encoder::new(cfg, 0).expect("encoder init");
    assert!(encoder.encode(&synthetic_frames(1)[0], true, 0).is_err());
}

/// A transform that works in step, with the software encoder inside.
fn transform_frames(raws: &[RawFrame], force_at: usize) -> Vec<(usize, EncodedFrame)> {
    let cfg = test_cfg();
    let mut inner = OpenH264Encoder::new(cfg, 0).expect("encoder init");
    let mut queue = mf::MediaFoundationEncoder::new(cfg, true, true, 0, 0);
    let mut outputs = Vec::new();
    for (i, raw) in raws.iter().enumerate() {
        let input = queue
            .build_input_sample(raw)
            .expect("the size it was opened for");
        let time = input.time;
        let sample = RawFrame::Nv12 {
            width: 64,
            height: 64,
            y: input.data[..64 * 64].to_vec(),
            y_stride: 64,
            uv: input.data[64 * 64..].to_vec(),
            uv_stride: 64,
            ts: raw.ts(),
        };
        assert!(queue.must_wait());
        queue.handle_event(mf::TransformEvent::NeedInput);
        assert!(!queue.must_wait());
        let bits = inner.encode(&sample, i == force_at, raw.ts()).expect("encode");
        queue.submitted();
        let frame = bits.map(|f| mf::frame_from_output_sample(f.data, false, time, 0, raw.ts() + 9));
        queue.handle_event(mf::TransformEvent::HaveOutput(frame));
        if let Some(frame) = queue.take() {
            assert_eq!((frame.captured_at, frame.ts), (raw.ts(), raw.ts() + 9));
            outputs.push((i, frame));
        }
    }
    outputs
}

fn synthetic_frames(n: u64) -> Vec<RawFrame> {
    let mut source = SyntheticSource::new(64, 64, 1000, 0);
    (0..n)
        .map(|i| source.next_frame(i * 33 * MS).expect("frame"))
        .collect()
}

#[test]
fn mediafoundation_first_frame_is_keyframe_with_sps_pps_idr() {
    let outputs = transform_frames(&synthetic_frames(30), 99);
    let encoded = &outputs
        .first()
        .expect("expected at least one output within 30 frames")
        .1;

    assert!(encoded.keyframe);
    let types = nal_types(&encoded.data);
    assert!(types.contains(&7), "missing SPS: {types:?}");
    assert!(types.contains(&8), "missing PPS: {types:?}");
    assert!(types.contains(&5), "missing IDR: {types:?}");
}

#[test]
fn mediafoundation_thirty_frames_have_deltas_and_honour_force_keyframe() {
    let outputs = transform_frames(&synthetic_frames(30), 19);

    assert!(!outputs.is_empty());
    assert!(outputs[0].1.keyframe);

    let has_delta = outputs
        .iter()
        .skip(1)
        .take(10)
        .any(|(_, f)| nal_types(&f.data).contains(&1));
    assert!(
        has_delta,
        "expected at least one non-keyframe (NAL 1) among the next 10 frames"
    );
    let forced_or_later = outputs
        .iter()
        .filter(|(idx, _)| *idx >= 19)
        .any(|(_, f)| nal_types(&f.data).contains(&5));
    assert!(
        forced_or_later,
        "expected an IDR at or after the forced frame"
    );
}

#[test]
fn mediafoundation_bgra_input_is_accepted() {
    let frame = RawFrame::Bgra {
        width: 64,
        height: 64,
        data: vec![0x80u8; 256 * 64],
        stride: 256,
        ts: 0,
    };
    let outputs = transform_frames(&[frame], 0);
    let encoded = &outputs
        .first()
        .expect("expected at least one output within 30 attempts")
        .1;
    assert!(encoded.keyframe);
}

#[test]
fn mediafoundation_settings_follow_the_configuration() {
    let mut cfg = test_cfg();
    let values = mf::configure_codec_api(&cfg);
    assert_eq!(values.len(), 4);
    assert_eq!(values[1].value, mf::Setting::Number(2_000_000));
    assert!(values[0].required && values[1].required && !values[2].required);
    cfg.max_qp = Some(40);
    cfg.bitrate_kbps = u32::MAX;
    let values = mf::configure_codec_api(&cfg);
    assert_eq!(values[1].value, mf::Setting::Number(u32::MAX));
    assert_eq!(values[4].value, mf::Setting::Number(40));

    assert_eq!(mf::frame_size_value(1920, 1080), 1920 << 32 | 1080);
    assert_eq!(mf::frame_rate_value(30), 30 << 32 | 1);
    let geometry = [
        mf::TypeAttribute::FrameSize(64 << 32 | 64),
        mf::TypeAttribute::FrameRate(30 << 32 | 1),
        mf::TypeAttribute::Progressive,
    ];
    let output = mf::output_type(&test_cfg());
    assert_eq!(
        output[..3],
        [
            mf::TypeAttribute::Video,
            mf::TypeAttribute::Format(mf::VideoFormat::H264),
            mf::TypeAttribute::Bitrate(2_000_000),
        ]
    );
    assert_eq!(output[3..6], geometry);
    assert_eq!(
        output[6..],
        [mf::TypeAttribute::Profile(mf::ProfileChoice::ConstrainedBaseline)]
    );
    let offered = mf::input_type(&test_cfg(), true);
    assert_eq!(offered[..3], geometry);
    assert_eq!(offered[3..], [mf::TypeAttribute::AllSamplesIndependent]);
    let described = mf::input_type(&test_cfg(), false);
    assert_eq!(
        described[..2],
        [
            mf::TypeAttribute::Video,
            mf::TypeAttribute::Format(mf::VideoFormat::Nv12)
        ]
    );
    assert_eq!(described[2..], offered[..]);
    for (attribute, input, name) in [
        (geometry[0], false, "MF_MT_FRAME_SIZE"),
        (geometry[0], true, "MF_MT_FRAME_SIZE (input)"),
        (
            mf::TypeAttribute::Profile(mf::ProfileChoice::Baseline),
            false,
            "MF_MT_MPEG2_PROFILE (Base)",
        ),
    ] {
        assert_eq!(
            mf::attribute_failed(attribute, input, "code 5").message(),
            format!("encoder backend error: MediaFoundation {name}: code 5")
        );
    }
    assert_eq!(mf::output_buffer_size(10, &test_cfg()), 64 * 64);
    assert_eq!(mf::output_buffer_size(9999, &test_cfg()), 9999);
    assert_eq!(mf::sample_duration(30), 333_333);
    assert_eq!(mf::sample_duration(0), 10_000_000);
    assert_eq!(mf::sample_time(100, 50), 0);
    assert_eq!(mf::sample_time(100, 1199), 10);
}

#[test]
fn mediafoundation_takes_what_it_can_get() {
    assert_eq!(mf::choose_transform(2, false, None), TransformChoice::Hardware);
    assert_eq!(mf::choose_transform(0, false, None), TransformChoice::Nothing);
    assert_eq!(mf::choose_transform(0, true, None), TransformChoice::LookForSoftware);
    assert_eq!(mf::choose_transform(0, true, Some(1)), TransformChoice::Software);
    assert_eq!(mf::choose_transform(0, true, Some(0)), TransformChoice::Nothing);
    assert!(matches!(
        mf::next_profile(mf::ProfileChoice::ConstrainedBaseline, "code 5"),
        Ok(mf::ProfileChoice::Baseline)
    ));
    assert_eq!(
        mf::next_profile(mf::ProfileChoice::Baseline, "code 5")
            .unwrap_err()
            .message(),
        "encoder backend error: MediaFoundation SetOutputType: code 5"
    );
    assert_eq!(mf::pick_input_type(&[false, true, true]), Some(1));
    assert_eq!(mf::pick_input_type(&[false]), None);
    assert!(mf::com_ready(1).is_ok());
    assert!(mf::com_ready(0x8001_0106u32 as i32).is_ok());
    assert_eq!(
        mf::com_ready(0x8000_4005u32 as i32).unwrap_err().message(),
        "encoder backend error: MediaFoundation CoInitializeEx: HRESULT 0x80004005"
    );
}

/// The steps of a set-up, given what each of them comes to.
fn setup_steps(
    allow_software: bool,
    event: impl Fn(SetupStep) -> SetupEvent,
) -> (Vec<SetupStep>, mf::Setup, Option<String>) {
    let mut setup = mf::Setup::new(allow_software);
    let mut steps = Vec::new();
    while setup.step != SetupStep::Ready {
        steps.push(setup.step);
        if let Err(err) = setup.advance(event(setup.step)) {
            return (steps, setup, Some(err.message()));
        }
    }
    (steps, setup, None)
}

#[test]
fn mediafoundation_is_set_up_step_by_step() {
    let found = |hardware: usize, software: usize, on_its_own: bool| {
        move |step: SetupStep| match step {
            SetupStep::FindHardware => SetupEvent::Found(hardware),
            SetupStep::FindSoftware => SetupEvent::Found(software),
            SetupStep::Unlock => SetupEvent::Async(on_its_own),
            _ => SetupEvent::Done,
        }
    };
    let (steps, setup, err) = setup_steps(false, found(1, 0, true));
    assert_eq!(err, None);
    assert!(setup.hardware && setup.is_async && setup.started());
    assert_eq!(
        steps,
        vec![
            SetupStep::Start,
            SetupStep::FindHardware,
            SetupStep::Activate,
            SetupStep::Unlock,
            SetupStep::Configure,
            SetupStep::OutputType,
            SetupStep::InputType,
            SetupStep::StreamInfo,
            SetupStep::BeginStreaming,
            SetupStep::StartOfStream,
            SetupStep::Events,
            SetupStep::DrainEvents,
        ]
    );

    let (steps, setup, err) = setup_steps(true, found(0, 1, false));
    assert_eq!(err, None);
    assert!(!setup.hardware && !setup.is_async);
    assert_eq!(steps[2], SetupStep::FindSoftware);
    assert_eq!(steps.last(), Some(&SetupStep::StartOfStream));

    for allow_software in [false, true] {
        let (_, _, err) = setup_steps(allow_software, found(0, 0, false));
        assert_eq!(
            err.as_deref(),
            Some("encoder backend error: no H.264 encoder MFT found")
        );
    }

    let (_, setup, err) = setup_steps(true, |_| SetupEvent::Failed("code 5".to_string()));
    assert!(!setup.started());
    assert_eq!(
        err.as_deref(),
        Some("encoder backend error: MediaFoundation MFStartup: code 5")
    );
    let works = found(1, 0, false);
    let (_, setup, err) = setup_steps(true, |step| match step {
        SetupStep::OutputType => {
            SetupEvent::Refused(EncodeError::Backend("no such type".to_string()))
        }
        step => works(step),
    });
    assert!(setup.started());
    assert_eq!(err.as_deref(), Some("encoder backend error: no such type"));
    let works = found(1, 0, false);
    let (_, _, err) = setup_steps(true, |step| match step {
        SetupStep::StreamInfo => SetupEvent::Failed("code 5".to_string()),
        step => works(step),
    });
    assert_eq!(
        err.as_deref(),
        Some("encoder backend error: MediaFoundation GetOutputStreamInfo: code 5")
    );
}

#[test]
fn mediafoundation_answers_lead_to_steps() {
    let detail = || "code 5".to_string();
    assert!(matches!(mf::drain_output(Output::FormatChanged), OutputStep::Renegotiate));
    assert!(matches!(mf::drain_output(Output::Done { sample: true }), OutputStep::Read));
    assert!(matches!(mf::drain_output(Output::Done { sample: false }), OutputStep::Nothing));
    assert!(matches!(mf::drain_output(Output::NeedsInput), OutputStep::Nothing));
    let OutputStep::Fail(err) = mf::drain_output(Output::Failed(detail())) else {
        panic!("a failure");
    };
    assert_eq!(
        err.message(),
        "encoder backend error: MediaFoundation ProcessOutput: code 5"
    );
    assert!(matches!(mf::encode_sync(Input::Taken, false), SyncStep::Deliver));
    assert!(matches!(
        mf::encode_sync(Input::NotAccepting(detail()), false),
        SyncStep::DrainAndRetry
    ));
    let SyncStep::Fail(err) = mf::encode_sync(Input::NotAccepting(detail()), true) else {
        panic!("a failure");
    };
    assert_eq!(
        err.message(),
        "encoder backend error: MediaFoundation ProcessInput (retry after NOTACCEPTING): code 5"
    );
    let SyncStep::Fail(err) = mf::encode_sync(Input::Failed(detail()), false) else {
        panic!("a failure");
    };
    assert_eq!(
        err.message(),
        "encoder backend error: MediaFoundation ProcessInput: code 5"
    );

    let mut queue = mf::MediaFoundationEncoder::new(test_cfg(), true, false, 9999, 5);
    assert_eq!(queue.output_buffer_size, 9999);
    assert!(queue.must_wait());
    queue.submitted();
    assert_eq!(queue.credits, 0);
    for size in [1, 2] {
        queue.keep(EncodedFrame {
            data: vec![0; size],
            keyframe: false,
            ts: 0,
            captured_at: 0,
        });
    }
    assert_eq!(queue.take().map(|f| f.data.len()), Some(1));
    assert_eq!(queue.take().map(|f| f.data.len()), Some(2));
    assert!(queue.take().is_none());
    // A time before the start counts as the start.
    let frame = mf::frame_from_output_sample(vec![0, 0, 1, 0x41], true, -3, 70, 80);
    assert!(frame.keyframe);
    assert_eq!(frame.captured_at, 70);
}

/// The units of an Annex-B stream with start codes of four bytes or three.
fn units(annexb: &[u8]) -> Vec<Vec<u8>> {
    let mut units = Vec::new();
    let mut i = 0;
    while i + 3 <= annexb.len() {
        if annexb[i..i + 3] == [0, 0, 1] {
            units.push(Vec::new());
            i += 3;
        } else if annexb[i..].starts_with(&[0, 0, 0, 1]) {
            units.push(Vec::new());
            i += 4;
        } else {
            if let Some(unit) = units.last_mut() {
                unit.push(annexb[i]);
            }
            i += 1;
        }
    }
    if let Some(unit) = units.last_mut() {
        unit.extend_from_slice(&annexb[i..]);
    }
    units
}

/// The sample that VideoToolbox would hand over for these units.
fn sample_of(units: &[Vec<u8>], keyframe: bool) -> vt::Sample {
    let set = |kind: u8| {
        let bytes = units.iter().find(|u| u[0] % 32 == kind);
        vt::ParameterSet {
            bytes: bytes.cloned().unwrap_or_default(),
            nal_length_size: 4,
        }
    };
    let mut payload = Vec::new();
    for unit in units.iter().filter(|u| !matches!(u[0] % 32, 7 | 8)) {
        payload.extend_from_slice(&(unit.len() as u32).to_be_bytes());
        payload.extend_from_slice(unit);
    }
    vt::Sample {
        not_sync: if keyframe { None } else { Some(true) },
        sps: Ok(set(7)),
        pps: Ok(set(8)),
        payload: Ok(payload),
    }
}

#[test]
fn videotoolbox_thirty_frames_have_deltas_and_honour_force_keyframe() {
    let mut outputs = Vec::new();
    for (i, frame) in encode_frames(test_cfg(), 30, 19) {
        let sample = sample_of(&units(&frame.data), frame.keyframe);
        let reported = vt::compression_output(0, false, Some(&sample)).expect("an output");
        let pending = [reported];
        let encoded = vt::first_output(&pending, frame.captured_at, frame.ts)
            .expect("encode")
            .expect("a frame");
        assert_eq!(units(&encoded.data), units(&frame.data));
        outputs.push((i, encoded));
    }

    assert!(!outputs.is_empty());
    assert!(outputs[0].1.keyframe);
    let has_delta = outputs
        .iter()
        .skip(1)
        .take(10)
        .any(|(_, f)| nal_types(&f.data).contains(&1));
    assert!(has_delta);
    let forced = outputs
        .iter()
        .find(|(idx, _)| *idx == 19)
        .expect("frame 20 should produce output");
    assert!(nal_types(&forced.1.data).contains(&5));
    assert!(forced.1.keyframe);
    let total_size: usize = outputs.iter().map(|(_, f)| f.data.len()).sum();
    assert!(total_size < 200 * 1024);
}

#[test]
fn videotoolbox_samples_fail_for_a_reason() {
    let good = || sample_of(&[vec![0x67, 1], vec![0x68, 2], vec![0x65, 3]], true);
    let out = vt::encode_sample_buffer(&good()).expect("an output");
    assert_eq!(
        out.data,
        [0, 0, 0, 1, 0x67, 1, 0, 0, 0, 1, 0x68, 2, 0, 0, 0, 1, 0x65, 3]
    );
    let mut sample = good();
    sample.sps = Err(-5);
    assert_eq!(vt::encode_sample_buffer(&sample), Err(-5));
    let mut sample = good();
    sample.pps = Err(-6);
    assert_eq!(vt::encode_sample_buffer(&sample), Err(-6));
    // A delta frame needs no parameter sets.
    sample.not_sync = Some(true);
    assert!(vt::encode_sample_buffer(&sample).is_ok());
    let mut sample = good();
    sample.payload = Err(-7);
    assert_eq!(vt::encode_sample_buffer(&sample), Err(-7));
    let mut sample = good();
    sample.payload = Ok(vec![0, 0, 0, 9, 1]);
    assert_eq!(vt::encode_sample_buffer(&sample), Err(vt::MALFORMED));

    assert_eq!(vt::compression_output(-8, false, None), Some(Err(-8)));
    assert_eq!(vt::compression_output(0, true, Some(&good())), None);
    assert_eq!(vt::compression_output(0, false, None), None);
    assert!(matches!(vt::first_output(&[], 0, 0), Ok(None)));
    assert_eq!(
        vt::first_output(&[Err(-12902)], 0, 0).unwrap_err().message(),
        "encoder backend error: VideoToolbox encode callback reported OSStatus -12902"
    );
}

#[test]
fn lengths_become_start_codes() {
    let mut out = vec![9];
    assert_eq!(vt::avcc_to_annexb(2, &[0, 1, 7, 0, 2, 8, 9, 0], &mut out), Ok(()));
    assert_eq!(out, [9, 0, 0, 0, 1, 7, 0, 0, 0, 1, 8, 9]);
    assert_eq!(vt::avcc_to_annexb(0, &[1], &mut out), Err(vt::MALFORMED));
    assert_eq!(
        vt::avcc_to_annexb(4, &[0xff, 0xff, 0xff, 0xff, 1], &mut out),
        Err(vt::MALFORMED)
    );
    assert_eq!(vt::avcc_to_annexb(4, &[0, 0, 0], &mut Vec::new()), Ok(()));
}

#[test]
fn videotoolbox_sessions_follow_the_configuration() {
    let mut cfg = test_cfg();
    let names: Vec<&str> = vt::configure_session(&cfg).iter().map(|p| p.name).collect();
    assert_eq!(
        names,
        vec![
            "RealTime",
            "ProfileLevel",
            "AverageBitRate",
            "DataRateLimits",
            "ExpectedFrameRate",
            "AllowFrameReordering",
            "MaxKeyFrameInterval",
            "MaxFrameDelayCount"
        ]
    );
    cfg.max_qp = Some(30);
    let list = vt::configure_session(&cfg);
    assert_eq!(list[8].name, "MaxAllowedFrameQP");
    assert_eq!(list[8].value, vt::PropertyValue::Number(30));
    assert_eq!(
        list[3].value,
        vt::PropertyValue::Limit {
            bytes: 250_000,
            seconds: 1
        }
    );
    // What is not required may be refused.
    assert!(vt::set_property(&list[8], -12900).is_ok());
    assert!(vt::set_property(&list[2], 0).is_ok());
    assert_eq!(
        vt::set_property(&list[2], -12900).unwrap_err().message(),
        "encoder backend error: VideoToolbox VTSessionSetProperty(AverageBitRate): OSStatus -12900"
    );
    assert!(vt::check_status("X", 0).is_ok());
    assert_eq!(
        vt::check_status("VTCompressionSessionCreate", -1).unwrap_err().message(),
        "encoder backend error: VideoToolbox VTCompressionSessionCreate: OSStatus -1"
    );
    assert_eq!(vt::presentation_us(1000, 5_000_999), 4_999);

    let raw = &synthetic_frames(1)[0];
    assert!(check_size("VideoToolbox", &test_cfg(), raw).is_ok());
    let encoder = vt::VideoToolboxEncoder::new(test_cfg(), 1000);
    let submission = encoder.submission(raw, true, 5_001_000).expect("the right size");
    assert_eq!(submission.planes.len(), 2);
    assert_eq!(submission.presentation_us, 5000);
    assert!(submission.force_keyframe);
    let rate = encoder.set_rate(RateTarget {
        bitrate_kbps: 300,
        fps: 15,
    });
    assert_eq!(rate[0].value, vt::PropertyValue::Number(300_000));
    assert_eq!(rate[2].value, vt::PropertyValue::Number(15));
    cfg.width = 32;
    assert!(vt::VideoToolboxEncoder::new(cfg, 0).submission(raw, false, 0).is_err());
    assert_eq!(
        check_size("VideoToolbox", &cfg, raw).unwrap_err().message(),
        "encoder backend error: VideoToolbox encoder configured for 32x64, got a 64x64 frame"
    );
}

#[test]
fn planes_are_copied_row_by_row() {
    let frame = RawFrame::Nv12 {
        width: 3,
        height: 3,
        y: (0..12).collect(),
        y_stride: 4,
        uv: (20..28).collect(),
        uv_stride: 4,
        ts: 0,
    };
    let planes = vt::frame_planes(&frame);
    assert_eq!((planes[0].rows, planes[0].row_bytes), (3, 3));
    assert_eq!((planes[1].rows, planes[1].row_bytes), (2, 4));
    let RawFrame::Nv12 { y, uv, .. } = &frame else {
        panic!("NV12");
    };
    let copied = vt::copy_plane(y, planes[0], vec![99; 15], 5);
    assert_eq!(copied, [0, 1, 2, 99, 99, 4, 5, 6, 99, 99, 8, 9, 10, 99, 99]);
    assert_eq!(vt::copy_plane(uv, planes[1], vec![0; 8], 4), *uv);
    let (dense, chroma) = mf::frame_to_nv12(&frame);
    assert_eq!(dense, [0, 1, 2, 4, 5, 6, 8, 9, 10]);
    assert_eq!(chroma, *uv);
}

fn start_pipeline(fps: u32) -> Pipeline {
    Pipeline::start(RateTarget {
        bitrate_kbps: 2000,
        fps,
    })
}

/// Runs a source of `source_fps` for `seconds` through a pipeline with a
/// software encoder, draining what comes out.
fn run_pipeline(
    pipeline: &mut Pipeline,
    source_fps: u64,
    from: u64,
    seconds: u64,
    encoder: &mut OpenH264Encoder,
    source: &mut SyntheticSource,
) -> Vec<EncodedFrame> {
    let mut out = Vec::new();
    for i in from * source_fps..(from + seconds) * source_fps {
        let now = i * 1_000_000_000 / source_fps;
        pipeline.captured(source.next_frame(now).expect("frame"));
        let frame = pipeline.take_frame().expect("the frame just captured");
        let plan = pipeline.plan_frame(frame.ts(), FRAME_CHANNEL_CAPACITY);
        if let Some(rate) = plan.rate {
            let _ = encoder.set_rate(rate);
        }
        let Some(force) = plan.encode else {
            continue;
        };
        match encoder.encode(&frame, force, now).expect("encode") {
            Some(encoded) => {
                assert!(pipeline.finish_frame(EncodeOutcome::Encoded {
                    keyframe: encoded.keyframe,
                    delivered: true,
                }));
                out.push(encoded);
            }
            None => {
                pipeline.finish_frame(EncodeOutcome::Nothing);
            }
        }
    }
    out
}

#[test]
fn synthetic_pipeline_produces_frames_and_honours_keyframe_requests() {
    let mut pipeline = start_pipeline(30);
    let mut encoder = OpenH264Encoder::new(test_cfg(), 0).expect("encoder init");
    let mut source = SyntheticSource::new(64, 64, 30, 0);
    let received = run_pipeline(&mut pipeline, 30, 0, 1, &mut encoder, &mut source);
    assert!(
        received.len() >= 20,
        "expected >= 20 frames in ~1s, got {}",
        received.len()
    );
    assert!(
        received[0].keyframe,
        "first encoded frame must be a keyframe"
    );

    pipeline.request_keyframe();
    let more = run_pipeline(&mut pipeline, 30, 1, 1, &mut encoder, &mut source);
    assert!(
        more.iter().take(9).any(|f| f.keyframe),
        "expected a keyframe shortly after request_keyframe()"
    );

    pipeline.stop();
    assert!(pipeline.stopped);
}

#[test]
fn pacing_caps_encoded_fps() {
    let mut cfg = test_cfg();
    cfg.fps = 10;
    let mut pipeline = start_pipeline(10);
    let mut encoder = OpenH264Encoder::new(cfg, 0).expect("encoder init");
    let mut source = SyntheticSource::new(64, 64, 60, 0);
    let received = run_pipeline(&mut pipeline, 60, 0, 2, &mut encoder, &mut source);
    let paced_out = pipeline.stats.paced_out;

    assert!(
        (15..=26).contains(&received.len()),
        "expected roughly 10fps over 2s (15..=26 frames), got {}",
        received.len()
    );
    assert!(
        paced_out > 40,
        "expected the 60fps source to be paced down heavily, got paced_out={paced_out}"
    );
}

#[test]
fn rate_control_applies_pending_target() {
    let mut pipeline = start_pipeline(30);
    let mut encoder = OpenH264Encoder::new(test_cfg(), 0).expect("encoder init");
    let mut source = SyntheticSource::new(64, 64, 30, 0);
    let target = RateTarget {
        bitrate_kbps: 500,
        fps: 30,
    };
    pipeline.rate_control.set(target);
    let received = run_pipeline(&mut pipeline, 30, 0, 1, &mut encoder, &mut source);
    assert!(
        received.len() >= 10,
        "expected pipeline to keep producing frames after set_rate, got {}",
        received.len()
    );
    // The staged target was handed over, once.
    assert_eq!(pipeline.rate_control.take(), None);
    pipeline.rate_control.set(target);
    assert_eq!(pipeline.plan_frame(9_000 * MS, 4).rate, Some(target));
}

#[test]
fn a_full_channel_encodes_nothing_and_a_lost_frame_forces_a_keyframe() {
    let mut pipeline = start_pipeline(30);
    assert_eq!(pipeline.plan_frame(0, 0).encode, None);
    // Nothing was encoded, so nothing was lost.
    assert_eq!((pipeline.stats.dropped, pipeline.stats.paced_out), (0, 0));
    assert_eq!(pipeline.plan_frame(40 * MS, 4).encode, Some(false));
    assert!(pipeline.finish_frame(EncodeOutcome::Encoded {
        keyframe: true,
        delivered: false,
    }));
    assert_eq!(pipeline.stats.dropped, 1);
    assert_eq!(pipeline.plan_frame(80 * MS, 4).encode, Some(true));
    pipeline.finish_frame(EncodeOutcome::Encoded {
        keyframe: true,
        delivered: true,
    });
    assert_eq!(pipeline.plan_frame(120 * MS, 4).encode, Some(false));
    assert!(!pipeline.finish_frame(EncodeOutcome::Failed));
    assert_eq!((pipeline.stats.encoded, pipeline.stats.keyframes), (2, 2));
}

#[test]
fn a_frame_that_is_not_taken_in_time_is_replaced() {
    let mut pipeline = start_pipeline(30);
    let mut frames = synthetic_frames(2).into_iter();
    pipeline.captured(frames.next().unwrap());
    pipeline.captured(frames.next().unwrap());
    assert_eq!((pipeline.stats.captured, pipeline.stats.overwritten), (2, 1));
    assert_eq!(pipeline.take_frame().map(|f| f.ts()), Some(33 * MS));
    assert!(pipeline.take_frame().is_none());
}

#[test]
fn the_pacer_passes_a_slow_source() {
    let mut pacer = Pacer::new();
    for i in 0..100 {
        assert!(pacer.pass(i * 100 * MS, 10));
    }
    // Three tokens, then one for each tenth of a second.
    let mut pacer = Pacer::new();
    let passed = (0..10).filter(|_| pacer.pass(0, 10)).count();
    assert_eq!(passed, 3);
    assert!(!pacer.pass(99 * MS, 10));
    assert!(pacer.pass(100 * MS, 10));
}

fn nv12_of(width: u32, height: u32, y: usize, y_stride: usize, uv: usize) -> RawFrame {
    RawFrame::Nv12 {
        width,
        height,
        y: vec![0; y],
        y_stride,
        uv: vec![128; uv],
        uv_stride: y_stride,
        ts: 0,
    }
}

fn bgra_of(width: u32, height: u32, data: usize, stride: usize) -> RawFrame {
    RawFrame::Bgra {
        width,
        height,
        data: vec![0; data],
        stride,
        ts: 0,
    }
}

#[test]
fn frames_that_are_too_short_are_told_apart() {
    assert!(can_convert(&nv12_of(4, 2, 8, 4, 4)));
    assert!(!can_convert(&nv12_of(4, 2, 7, 4, 4)));
    assert!(!can_convert(&nv12_of(4, 2, 8, 4, 3)));
    // The last row needs no padding.
    assert!(can_convert(&nv12_of(4, 2, 12, 8, 4)));
    assert!(!can_convert(&nv12_of(4, 2, 11, 8, 4)));
    assert!(can_convert(&bgra_of(2, 2, 16, 8)));
    // A dense image has to have its length exactly.
    assert!(!can_convert(&bgra_of(2, 2, 17, 8)));
    assert!(can_convert(&bgra_of(2, 2, 18, 10)));
    assert!(!can_convert(&bgra_of(2, 2, 17, 10)));
    // What is cropped is not looked at.
    assert!(can_convert(&nv12_of(5, 3, 9, 5, 4)));
    assert!(!mf::can_make_nv12(&nv12_of(5, 3, 9, 5, 4)));
    assert!(mf::can_make_nv12(&nv12_of(4, 2, 8, 4, 4)));
    assert!(!mf::can_make_nv12(&nv12_of(4, 2, 8, 4, 3)));
    assert!(mf::can_make_nv12(&bgra_of(2, 2, 16, 8)));
    assert!(!mf::can_make_nv12(&bgra_of(2, 2, 15, 8)));
}

#[test]
fn planes_that_do_not_fit_are_told_apart() {
    let shape = vt::PlaneRows {
        rows: 2,
        row_bytes: 3,
        src_stride: 4,
    };
    assert!(vt::can_copy_plane(&[0; 7], shape, 10, 5));
    assert!(!vt::can_copy_plane(&[0; 6], shape, 10, 5));
    assert!(!vt::can_copy_plane(&[0; 7], shape, 9, 5));
    assert!(!vt::can_copy_plane(&[0; 7], shape, 4, 2));
    assert!(!vt::can_copy_plane(&[0; 7], shape, 0, 0));
}
