//! What a run is made of, how it reconnects, and what the command line prints.

use rcdesk_host::app::{
    build_host_context, build_screen_source, resolve_display, resolve_host_name, AgentEvent,
    AgentLoop, AgentWork, Backoff, CaptureBackend, EncoderBackend, InjectorChoice, ReconnectPolicy,
    ScreenSource, ServeOptions,
};
use rcdesk_host::bench::{bench_config, percentile, Bench, BenchStep};
use rcdesk_host::capture::{CaptureError, DisplayInfo};
use rcdesk_host::cli::{
    autostart_line, confirmed_password, list_displays_lines, password_cleared_line, password_line,
    password_set_lines, password_status_line, PinPrinter,
};
use rcdesk_host::encode::{EncodedFrame, EncoderKind};
use rcdesk_host::proto::{AgentStatus, HostOs};

const MS: u64 = 1_000_000;

#[test]
fn backoff_doubles_and_caps_at_max() {
    let policy = ReconnectPolicy {
        initial: 50 * MS,
        max: 200 * MS,
    };
    let mut backoff = Backoff::new(policy);
    assert_eq!(backoff.current(), 50 * MS);

    backoff.advance();
    assert_eq!(backoff.current(), 100 * MS);

    backoff.advance();
    assert_eq!(backoff.current(), 200 * MS);

    // Already at the cap: stays put rather than overshooting.
    backoff.advance();
    assert_eq!(backoff.current(), 200 * MS);
}

#[test]
fn backoff_resets_to_initial_after_reset() {
    let policy = ReconnectPolicy {
        initial: 50 * MS,
        max: 200 * MS,
    };
    let mut backoff = Backoff::new(policy);
    backoff.advance();
    backoff.advance();
    assert_eq!(backoff.current(), 200 * MS);

    backoff.reset();
    assert_eq!(backoff.current(), 50 * MS);
}

#[test]
fn the_default_delay_goes_from_one_second_to_thirty() {
    let policy = ReconnectPolicy::default();
    assert_eq!((policy.initial, policy.max), (1000 * MS, 30_000 * MS));
    let mut backoff = Backoff::new(policy);
    let mut seconds = Vec::new();
    for _ in 0..7 {
        seconds.push(backoff.current() / (1000 * MS));
        backoff.advance();
    }
    assert_eq!(seconds, vec![1, 2, 4, 8, 16, 30, 30]);
}

#[test]
fn an_agent_reconnects_after_it_lost_its_connection() {
    let (mut agent, first) = AgentLoop::start(ReconnectPolicy::default());
    assert_eq!(first.status, Some(AgentStatus::Connecting));
    assert_eq!(first.work, AgentWork::Connect);

    let step = agent.step(AgentEvent::Connected {
        pin: "111111".to_string(),
    });
    assert_eq!(
        step.status,
        Some(AgentStatus::Registered {
            pin: "111111".to_string()
        })
    );
    assert_eq!(step.work, AgentWork::Serve);

    let step = agent.step(AgentEvent::Lost {
        error: "reset".to_string(),
    });
    assert_eq!(
        step.status,
        Some(AgentStatus::Reconnecting {
            error: "reset".to_string(),
            retry_in: 1000 * MS,
        })
    );
    assert_eq!(step.work, AgentWork::Sleep(1000 * MS));

    let step = agent.step(AgentEvent::Slept);
    assert_eq!(step.status, Some(AgentStatus::Connecting));
    let step = agent.step(AgentEvent::ConnectFailed {
        error: "refused".to_string(),
    });
    assert_eq!(step.work, AgentWork::Sleep(2000 * MS));
    agent.step(AgentEvent::Slept);
    agent.step(AgentEvent::Connected {
        pin: "222222".to_string(),
    });
    // A registration starts the delays over, and an end is no failure to tell of.
    let step = agent.step(AgentEvent::Ended);
    assert_eq!(step.status, None);
    assert_eq!(step.work, AgentWork::Sleep(1000 * MS));
}

fn display(id: u32, primary: bool) -> DisplayInfo {
    DisplayInfo {
        id,
        title: format!("Display {id}"),
        x: -1920,
        y: 0,
        width: 1920,
        height: 1080,
        primary,
    }
}

#[test]
fn the_display_asked_for_is_taken_without_a_look() {
    let r = resolve_display(Some(9), Err(CaptureError::PermissionDenied));
    assert!(matches!(r, Ok(9)));
    let r = resolve_display(None, Ok(vec![display(1, false), display(2, true)]));
    assert!(matches!(r, Ok(2)));
    let r = resolve_display(None, Ok(vec![display(1, false), display(2, false)]));
    assert!(matches!(r, Ok(1)));
    let err = resolve_display(None, Ok(vec![])).unwrap_err();
    assert_eq!(err.message(), "no capturable display found");
    let err = resolve_display(None, Err(CaptureError::PermissionDenied)).unwrap_err();
    assert_eq!(err.message(), "screen recording permission not granted");
}

#[test]
fn the_capture_backend_follows_the_platform() {
    let build = |os, backend, wgc| {
        build_screen_source(os, None, 30, backend, Ok(vec![display(4, true)]), wgc)
    };
    let native = ScreenSource::Native {
        display: 4,
        fps: 30,
    };
    let gdi = ScreenSource::Gdi {
        display: 4,
        fps: 30,
    };
    for (backend, wgc, expected) in [
        (CaptureBackend::Auto, true, native),
        (CaptureBackend::Auto, false, gdi),
        (CaptureBackend::Wgc, false, native),
        (CaptureBackend::Gdi, true, gdi),
    ] {
        assert_eq!(build(HostOs::Windows, backend, wgc).unwrap(), expected);
    }
    assert_eq!(build(HostOs::Macos, CaptureBackend::Auto, false).unwrap(), native);
    let err = build(HostOs::Macos, CaptureBackend::Gdi, false).unwrap_err();
    assert_eq!(
        err.message(),
        "--capture gdi is a Windows-only fallback, not supported on macOS"
    );
    let err = build(HostOs::Other, CaptureBackend::Auto, false).unwrap_err();
    assert_eq!(
        err.message(),
        "screen capture is not supported on this platform"
    );
}

#[test]
fn options_become_a_context() {
    let mut opts = ServeOptions::agent("wss://example/ws".to_string(), None);
    opts.stun = vec!["stun:a".to_string(), "stun:b".to_string()];
    opts.max_qp = Some(33);
    opts.encoder = EncoderBackend::Videotoolbox;
    let ctx = build_host_context(HostOs::Macos, &opts);
    assert_eq!(ctx.session.ice_servers.len(), 2);
    assert_eq!(ctx.session.ice_servers[1].urls, vec!["stun:b".to_string()]);
    assert_eq!(ctx.session.ice_servers[1].username, None);
    assert_eq!(ctx.session.udp_addrs, vec!["0.0.0.0:0".to_string()]);
    assert_eq!((ctx.session.fps, ctx.bitrate_kbps, ctx.max_qp), (30, 6000, Some(33)));
    assert_eq!(ctx.encoder, Some(EncoderKind::VideoToolbox));
    assert!(ctx.adapt && ctx.cursor && ctx.clipboard && !ctx.synthetic);
    assert_eq!(ctx.injector, InjectorChoice::Real);

    opts.no_input = true;
    opts.no_clipboard = true;
    opts.no_adapt = true;
    let ctx = build_host_context(HostOs::Windows, &opts);
    assert_eq!(ctx.injector, InjectorChoice::Disabled);
    assert!(!ctx.adapt && !ctx.clipboard);

    opts.no_input = false;
    opts.no_clipboard = false;
    let ctx = build_host_context(HostOs::Other, &opts);
    assert_eq!(ctx.injector, InjectorChoice::Noop);
    assert!(!ctx.cursor && !ctx.clipboard);
}

#[test]
fn encoder_names_become_kinds() {
    assert_eq!(EncoderBackend::Auto.kind(), None);
    assert_eq!(EncoderBackend::Openh264.kind(), Some(EncoderKind::OpenH264));
    assert_eq!(
        EncoderBackend::Mediafoundation.kind(),
        Some(EncoderKind::MediaFoundation)
    );
}

#[test]
fn host_names_fall_back_in_order() {
    let some = |s: &str| Some(s.to_string());
    assert_eq!(resolve_host_name(Some("a"), some("b"), some("c")), "a");
    assert_eq!(resolve_host_name(None, some("b"), some("c")), "b");
    assert_eq!(resolve_host_name(None, None, some("c")), "c");
    assert_eq!(resolve_host_name(None, None, some("")), "rcdesk-host");
    assert_eq!(resolve_host_name(None, None, None), "rcdesk-host");
}

#[test]
fn displays_are_listed_in_columns() {
    assert_eq!(
        list_displays_lines(&[display(7, true), display(8, false)]),
        vec![
            "7\tDisplay 7\t1920x1080@-1920,0\tprimary",
            "8\tDisplay 8\t1920x1080@-1920,0\t-"
        ]
    );
    assert_eq!(list_displays_lines(&[]), vec!["no capturable displays found"]);
}

#[test]
fn passwords_are_read_and_reported() {
    assert_eq!(
        confirmed_password("abc".to_string(), "abc"),
        Ok("abc".to_string())
    );
    assert_eq!(
        confirmed_password("abc".to_string(), "abd"),
        Err("Пароли не совпадают")
    );
    assert_eq!(password_line("secret\r\n"), "secret");
    assert_eq!(password_line("se\ncret \n\n"), "se\ncret ");
    assert_eq!(password_line("\n"), "");
    assert_eq!(password_set_lines("/d/access.json").0, "Пароль задан: /d/access.json");
    assert_eq!(password_cleared_line(true), "Пароль снят");
    assert_eq!(password_cleared_line(false), "Пароль не был задан");
    assert_eq!(password_status_line(true, "/p"), "Пароль: задан (/p)");
    assert_eq!(password_status_line(false, "/p"), "Пароль: не задан");
    assert_eq!(autostart_line(true, "/a"), "autostart: on (/a)");
    assert_eq!(autostart_line(false, "/a"), "autostart: off");
}

#[test]
fn a_pin_is_printed_once() {
    let registered = |pin: &str| AgentStatus::Registered {
        pin: pin.to_string(),
    };
    let mut printer = PinPrinter::new();
    assert_eq!(printer.observe(&AgentStatus::Connecting), None);
    assert_eq!(
        printer.observe(&registered("111111")).as_deref(),
        Some("PIN: 111111")
    );
    let session = AgentStatus::InSession {
        pin: "111111".to_string(),
    };
    assert_eq!(printer.observe(&session), None);
    assert_eq!(printer.observe(&registered("111111")), None);
    assert_eq!(
        printer.observe(&registered("222222")).as_deref(),
        Some("PIN: 222222")
    );
}

#[test]
fn percentiles_are_taken_of_the_sorted_list() {
    assert_eq!(percentile(&[], 95), 0);
    assert_eq!(percentile(&[7], 95), 7);
    assert_eq!(percentile(&[5, 1, 4, 2, 3], 50), 3);
    assert_eq!(percentile(&[5, 1, 4, 2, 3], 0), 1);
    assert_eq!(percentile(&[5, 1, 4, 2, 3], 200), 5);
    // Place 0.95 * 10 = 9.5 rounds up.
    let numbers: Vec<usize> = (0..11).rev().collect();
    assert_eq!(percentile(&numbers, 95), 10);
    // The same place by way of floating point, for many lengths.
    for n in 1..2000usize {
        let numbers: Vec<usize> = (0..n).rev().collect();
        let place = ((95.0 / 100.0) * (n as f64 - 1.0)).round() as usize;
        assert_eq!(percentile(&numbers, 95), place.min(n - 1));
    }
}

#[test]
fn a_bench_counts_every_frame_once() {
    let mut bench = Bench::new(2);
    assert_eq!(bench.step(0), BenchStep::Receive);
    assert_eq!(bench.step(1000 * MS), BenchStep::RequestKeyframe);
    assert_eq!(bench.step(1001 * MS), BenchStep::Receive);
    assert_eq!(bench.step(2000 * MS), BenchStep::Finish);

    let frame = |len: usize, keyframe: bool| EncodedFrame {
        data: vec![0; len],
        keyframe,
        ts: 5_000_000,
        captured_at: 2_000_000,
    };
    bench.record(&frame(100, true));
    bench.record(&frame(10, false));
    bench.record(&frame(20, false));
    let report = bench.report();
    assert_eq!((report.frames, report.total_bytes), (3, 130));
    assert_eq!((report.keyframes, report.keyframe_bytes), (1, 100));
    assert_eq!((report.deltas, report.delta_bytes), (2, 30));
    assert_eq!((report.latency_us, report.p95_latency_us), (9000, 3000));
    assert_eq!(report.p95_bytes, 100);

    let cfg = bench_config(64, 32, 0, 2000, None);
    assert_eq!(cfg.keyframe_interval_frames, 2);
    assert_eq!(bench_config(64, 32, 30, 2000, None).keyframe_interval_frames, 60);
}
