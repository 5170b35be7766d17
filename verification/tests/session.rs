//! What a session keeps in step with the viewer: clipboard, cursor, input and
//! the binding of the connection to the login.

use std::cell::RefCell;
use std::collections::VecDeque;
use std::rc::Rc;

use rcdesk_host::clipboard::{ClipboardBackend, ClipboardSync, MAX_CLIPBOARD_BYTES};
use rcdesk_host::cursor::macos::{
    pick_representation, read_cursor, BitmapRep, CursorFailure, MacCursorSource, SystemCursor,
};
use rcdesk_host::cursor::windows as windows_cursor;
use rcdesk_host::cursor::windows::{
    color_cursor_image, color_size, is_hidden, mono_cursor_image, mono_size, mono_stride,
    Bitmap, BitmapFailure, Bits, WinCursorSource,
};
use rcdesk_host::cursor::{
    CursorImage, CursorSource, CursorState, CursorWatch, FailureLog, NoopCursorSource, LOG_INTERVAL,
};
use rcdesk_host::dtls_bind::{auth_tag, fingerprint_from_sdp, verify_auth_tag};
use rcdesk_host::input::enigo::{EnigoInjector, Request, ScrollAxis};
use rcdesk_host::input::keymap::{scan_parts, to_keycode};
use rcdesk_host::input::{
    round_lines, scale_and_clamp, to_pixel, CaptureRect, Injector, InputRouter, NoopInjector,
};
use rcdesk_host::platform::windows::keyboard::KeyEvent;
use rcdesk_host::proto::{HostOs, InputMessage, PointerButton, COORD_ONE};

/// A clipboard in memory that counts its changes as a system's would.
#[derive(Clone, Default)]
struct FakeClipboardBackend {
    inner: Rc<RefCell<FakeClipboard>>,
}

#[derive(Default)]
struct FakeClipboard {
    count: u64,
    text: Option<String>,
    set_calls: Vec<String>,
    refuse: bool,
}

impl FakeClipboardBackend {
    fn new() -> Self {
        Self::default()
    }

    fn set_remote_change(&self, text: Option<&str>) {
        let mut inner = self.inner.borrow_mut();
        inner.count += 1;
        inner.text = text.map(str::to_string);
    }

    fn set_calls(&self) -> Vec<String> {
        self.inner.borrow().set_calls.clone()
    }
}

impl ClipboardBackend for FakeClipboardBackend {
    fn change_count(&mut self) -> u64 {
        self.inner.borrow().count
    }

    fn get_text(&mut self) -> Option<String> {
        self.inner.borrow().text.clone()
    }

    fn set_text(&mut self, text: &str) -> Result<(), String> {
        let mut inner = self.inner.borrow_mut();
        if inner.refuse {
            return Err("refused".to_string());
        }
        inner.count += 1;
        inner.text = Some(text.to_string());
        inner.set_calls.push(text.to_string());
        Ok(())
    }
}

fn sync_with(backend: FakeClipboardBackend) -> ClipboardSync<FakeClipboardBackend> {
    ClipboardSync::new(backend)
}

#[test]
fn starting_clipboard_content_is_never_sent() {
    let backend = FakeClipboardBackend::new();
    backend.set_remote_change(Some("already there before the session started"));
    // Built after the change, like a session that starts with something on the
    // clipboard.
    let mut sync = sync_with(backend);

    assert_eq!(sync.poll(), None);
}

#[test]
fn unchanged_counter_returns_none() {
    let backend = FakeClipboardBackend::new();
    let mut sync = sync_with(backend);

    assert_eq!(sync.poll(), None);
    assert_eq!(sync.poll(), None);
}

#[test]
fn a_change_is_reported_exactly_once() {
    let backend = FakeClipboardBackend::new();
    let mut sync = sync_with(backend.clone());
    backend.set_remote_change(Some("hello"));

    assert_eq!(sync.poll(), Some("hello".to_string()));
    assert_eq!(sync.poll(), None);
}

#[test]
fn identical_text_is_not_reported_again() {
    let backend = FakeClipboardBackend::new();
    let mut sync = sync_with(backend.clone());
    backend.set_remote_change(Some("same"));
    assert_eq!(sync.poll(), Some("same".to_string()));

    // The counter changes again (the same selection is copied once more), but
    // the text was sent already.
    backend.set_remote_change(Some("same"));
    assert_eq!(sync.poll(), None);
}

#[test]
fn oversized_text_is_skipped_on_poll() {
    let backend = FakeClipboardBackend::new();
    let mut sync = sync_with(backend.clone());
    let huge = "x".repeat(MAX_CLIPBOARD_BYTES + 1);
    backend.set_remote_change(Some(&huge));

    assert_eq!(sync.poll(), None);
}

#[test]
fn text_right_at_the_limit_is_sent() {
    let backend = FakeClipboardBackend::new();
    let mut sync = sync_with(backend.clone());
    // Two bytes for each character: bytes are what is limited.
    let large = "я".repeat(MAX_CLIPBOARD_BYTES / 2);
    backend.set_remote_change(Some(&large));
    assert_eq!(sync.poll(), Some(large.clone()));
    backend.set_remote_change(Some(&format!("{large}я")));
    assert_eq!(sync.poll(), None);
}

#[test]
fn non_text_clipboard_content_returns_none() {
    let backend = FakeClipboardBackend::new();
    let mut sync = sync_with(backend.clone());
    backend.set_remote_change(None);

    assert_eq!(sync.poll(), None);
}

#[test]
fn apply_remote_writes_through_to_the_backend() {
    let backend = FakeClipboardBackend::new();
    let calls_handle = backend.clone();
    let mut sync = sync_with(backend);

    let _ = sync.apply_remote("from the client");

    assert_eq!(
        calls_handle.set_calls(),
        vec!["from the client".to_string()]
    );
}

#[test]
fn apply_remote_does_not_echo_back_through_poll() {
    let backend = FakeClipboardBackend::new();
    let mut sync = sync_with(backend);

    let _ = sync.apply_remote("from the client");

    // The write moved the counter, as on a real clipboard; it must not look like
    // a change from outside.
    assert_eq!(sync.poll(), None);
}

#[test]
fn apply_remote_skips_identical_text() {
    let backend = FakeClipboardBackend::new();
    let calls_handle = backend.clone();
    let mut sync = sync_with(backend);

    let _ = sync.apply_remote("same text");
    let _ = sync.apply_remote("same text");

    assert_eq!(calls_handle.set_calls(), vec!["same text".to_string()]);
}

#[test]
fn apply_remote_skips_oversized_text() {
    let backend = FakeClipboardBackend::new();
    let calls_handle = backend.clone();
    let mut sync = sync_with(backend);
    let huge = "x".repeat(MAX_CLIPBOARD_BYTES + 1);

    let _ = sync.apply_remote(&huge);

    assert_eq!(calls_handle.set_calls(), Vec::<String>::new());
}

#[test]
fn a_refused_write_is_tried_again() {
    let backend = FakeClipboardBackend::new();
    backend.inner.borrow_mut().refuse = true;
    let handle = backend.clone();
    let mut sync = sync_with(backend);
    let _ = sync.apply_remote("text");
    handle.inner.borrow_mut().refuse = false;
    let _ = sync.apply_remote("text");
    assert_eq!(handle.set_calls(), vec!["text".to_string()]);
}

fn image(width: u32, height: u32) -> CursorImage {
    CursorImage {
        width,
        height,
        hotspot_x: COORD_ONE as i128,
        hotspot_y: 2 * COORD_ONE as i128,
        scale: COORD_ONE,
        rgba: vec![0u8; (width * height * 4) as usize],
    }
}

/// A source that replays readings, and reads nothing once they run out.
struct FakeCursorSource {
    states: VecDeque<Option<CursorState>>,
}

impl CursorSource for FakeCursorSource {
    fn current(&mut self) -> Option<CursorState> {
        self.states.pop_front().flatten()
    }
}

fn watched(states: Vec<Option<CursorState>>) -> Vec<CursorState> {
    let polls = states.len() + 3;
    let mut source = FakeCursorSource {
        states: states.into(),
    };
    let mut watch = CursorWatch::new();
    (0..polls)
        .filter_map(|_| watch.observe(source.current()))
        .collect()
}

#[test]
fn identical_states_are_sent_only_once() {
    let shape = CursorState::Shape(image(16, 16));
    let states = vec![Some(shape.clone()); 5];
    assert_eq!(watched(states), vec![shape]);
}

#[test]
fn hidden_is_delivered_as_a_change() {
    let shape = CursorState::Shape(image(16, 16));
    let states = vec![Some(shape.clone()), Some(CursorState::Hidden)];
    assert_eq!(watched(states), vec![shape, CursorState::Hidden]);
}

#[test]
fn oversized_images_are_skipped() {
    let oversized = CursorState::Shape(image(256, 40));
    assert_eq!(watched(vec![Some(oversized)]), vec![]);
    let largest = CursorState::Shape(image(128, 128));
    assert_eq!(watched(vec![Some(largest.clone())]), vec![largest]);
}

#[test]
fn no_read_keeps_previous_state_without_resending() {
    let shape = CursorState::Shape(image(16, 16));
    let states = vec![Some(shape.clone()), None, None, Some(shape.clone())];
    assert_eq!(watched(states), vec![shape]);
}

#[test]
fn noop_source_never_reports_a_state() {
    assert_eq!(NoopCursorSource::default().current(), None);
    let mut source = NoopCursorSource::new();
    assert_eq!(source.current(), None);
}

#[test]
fn failed_readings_are_reported_once_a_second() {
    let mut log = FailureLog::new();
    assert!(log.note(5));
    assert!(!log.note(4 + LOG_INTERVAL));
    assert!(log.note(5 + LOG_INTERVAL));
    let mut windows = WinCursorSource::new();
    let failed = || windows_cursor::SystemCursor::NoInfo("busy".to_string());
    let outcome = windows_cursor::read_cursor(&failed());
    assert_eq!(
        windows.settle(outcome, 0),
        (None, Some("GetCursorInfo: busy".to_string()))
    );
    let outcome = windows_cursor::read_cursor(&failed());
    assert_eq!(windows.settle(outcome, 1), (None, None));
}

#[test]
fn a_windows_cursor_is_read_or_the_reason_is_told() {
    let hotspot = (1, 2);
    let color = |size: Option<(i32, i32)>, bits: Bits| {
        windows_cursor::read_cursor(&windows_cursor::SystemCursor::Color {
            bitmap: Bitmap { size, bits },
            hotspot_x: hotspot.0,
            hotspot_y: hotspot.1,
        })
    };
    let mono = |size: Option<(i32, i32)>, bits: Bits| {
        windows_cursor::read_cursor(&windows_cursor::SystemCursor::Mono {
            masks: Bitmap { size, bits },
            hotspot_x: hotspot.0,
            hotspot_y: hotspot.1,
        })
    };
    let reason = |text: &str| Err::<CursorState, String>(text.to_string());

    assert_eq!(
        windows_cursor::read_cursor(&windows_cursor::SystemCursor::Hidden),
        Ok(CursorState::Hidden)
    );
    assert_eq!(
        windows_cursor::read_cursor(&windows_cursor::SystemCursor::NoIcon("gone".to_string())),
        reason("GetIconInfo: gone")
    );
    assert_eq!(color(None, Bits::Failed), reason("GetObjectW(hbmColor)"));
    assert_eq!(
        color(Some((0, 1)), Bits::Failed),
        reason("hbmColor has non-positive dimensions")
    );
    assert_eq!(
        color(Some((1, 1)), Bits::NoContext),
        reason("CreateCompatibleDC")
    );
    assert_eq!(
        color(Some((1, 1)), Bits::Failed),
        reason("GetDIBits(hbmColor)")
    );
    assert_eq!(mono(None, Bits::Failed), reason("GetObjectW(hbmMask)"));
    assert_eq!(
        mono(Some((1, 3)), Bits::Failed),
        reason("hbmMask has unexpected dimensions")
    );
    assert_eq!(
        mono(Some((1, 2)), Bits::Failed),
        reason("GetDIBits(hbmMask)")
    );

    let shape = CursorImage {
        width: 1,
        height: 1,
        hotspot_x: COORD_ONE as i128,
        hotspot_y: 2 * COORD_ONE as i128,
        scale: COORD_ONE,
        rgba: vec![30, 20, 10, 255],
    };
    assert_eq!(
        color(Some((1, 1)), Bits::Read(vec![10, 20, 30, 255])),
        Ok(CursorState::Shape(shape.clone()))
    );
    // Only the lower mask is set: white.
    let white = CursorImage {
        rgba: vec![255; 4],
        ..shape
    };
    assert_eq!(
        mono(
            Some((1, 2)),
            Bits::Read(vec![0, 0, 0, 0, 0b1000_0000, 0, 0, 0])
        ),
        Ok(CursorState::Shape(white))
    );
}

fn bitmap(width: i32, height: i32) -> BitmapRep {
    BitmapRep {
        pixels_wide: width,
        pixels_high: height,
        samples_per_pixel: 4,
        bytes_per_row: (width.max(0) * 4) as usize,
        alpha_first: false,
        data: Some(vec![255; (width.max(0) * 4 * height.max(0)) as usize]),
    }
}

fn system_cursor(representations: Vec<Option<BitmapRep>>) -> SystemCursor {
    SystemCursor {
        logical_width: 16 * COORD_ONE,
        logical_height: 16 * COORD_ONE,
        hotspot_x: 4 * COORD_ONE,
        hotspot_y: 5 * COORD_ONE,
        representations,
    }
}

#[test]
fn a_representation_of_a_real_scale_is_picked() {
    // The first that comes closest to one or two pixels for each point; more
    // than four are no scale.
    let both = vec![Some(bitmap(16, 16)), Some(bitmap(32, 32))];
    assert_eq!(pick_representation(&both, 16 * COORD_ONE), Some(0));
    let reps = vec![None, Some(bitmap(20, 20)), Some(bitmap(32, 32)), Some(bitmap(65, 65))];
    assert_eq!(pick_representation(&reps, 16 * COORD_ONE), Some(2));
    assert_eq!(pick_representation(&[None], 16 * COORD_ONE), None);
    let cursor = system_cursor(reps);
    match read_cursor(Some(&cursor)) {
        Ok(CursorState::Shape(image)) => {
            assert_eq!((image.width, image.height), (32, 32));
            assert_eq!(image.scale, 2 * COORD_ONE);
            assert_eq!(image.rgba.len(), 32 * 32 * 4);
        }
        other => panic!("unexpected reading {other:?}"),
    }
}

#[test]
fn readings_of_the_mac_cursor_fail_for_a_reason() {
    assert_eq!(read_cursor(None), Ok(CursorState::Hidden));
    let mut flat = system_cursor(vec![Some(bitmap(32, 32))]);
    flat.logical_width = 0;
    assert_eq!(read_cursor(Some(&flat)), Err(CursorFailure::LogicalSize));
    assert_eq!(
        read_cursor(Some(&system_cursor(vec![None]))),
        Err(CursorFailure::NoBitmap)
    );
    let mut grey = bitmap(32, 32);
    grey.samples_per_pixel = 1;
    assert_eq!(
        read_cursor(Some(&system_cursor(vec![Some(grey)]))),
        Err(CursorFailure::Samples)
    );
    let mut unread = bitmap(32, 32);
    unread.data = None;
    assert_eq!(
        read_cursor(Some(&system_cursor(vec![Some(unread)]))),
        Err(CursorFailure::NoData)
    );
    let mut source = MacCursorSource::new();
    assert_eq!(
        source.settle(Err(CursorFailure::NoData), 0),
        (None, Some("NSBitmapImageRep.bitmapData returned null"))
    );
    assert_eq!(source.settle(Err(CursorFailure::NoData), 1), (None, None));
}

#[test]
fn windows_bitmaps_become_rgba() {
    assert!(is_hidden(0, true));
    assert!(is_hidden(1, false));
    assert!(!is_hidden(1, true));
    assert_eq!(color_size(32, 0), Err(BitmapFailure::ColorSize));
    assert_eq!(color_size(32, 16), Ok((32, 16)));
    assert_eq!(mono_size(32, 63), Err(BitmapFailure::MaskSize));
    assert_eq!(mono_size(32, 64), Ok((32, 32)));
    assert_eq!(mono_stride(33), 8);

    match color_cursor_image(1, 1, &[1, 2, 3, 200], u32::MAX, 0) {
        CursorState::Shape(image) => {
            assert_eq!(image.rgba, vec![3, 2, 1, 200]);
            assert_eq!(image.hotspot_x, u32::MAX as i128 * COORD_ONE as i128);
        }
        CursorState::Hidden => panic!("a shape"),
    }
    // Two pixels, one row of each mask: the first is black, the second shows the
    // screen.
    let mask = [0b0100_0000, 0, 0, 0, 0, 0, 0, 0];
    match mono_cursor_image(2, 1, &mask, 0, 0) {
        CursorState::Shape(image) => {
            assert_eq!(image.rgba[..4], [0, 0, 0, 255]);
            assert_eq!(image.rgba[7], 0);
        }
        CursorState::Hidden => panic!("a shape"),
    }
}

/// Pixels and lines in the unit of the wire.
fn fixed(value: f64) -> i64 {
    (value * COORD_ONE as f64).round() as i64
}

#[derive(Debug, Clone, PartialEq)]
enum Call {
    PointerMove(i32, i32),
    Button(PointerButton, bool),
    Wheel(i32, i32),
    Key(u16, bool),
}

struct FakeInjector {
    calls: Rc<RefCell<Vec<Call>>>,
    screen: (i32, i32),
}

impl FakeInjector {
    fn new(screen: (i32, i32)) -> (FakeInjector, Rc<RefCell<Vec<Call>>>) {
        let calls = Rc::new(RefCell::new(Vec::new()));
        (
            FakeInjector {
                calls: Rc::clone(&calls),
                screen,
            },
            calls,
        )
    }
}

impl Injector for FakeInjector {
    fn pointer_move(&mut self, x: i32, y: i32) {
        self.calls.borrow_mut().push(Call::PointerMove(x, y));
    }
    fn button(&mut self, button: PointerButton, pressed: bool) {
        self.calls.borrow_mut().push(Call::Button(button, pressed));
    }
    fn wheel(&mut self, dx: i32, dy: i32) {
        self.calls.borrow_mut().push(Call::Wheel(dx, dy));
    }
    fn key(&mut self, keycode: u16, pressed: bool) {
        self.calls.borrow_mut().push(Call::Key(keycode, pressed));
    }
    fn screen_size(&self) -> (i32, i32) {
        self.screen
    }
}

fn send(router: &mut InputRouter<FakeInjector>, messages: Vec<InputMessage>) {
    let mut queue: VecDeque<InputMessage> = messages.into();
    router.drain(&mut queue);
    assert!(queue.is_empty());
}

#[test]
fn pointer_move_scales_normalized_coordinates_to_pixels() {
    let (injector, calls) = FakeInjector::new((1000, 500));
    let mut router = InputRouter::new(injector, HostOs::Other);
    send(
        &mut router,
        vec![InputMessage::PointerMove {
            x: fixed(0.5),
            y: fixed(0.5),
        }],
    );

    assert_eq!(calls.borrow()[0], Call::PointerMove(500, 250));
}

#[test]
fn pointer_move_clamps_out_of_range_coordinates() {
    let (injector, calls) = FakeInjector::new((1000, 500));
    let mut router = InputRouter::new(injector, HostOs::Other);
    send(
        &mut router,
        vec![InputMessage::PointerMove {
            x: fixed(1.2),
            y: fixed(0.0),
        }],
    );

    assert_eq!(calls.borrow()[0], Call::PointerMove(999, 0));
}

#[test]
fn pointer_move_uses_capture_rect_offset_and_size() {
    let (injector, calls) = FakeInjector::new((1000, 500));
    let mut router = InputRouter::new(injector, HostOs::Other);
    router.set_capture_rect(CaptureRect {
        x: 1920,
        y: -100,
        width: 1000,
        height: 500,
    });
    send(
        &mut router,
        vec![InputMessage::PointerMove {
            x: fixed(0.5),
            y: fixed(0.5),
        }],
    );

    assert_eq!(calls.borrow()[0], Call::PointerMove(2420, 150));
}

#[test]
fn pointer_button_uses_capture_rect() {
    let (injector, calls) = FakeInjector::new((1000, 500));
    let mut router = InputRouter::new(injector, HostOs::Other);
    router.set_capture_rect(CaptureRect {
        x: 1920,
        y: -100,
        width: 1000,
        height: 500,
    });
    send(
        &mut router,
        vec![InputMessage::PointerButton {
            button: PointerButton::Left,
            pressed: true,
            x: fixed(1.0),
            y: fixed(0.0),
        }],
    );

    let calls = calls.borrow();
    assert_eq!(calls[0], Call::PointerMove(2919, -100));
    assert_eq!(calls[1], Call::Button(PointerButton::Left, true));
}

#[test]
fn release_all_releases_exactly_the_pressed_keys_and_buttons() {
    let (injector, calls) = FakeInjector::new((1000, 500));
    let mut router = InputRouter::new(injector, HostOs::Other);
    send(
        &mut router,
        vec![InputMessage::PointerButton {
            button: PointerButton::Left,
            pressed: true,
            x: 0,
            y: 0,
        }],
    );
    assert_eq!(calls.borrow().len(), 2);

    send(&mut router, vec![InputMessage::ReleaseAll]);
    assert_eq!(calls.borrow().len(), 3);
    assert_eq!(
        calls.borrow().last(),
        Some(&Call::Button(PointerButton::Left, false))
    );
    // Nothing is held any more.
    send(&mut router, vec![InputMessage::ReleaseAll]);
    assert_eq!(calls.borrow().len(), 3);
}

#[test]
fn drop_releases_everything_still_held() {
    let (injector, calls) = FakeInjector::new((1000, 500));
    let mut router = InputRouter::new(injector, HostOs::Other);
    send(
        &mut router,
        vec![InputMessage::PointerButton {
            button: PointerButton::Right,
            pressed: true,
            x: 0,
            y: 0,
        }],
    );
    assert_eq!(calls.borrow().len(), 2);

    router.shut_down();

    assert_eq!(
        calls.borrow().last(),
        Some(&Call::Button(PointerButton::Right, false))
    );
}

#[test]
fn coalesces_rapid_pointer_moves() {
    let (injector, calls) = FakeInjector::new((1000, 500));
    let mut router = InputRouter::new(injector, HostOs::Other);
    let moves = (0..50)
        .map(|i| InputMessage::PointerMove {
            x: fixed(f64::from(i) / 49.0),
            y: fixed(0.5),
        })
        .collect();
    send(&mut router, moves);

    let calls = calls.borrow();
    assert!(
        calls.len() <= 3,
        "expected coalescing to keep pointer_move calls low, got {}",
        calls.len()
    );
    // x = 49/49 = 1.0 -> scaled to the screen width (1000), then clamped
    // into [0, width-1].
    assert_eq!(calls.last(), Some(&Call::PointerMove(999, 250)));
}

#[test]
fn only_moves_are_coalesced() {
    let (injector, calls) = FakeInjector::new((100, 100));
    let mut router = InputRouter::new(injector, HostOs::Windows);
    let to = |x: f64| InputMessage::PointerMove {
        x: fixed(x),
        y: 0,
    };
    let key = |pressed| InputMessage::Key {
        code: "KeyA".to_string(),
        pressed,
    };
    send(
        &mut router,
        vec![to(0.1), to(0.2), key(true), to(0.3), key(false)],
    );
    assert_eq!(
        *calls.borrow(),
        vec![
            Call::PointerMove(20, 0),
            Call::Key(0x1e, true),
            Call::PointerMove(30, 0),
            Call::Key(0x1e, false)
        ]
    );
}

#[test]
fn key_message_uses_platform_keycode() {
    for os in [HostOs::Macos, HostOs::Windows] {
        let (injector, calls) = FakeInjector::new((1000, 500));
        let mut router = InputRouter::new(injector, os);
        send(
            &mut router,
            vec![InputMessage::Key {
                code: "KeyA".to_string(),
                pressed: true,
            }],
        );
        let expected = to_keycode(os, "KeyA").expect("KeyA must be mapped on this platform");
        assert_eq!(calls.borrow()[0], Call::Key(expected, true));
    }
}

#[test]
fn wheels_scroll_by_whole_lines() {
    let (injector, calls) = FakeInjector::new((100, 100));
    let mut router = InputRouter::new(injector, HostOs::Other);
    send(
        &mut router,
        vec![InputMessage::Wheel {
            dx: fixed(-0.5),
            dy: fixed(2.4),
            x: 0,
            y: 0,
        }],
    );
    assert_eq!(
        *calls.borrow(),
        vec![Call::PointerMove(0, 0), Call::Wheel(-1, 2)]
    );
    assert_eq!(round_lines(fixed(0.49)), 0);
    assert_eq!(round_lines(fixed(-2.5)), -3);
}

#[test]
fn calls_become_requests_to_the_platform() {
    let mut injector = EnigoInjector::new(HostOs::Macos, None);
    assert_eq!(injector.screen_size(), (1920, 1080));
    injector.pointer_move(3, 4);
    injector.button(PointerButton::Back, true);
    injector.wheel(0, 0);
    injector.wheel(-2, 5);
    injector.key(0x24, false);
    assert_eq!(
        injector.take(),
        vec![
            Request::MoveTo(3, 4),
            Request::Button(PointerButton::Back, true),
            Request::Scroll(5, ScrollAxis::Vertical),
            Request::Scroll(-2, ScrollAxis::Horizontal),
            Request::RawKey(0x24, false),
        ]
    );
    assert_eq!(injector.take(), vec![]);
    let mut injector = EnigoInjector::new(HostOs::Windows, Some((800, 600)));
    assert_eq!(injector.screen_size(), (800, 600));
    injector.key(0xe04b, false);
    assert_eq!(
        injector.take(),
        vec![Request::Scancode(KeyEvent {
            scan: 0x4b,
            flags: 11
        })]
    );
}

#[test]
fn points_stay_on_the_display() {
    assert_eq!(scale_and_clamp(fixed(0.5), 0), 0);
    assert_eq!(scale_and_clamp(-1, 100), 0);
    assert_eq!(scale_and_clamp(i64::MAX, 100), 99);
    let rect = CaptureRect {
        x: -10,
        y: 5,
        width: 10,
        height: 10,
    };
    assert_eq!(to_pixel(fixed(1.0), fixed(0.0), rect), (-1, 5));
    assert_eq!(NoopInjector::new().screen_size(), (1920, 1080));
}

#[test]
fn keymap_maps_the_spot_checked_keys() {
    let mac = |code| to_keycode(HostOs::Macos, code);
    assert_eq!(mac("KeyA"), Some(0x00));
    assert_eq!(mac("Enter"), Some(0x24));
    assert_eq!(mac("ArrowLeft"), Some(0x7B));
    assert_eq!(mac("MetaLeft"), Some(0x37));
    assert_eq!(mac("Numpad1"), Some(0x53));

    let windows = |code| to_keycode(HostOs::Windows, code);
    assert_eq!(windows("KeyA"), Some(0x1E));
    assert_eq!(windows("Enter"), Some(0x1C));
    assert_eq!(windows("ArrowLeft"), Some(0x4B));
    assert_eq!(windows("MetaLeft"), Some(0x5B));
    assert_eq!(windows("Numpad1"), Some(0x4F));
}

#[test]
fn keymap_unknown_code_maps_to_none() {
    assert_eq!(to_keycode(HostOs::Macos, "Unknown"), None);
    assert_eq!(to_keycode(HostOs::Windows, "Unknown"), None);
}

#[test]
fn every_code_is_unmapped() {
    assert_eq!(to_keycode(HostOs::Other, "KeyA"), None);
    assert_eq!(to_keycode(HostOs::Other, "Enter"), None);
}

#[test]
fn the_prefix_of_a_scancode_marks_an_extended_key() {
    assert_eq!(scan_parts(0xe04b), (0x4b, true));
    assert_eq!(scan_parts(0x4b), (0x4b, false));
}

/// A vector that the viewer's implementation shares.
const VECTOR_KEY: [u8; 64] = [0x01; 64];
const VECTOR_ROLE: &str = "offer";
const VECTOR_FINGERPRINT: &str = "sha-256 AA:BB:CC";
const VECTOR_TAG: &str = "ePsRNp-0qqZJLVlyAkuOVBJ5aAHjZxfQf27HgyY0Ncc";

#[test]
fn auth_tag_matches_the_shared_test_vector() {
    assert_eq!(
        auth_tag(&VECTOR_KEY, VECTOR_ROLE, VECTOR_FINGERPRINT),
        VECTOR_TAG
    );
}

#[test]
fn verify_auth_tag_accepts_the_shared_test_vector() {
    assert!(verify_auth_tag(
        &VECTOR_KEY,
        VECTOR_ROLE,
        VECTOR_FINGERPRINT,
        VECTOR_TAG
    ));
}

#[test]
fn fingerprint_from_session_level_line() {
    let sdp = "v=0\r\no=- 1 1 IN IP4 127.0.0.1\r\ns=-\r\na=fingerprint:sha-256 AB:CD:EF\r\nm=application 9 UDP/DTLS/SCTP webrtc-datachannel\r\n";
    assert_eq!(
        fingerprint_from_sdp(sdp),
        Some("sha-256 AB:CD:EF".to_string())
    );
}

#[test]
fn fingerprint_from_m_section_line() {
    let sdp = "v=0\r\no=- 1 1 IN IP4 127.0.0.1\r\ns=-\r\nm=application 9 UDP/DTLS/SCTP webrtc-datachannel\r\na=fingerprint:sha-256 11:22:33\r\n";
    assert_eq!(
        fingerprint_from_sdp(sdp),
        Some("sha-256 11:22:33".to_string())
    );
}

#[test]
fn fingerprint_normalizes_algorithm_case_and_hex_case() {
    let sdp = "a=fingerprint:SHA-256 ab:cd:ef\r\n";
    assert_eq!(
        fingerprint_from_sdp(sdp),
        Some("sha-256 AB:CD:EF".to_string())
    );
}

#[test]
fn fingerprint_absent_returns_none() {
    let sdp = "v=0\r\no=- 1 1 IN IP4 127.0.0.1\r\ns=-\r\nm=application 9 UDP/DTLS/SCTP webrtc-datachannel\r\n";
    assert_eq!(fingerprint_from_sdp(sdp), None);
}

#[test]
fn verify_rejects_a_different_role() {
    let key = [0x02u8; 64];
    let tag = auth_tag(&key, "offer", "sha-256 AA:BB");
    assert!(!verify_auth_tag(&key, "answer", "sha-256 AA:BB", &tag));
}

#[test]
fn verify_rejects_a_different_fingerprint() {
    let key = [0x02u8; 64];
    let tag = auth_tag(&key, "offer", "sha-256 AA:BB");
    assert!(!verify_auth_tag(&key, "offer", "sha-256 AA:BC", &tag));
}

#[test]
fn verify_rejects_a_different_key() {
    let key = [0x02u8; 64];
    let other_key = [0x03u8; 64];
    let tag = auth_tag(&key, "offer", "sha-256 AA:BB");
    assert!(!verify_auth_tag(&other_key, "offer", "sha-256 AA:BB", &tag));
}

#[test]
fn verify_rejects_garbage_base64() {
    let key = [0x02u8; 64];
    assert!(!verify_auth_tag(
        &key,
        "offer",
        "sha-256 AA:BB",
        "not valid base64!!"
    ));
}

#[test]
fn a_tag_of_another_length_is_rejected() {
    let key = [0x02u8; 64];
    let tag = auth_tag(&key, "offer", "sha-256 AA:BB");
    assert!(!verify_auth_tag(&key, "offer", "sha-256 AA:BB", ""));
    assert!(!verify_auth_tag(&key, "offer", "sha-256 AA:BB", &tag[..40]));
}
