//! What differs between the platforms.

use rcdesk_host::capture::CaptureError;
use rcdesk_host::fsutil::Removal;
use rcdesk_host::platform::macos::autostart as launch_agent;
use rcdesk_host::platform::other::autostart as no_autostart;
use rcdesk_host::platform::windows::autostart as run_key;
use rcdesk_host::platform::windows::d3d::wgc_supported;
use rcdesk_host::platform::windows::elevation::{
    foreground_input_blocked, label_words, level_index,
};
use rcdesk_host::platform::windows::event_loop::wait_millis;
use rcdesk_host::platform::windows::keyboard::send_scancode;
use rcdesk_host::platform::windows::monitors::{list, monitor_info, Monitor};
use rcdesk_host::platform::windows::mouse::{move_to, normalize, Desktop};
use rcdesk_host::platform::windows::wide::{
    from_registry, from_wide_lossy, from_wide_null, wide_bytes, wide_null,
};
use rcdesk_host::platform::{computer_name, host_os, name};
use rcdesk_host::proto::HostOs;

#[test]
fn name_is_non_empty() {
    for os in [HostOs::Macos, HostOs::Windows, HostOs::Other] {
        assert!(!name(os).is_empty());
    }
}

#[test]
fn name_matches_std_consts_os() {
    for os in ["macos", "windows"] {
        assert_eq!(name(host_os(os)), os);
    }
}

#[test]
fn computer_name_returns_something_on_macos() {
    let name = computer_name(Some("My Mac".to_string()))
        .expect("macOS should always report a computer name");
    assert!(!name.is_empty());
    assert_eq!(name, "My Mac");
}

#[test]
fn computer_name_returns_something_on_windows() {
    let name = computer_name(Some("DESKTOP-1".to_string()))
        .expect("COMPUTERNAME should be set on any real Windows box");
    assert!(!name.is_empty());
    assert_eq!(name, "DESKTOP-1");
}

#[test]
fn an_empty_computer_name_is_none() {
    assert_eq!(computer_name(Some(String::new())), None);
    assert_eq!(computer_name(None), None);
}

#[test]
fn host_os_is_macos_on_macos() {
    assert_eq!(host_os("macos"), HostOs::Macos);
}

#[test]
fn host_os_is_windows_on_windows() {
    assert_eq!(host_os("windows"), HostOs::Windows);
}

#[test]
fn host_os_is_other_elsewhere() {
    assert_eq!(host_os("linux"), HostOs::Other);
    assert_eq!(name(host_os("linux")), "other");
}

#[test]
fn normalize_maps_origin_to_zero() {
    assert_eq!(normalize(0, 0, 1920), 0);
}

#[test]
fn normalize_maps_last_pixel_to_max() {
    assert_eq!(normalize(1919, 0, 1920), 65535);
}

#[test]
fn normalize_offsets_by_origin_for_a_secondary_monitor() {
    // value=2420, origin=1920, extent=1000 -> value-origin=500, span=999.
    // (500 * 65535 + 999/2) / 999 = (32_767_500 + 499) / 999
    //                              = 32_767_999 / 999 = 32800 (floor).
    assert_eq!(normalize(1920 + 500, 1920, 1000), 32800);
}

#[test]
fn normalize_handles_a_negative_origin() {
    assert_eq!(normalize(-100, -100, 1080), 0);
}

#[test]
fn normalize_returns_zero_for_a_degenerate_extent() {
    assert_eq!(normalize(5, 0, 1), 0);
    // However far the position is.
    assert_eq!(normalize(i32::MAX, i32::MIN, 1), 0);
    assert_eq!(normalize(i32::MIN, i32::MAX, -3), 0);
}

#[test]
fn normalize_rounds_toward_zero_left_of_the_desktop() {
    // (-1 * 65535 + 1919/2) / 1919 = -64576 / 1919 = -33.65.
    assert_eq!(normalize(-1, 0, 1920), -33);
}

#[test]
fn a_move_goes_by_the_whole_desktop() {
    let desktop = Desktop {
        x: -1920,
        y: 0,
        width: 3840,
        height: 1080,
    };
    let event = move_to(1919, 1079, desktop);
    assert_eq!((event.dx, event.dy, event.flags), (65535, 65535, 0xc001));
    assert_eq!(move_to(-1920, 0, desktop).dx, 0);
    let none = Desktop {
        x: i32::MIN,
        y: i32::MIN,
        width: 0,
        height: 1,
    };
    let event = move_to(i32::MAX, i32::MAX, none);
    assert_eq!((event.dx, event.dy), (0, 0));
}

#[test]
fn scancodes_become_flags() {
    let press = send_scancode(0x1e, true);
    assert_eq!((press.scan, press.flags), (0x1e, 8));
    let release = send_scancode(0xe04b, false);
    assert_eq!((release.scan, release.flags), (0x4b, 8 + 1 + 2));
}

#[test]
fn utf16_round_trips() {
    let text = "C:\\папка\\\u{1f5a5} x";
    let wide = wide_null(text);
    let expected: Vec<u16> = text.encode_utf16().chain([0]).collect();
    assert_eq!(wide, expected);
    assert_eq!(from_wide_null(&wide), text);
    assert_eq!(from_wide_lossy(&wide), format!("{text}\0"));
    assert_eq!(from_registry(&wide_bytes(&wide), 2 * wide.len() as u32), text);
}

#[test]
fn broken_utf16_is_replaced() {
    let broken = [0x41, 0xd83d, 0x42, 0xdda5, 0xd83d];
    assert_eq!(from_wide_lossy(&broken), String::from_utf16_lossy(&broken));
    assert_eq!(from_wide_lossy(&broken), "A\u{fffd}B\u{fffd}\u{fffd}");
}

#[test]
fn registry_bytes_beyond_the_length_are_ignored() {
    assert_eq!(from_registry(&[0x41, 0, 0x42, 0, 0x43], 3), "A");
    assert_eq!(from_registry(&[0x41, 0, 0x42, 0, 0x43], 99), "AB");
    assert_eq!(from_registry(&[], 0), "");
}

#[test]
fn disabled_when_no_plist_exists() {
    let agent = "/Applications/rcdesk-agent";
    assert_eq!(
        launch_agent::is_enabled(agent, launch_agent::StoredPlist::Missing),
        Ok(false)
    );
}

#[test]
fn enable_then_is_enabled_then_disable_round_trip() {
    let agent = "/Applications/rcdesk-agent";
    let stored = launch_agent::enable(agent);
    assert_eq!(
        launch_agent::is_enabled(agent, launch_agent::StoredPlist::Text(stored)),
        Ok(true)
    );
    assert_eq!(launch_agent::disable(Removal::Removed), Ok(()));
    assert_eq!(
        launch_agent::is_enabled(agent, launch_agent::StoredPlist::Missing),
        Ok(false)
    );
}

#[test]
fn a_plist_for_a_different_path_reads_as_disabled() {
    let stored = launch_agent::enable("/Applications/rcdesk-agent");
    assert_eq!(
        launch_agent::is_enabled(
            "/opt/rcdesk/rcdesk-agent",
            launch_agent::StoredPlist::Text(stored)
        ),
        Ok(false)
    );
}

#[test]
fn disabling_when_nothing_is_enabled_is_not_an_error() {
    assert_eq!(launch_agent::disable(Removal::Missing), Ok(()));
    assert_eq!(
        launch_agent::disable(Removal::Failed("denied".to_string())),
        Err("denied".to_string())
    );
}

#[test]
fn launch_agents_lie_below_the_home_directory() {
    let dir = launch_agent::launch_agents_dir(Some("/Users/me"));
    assert_eq!(dir, "/Users/me/Library/LaunchAgents");
    assert_eq!(
        launch_agent::plist_path(&dir),
        "/Users/me/Library/LaunchAgents/app.rcdesk.agent.plist"
    );
    assert_eq!(
        launch_agent::launch_agents_dir(None),
        "./Library/LaunchAgents"
    );
    assert_eq!(
        launch_agent::is_enabled("/a", launch_agent::StoredPlist::Failed("io".to_string())),
        Err("io".to_string())
    );
}

#[test]
fn the_run_value_round_trips() {
    let agent = "C:\\Program Files\\rcdesk\\rcdesk-agent.exe";
    let entry = run_key::enable(agent);
    let stored = from_registry(&entry.data, entry.data.len() as u32);
    assert_eq!(stored, format!("\"{agent}\""));
    assert!(run_key::is_enabled(agent, Some(&stored)));
    assert!(!run_key::is_enabled("C:\\other.exe", Some(&stored)));
    assert!(!run_key::is_enabled(agent, None));
    assert_eq!(from_wide_null(&entry.value_name), "rcdesk");
    assert_eq!(
        from_wide_null(&entry.subkey),
        "Software\\Microsoft\\Windows\\CurrentVersion\\Run"
    );
}

#[test]
fn registry_codes_are_told_apart() {
    assert_eq!(run_key::outcome_of(0), run_key::Outcome::Done);
    assert_eq!(run_key::outcome_of(2), run_key::Outcome::NotFound);
    assert_eq!(run_key::outcome_of(5), run_key::Outcome::Failed(5));
    assert_eq!(run_key::disable(2), Ok(()));
    assert_eq!(run_key::disable(5), Err(run_key::RunFailure::Delete(5)));
    assert_eq!(
        run_key::stored(4, 0, 0),
        Err(run_key::RunFailure::Open(4))
    );
    assert_eq!(run_key::stored(0, 5, 6), Err(run_key::RunFailure::Store(5)));
    assert_eq!(
        run_key::stored(0, 0, 6),
        Err(run_key::RunFailure::Close(6))
    );
    assert_eq!(run_key::stored(0, 0, 0), Ok(()));
}

#[test]
fn a_run_value_is_read_in_two_calls() {
    let agent = "C:\\rcdesk\\rcdesk-agent.exe";
    let data = run_key::enable(agent).data;
    let read = run_key::RunRead {
        size_code: 0,
        byte_len: data.len() as u32,
        read_code: 0,
        actual_len: data.len() as u32,
        buffer: data,
    };
    assert!(run_key::has_bytes(0, 4) && !run_key::has_bytes(0, 0) && !run_key::has_bytes(2, 4));
    assert_eq!(
        run_key::read_run_value(&read),
        Ok(Some(format!("\"{agent}\"")))
    );
    let with = |size_code: u32, byte_len: u32, read_code: u32| {
        run_key::read_run_value(&run_key::RunRead {
            size_code,
            byte_len,
            read_code,
            ..read.clone()
        })
    };
    assert_eq!(with(2, 0, 0), Ok(None));
    assert_eq!(with(5, 0, 0), Err(run_key::RunFailure::Size(5)));
    assert_eq!(with(0, 0, 5), Ok(Some(String::new())));
    assert_eq!(with(0, 4, 2), Ok(None));
    assert_eq!(with(0, 4, 5), Err(run_key::RunFailure::Read(5)));
    assert_eq!(
        run_key::RunFailure::Open(4).context(),
        "RegOpenKeyExW(...CurrentVersion\\Run) failed"
    );
}

#[test]
fn autostart_is_unsupported_elsewhere() {
    let message = "autostart is not supported on this platform";
    assert_eq!(no_autostart::is_enabled(), Err(message));
    assert_eq!(no_autostart::enable(), Err(message));
    assert_eq!(no_autostart::disable(), Err(message));
}

#[test]
fn graphics_capture_needs_feature_level_11() {
    assert!(wgc_supported(Some(0xb000)));
    assert!(wgc_supported(Some(0xb100)));
    assert!(!wgc_supported(Some(0xa100)));
    assert!(!wgc_supported(None));
}

#[test]
fn waits_are_counted_in_milliseconds() {
    assert_eq!(wait_millis(100_000_000), 100);
    assert_eq!(wait_millis(999_999), 0);
    assert_eq!(wait_millis(u64::MAX), u32::MAX);
}

#[test]
fn input_for_an_elevated_window_is_blocked() {
    let window = Some((7, 42));
    assert!(foreground_input_blocked(window, 1, Some(0x2000), Some(0x3000)));
    assert!(!foreground_input_blocked(window, 1, Some(0x2000), Some(0x2000)));
    // What cannot be read is a sign of elevation, unless it is our own level.
    assert!(foreground_input_blocked(window, 1, Some(0x2000), None));
    assert!(!foreground_input_blocked(window, 1, None, None));
    // No window, an unknown owner, or our own window.
    assert!(!foreground_input_blocked(None, 1, Some(0x2000), None));
    assert!(!foreground_input_blocked(Some((0, 42)), 1, Some(0x2000), None));
    assert!(!foreground_input_blocked(Some((7, 0)), 1, Some(0x2000), None));
    assert!(!foreground_input_blocked(Some((7, 42)), 42, Some(0x2000), None));
}

#[test]
fn integrity_labels_are_sized_and_read() {
    assert_eq!(label_words(0), None);
    assert_eq!(label_words(1), Some(1));
    assert_eq!(label_words(28), Some(4));
    assert_eq!(level_index(0), None);
    assert_eq!(level_index(3), Some(2));
}

fn monitor() -> Monitor {
    Monitor {
        handle: 0x7_0001_0002,
        left: -1920,
        top: 10,
        right: 0,
        bottom: 5,
        flags: 1,
        device: "\\\\.\\DISPLAY1\0junk".encode_utf16().collect(),
    }
}

#[test]
fn monitors_become_displays() {
    let d = monitor_info(&monitor());
    assert_eq!(d.id, 0x0001_0002);
    assert_eq!(d.title, "\\\\.\\DISPLAY1");
    assert_eq!((d.x, d.y, d.width, d.height), (-1920, 10, 1920, 0));
    assert!(d.primary);
}

#[test]
fn the_first_monitor_that_fails_is_reported() {
    let displays = list(Ok(()), vec![Ok(monitor())]).expect("one display");
    assert_eq!(displays.len(), 1);
    let err = list(
        Ok(()),
        vec![Ok(monitor()), Err("first".to_string()), Err("second".to_string())],
    )
    .expect_err("a failure");
    assert!(matches!(err, CaptureError::Backend(text) if text == "first"));
    let err = list(Err("code 5".to_string()), vec![]).expect_err("a failure");
    assert_eq!(err.message(), "capture backend error: EnumDisplayMonitors: code 5");
}
