//! The tray agent: start at login, icon, menu, files and main loop.

use rcdesk_host::agent::autostart::{
    agent_binary_name, agent_target, escape_xml, format_run_value, generate_plist,
    missing_agent_message, parse_program_arguments_path, run_value_matches, sibling_agent_path,
    strip_verbatim_prefix, AgentTarget,
};
use rcdesk_host::agent::lock::{acquire, lock_path, LockAttempt};
use rcdesk_host::agent::logging::{
    log_path, panic_location, panic_payload, rotate_if_too_large, MAX_LOG_BYTES,
};
use rcdesk_host::agent::paths::{data_dir, log_dir};
use rcdesk_host::agent::tray::{
    autostart_checked, exit_code, icon_size, log_viewer, menu_action, menu_entries, quit_wait,
    toggle_autostart, AutostartChange, MenuAction, MenuEntry, StartFailure, Tray,
    PERMISSIONS_POLL_INTERVAL, QUIT_POLL, QUIT_WAIT,
};
use rcdesk_host::agent::{menu_model, probe_permissions, render_icon, IconState, Permissions};
use rcdesk_host::proto::{AgentStatus, HostOs};
use rcdesk_host::text::join_path;

const OK: Permissions = Permissions {
    screen: true,
    input: true,
};

#[test]
fn sibling_agent_path_picks_name_by_os() {
    let dir = "/opt/rcdesk";
    assert_eq!(sibling_agent_path(dir, false, false), "/opt/rcdesk/rcdesk-agent");
    assert_eq!(
        sibling_agent_path(dir, true, false),
        "/opt/rcdesk/rcdesk-agent.exe"
    );
}

#[test]
fn strip_verbatim_prefix_removes_local_prefix() {
    let path = r"\\?\C:\Program Files\rcdesk\rcdesk-agent.exe";
    assert_eq!(
        strip_verbatim_prefix(path),
        r"C:\Program Files\rcdesk\rcdesk-agent.exe"
    );
}

#[test]
fn strip_verbatim_prefix_rewrites_unc_prefix() {
    let path = r"\\?\UNC\server\share\rcdesk-agent.exe";
    assert_eq!(
        strip_verbatim_prefix(path),
        r"\\server\share\rcdesk-agent.exe"
    );
}

#[test]
fn strip_verbatim_prefix_is_a_no_op_without_the_prefix() {
    let path = "/Applications/rcdesk-agent";
    assert_eq!(strip_verbatim_prefix(path), path);
}

#[test]
fn generate_plist_contains_all_keys() {
    let xml = generate_plist("/Applications/rcdesk-agent");
    for needle in [
        "<key>Label</key>",
        "<string>app.rcdesk.agent</string>",
        "<key>ProgramArguments</key>",
        "<array>",
        "<string>/Applications/rcdesk-agent</string>",
        "<key>RunAtLoad</key>",
        "<true/>",
        "<key>KeepAlive</key>",
        "<key>SuccessfulExit</key>",
        "<false/>",
        "<key>ProcessType</key>",
        "<string>Interactive</string>",
        "<key>LimitLoadToSessionType</key>",
        "<string>Aqua</string>",
    ] {
        assert!(xml.contains(needle), "missing {needle:?} in:\n{xml}");
    }
}

#[test]
fn escape_xml_escapes_all_five_entities() {
    assert_eq!(
        escape_xml(r#"a & b < c > d " e ' f"#),
        "a &amp; b &lt; c &gt; d &quot; e &apos; f"
    );
}

#[test]
fn plist_round_trips_a_path_with_special_characters() {
    let path = "/Users/a & b/<rcdesk> \"agent\"/rcdesk-agent";
    let xml = generate_plist(path);
    assert_eq!(parse_program_arguments_path(&xml).as_deref(), Some(path));
}

#[test]
fn plist_round_trips_a_plain_path() {
    let path = "/Applications/rcdesk-agent";
    let xml = generate_plist(path);
    assert_eq!(parse_program_arguments_path(&xml).as_deref(), Some(path));
}

#[test]
fn plist_round_trips_text_that_looks_escaped() {
    let path = "/tmp/&amp;lt;/</string>/é";
    let xml = generate_plist(path);
    assert_eq!(parse_program_arguments_path(&xml).as_deref(), Some(path));
    assert_eq!(parse_program_arguments_path("<plist/>"), None);
}

#[test]
fn format_run_value_quotes_the_path() {
    assert_eq!(
        format_run_value(r"C:\rcdesk\rcdesk-agent.exe"),
        r#""C:\rcdesk\rcdesk-agent.exe""#
    );
}

#[test]
fn run_value_matches_is_case_insensitive() {
    let agent = r"C:\rcdesk\rcdesk-agent.exe";
    assert!(run_value_matches(r#""c:\rcdesk\rcdesk-agent.exe""#, agent));
    assert!(!run_value_matches(r#""C:\other\rcdesk-agent.exe""#, agent));
}

#[test]
fn the_agent_is_found_next_to_the_host() {
    assert!(matches!(
        agent_target(Some("rcdesk-agent"), Some("/opt"), false),
        AgentTarget::Running
    ));
    assert!(matches!(
        agent_target(Some("rcdesk-host"), Some("/opt"), false),
        AgentTarget::Sibling(path) if path == "/opt/rcdesk-agent"
    ));
    assert!(matches!(
        agent_target(Some("rcdesk-host"), None, true),
        AgentTarget::NoDirectory
    ));
    assert_eq!(agent_binary_name(true), "rcdesk-agent.exe");
    assert_eq!(
        missing_agent_message("/opt/rcdesk-agent"),
        "rcdesk-agent not found at /opt/rcdesk-agent -- it ships next to rcdesk-host, see docs/host-windows.md"
    );
}

#[test]
fn buffer_length_matches_size_squared_times_four() {
    for size in [16, 22, 32, 44] {
        let buf = render_icon(IconState::Idle, size, true);
        assert_eq!(buf.len(), (size as usize) * (size as usize) * 4);
    }
}

#[test]
fn has_opaque_pixels() {
    for state in [IconState::Idle, IconState::Session, IconState::Offline] {
        for macos in [true, false] {
            let buf = render_icon(state, 22, macos);
            assert!(buf.chunks(4).any(|px| px[3] == 255));
        }
    }
}

#[test]
fn the_three_states_render_different_buffers() {
    for macos in [true, false] {
        let idle = render_icon(IconState::Idle, 22, macos);
        let session = render_icon(IconState::Session, 22, macos);
        let offline = render_icon(IconState::Offline, 22, macos);
        assert_ne!(idle, session);
        assert_ne!(session, offline);
        assert_ne!(idle, offline);
    }
}

#[test]
fn the_icon_is_a_monitor_on_a_stand() {
    let buf = render_icon(IconState::Session, 22, false);
    let px = |x: usize, y: usize| {
        let i = (y * 22 + x) * 4;
        (buf[i], buf[i + 1], buf[i + 2], buf[i + 3])
    };
    // Monitor from (3, 3) to (19, 15), one pixel of bezel, stand below it from
    // x = 9 to 14.
    assert_eq!(px(0, 0), (0, 0, 0, 0));
    assert_eq!(px(3, 3), (90, 90, 90, 255));
    assert_eq!(px(4, 4), (40, 170, 70, 255));
    assert_eq!(px(18, 14), (90, 90, 90, 255));
    assert_eq!(px(9, 15), (90, 90, 90, 255));
    assert_eq!(px(8, 15), (0, 0, 0, 0));
    assert_eq!(px(9, 16), (0, 0, 0, 0));
    assert_eq!(render_icon(IconState::Idle, 0, false), Vec::<u8>::new());
}

#[test]
fn connecting() {
    let model = menu_model(&AgentStatus::Connecting, &OK);
    assert_eq!(model.status_text, "Connecting…");
    assert_eq!(model.tooltip, "rcdesk — Connecting…");
    assert_eq!(model.pin, None);
    assert!(!model.can_end_session);
    assert_eq!(model.icon, IconState::Idle);
    assert!(model.warnings.is_empty());
}

#[test]
fn registered_shows_a_spaced_pin_and_no_end_session() {
    let status = AgentStatus::Registered {
        pin: "123456".to_string(),
    };
    let model = menu_model(&status, &OK);
    assert_eq!(model.status_text, "PIN 123 456");
    assert_eq!(model.tooltip, "rcdesk — PIN 123 456");
    assert_eq!(model.pin.as_deref(), Some("123456"));
    assert!(!model.can_end_session);
    assert_eq!(model.icon, IconState::Idle);
}

#[test]
fn only_a_pin_of_six_digits_is_spaced() {
    for pin in ["12345", "1234567", "", "12é45", "ключ12"] {
        let status = AgentStatus::Registered {
            pin: pin.to_string(),
        };
        assert_eq!(
            menu_model(&status, &OK).status_text,
            format!("PIN {pin}")
        );
    }
}

#[test]
fn in_session_enables_end_session_and_shows_the_session_icon() {
    let status = AgentStatus::InSession {
        pin: "123456".to_string(),
    };
    let model = menu_model(&status, &OK);
    assert_eq!(model.status_text, "Session active · PIN 123 456");
    assert_eq!(model.pin.as_deref(), Some("123456"));
    assert!(model.can_end_session);
    assert_eq!(model.icon, IconState::Session);
}

#[test]
fn reconnecting_shows_retry_countdown_and_no_pin() {
    let status = AgentStatus::Reconnecting {
        error: "connection reset".to_string(),
        retry_in: 8_000_000_000,
    };
    let model = menu_model(&status, &OK);
    assert_eq!(model.status_text, "Offline — retrying in 8s");
    assert_eq!(model.pin, None);
    assert!(!model.can_end_session);
    assert_eq!(model.icon, IconState::Offline);
}

#[test]
fn no_warnings_when_all_permissions_are_granted() {
    let model = menu_model(&AgentStatus::Connecting, &OK);
    assert!(model.warnings.is_empty());
}

#[test]
fn warns_about_each_missing_permission() {
    let missing_screen = Permissions {
        screen: false,
        input: true,
    };
    let model = menu_model(&AgentStatus::Connecting, &missing_screen);
    assert_eq!(model.warnings.len(), 1);

    let missing_both = Permissions {
        screen: false,
        input: false,
    };
    let model = menu_model(&AgentStatus::Connecting, &missing_both);
    assert_eq!(model.warnings.len(), 2);
}

#[test]
fn only_macos_withholds_permissions() {
    let none = Permissions {
        screen: false,
        input: false,
    };
    assert_eq!(probe_permissions(HostOs::Macos, false, false), none);
    assert_eq!(probe_permissions(HostOs::Windows, false, false), OK);
    assert_eq!(probe_permissions(HostOs::Other, false, false), OK);
}

#[test]
fn log_dir_and_data_dir_differ() {
    for os in [HostOs::Macos, HostOs::Windows, HostOs::Other] {
        for base in [None, Some(""), Some("/home/me"), Some("/home/me/")] {
            assert_ne!(log_dir(os, base), data_dir(os, base));
        }
    }
}

#[test]
fn macos_paths_are_under_the_library_directory() {
    let home = Some("/Users/me");
    assert!(log_dir(HostOs::Macos, home).ends_with("Library/Logs/rcdesk"));
    assert!(data_dir(HostOs::Macos, home).ends_with("Library/Application Support/rcdesk"));
    assert_eq!(log_dir(HostOs::Macos, None), "./Library/Logs/rcdesk");
    assert_eq!(log_dir(HostOs::Windows, Some("C:/x")), "C:/x\\rcdesk\\logs");
    assert_eq!(data_dir(HostOs::Other, Some("/tmp")), "/tmp/rcdesk-data");
}

#[test]
fn names_are_joined_as_the_platform_does_it() {
    for (dir, path) in [
        ("", "a"),
        ("/", "/a"),
        ("/x", "/x/a"),
        ("/x/", "/x/a"),
        ("/x\\", "/x\\/a"),
        ("C:", "C:/a"),
    ] {
        assert_eq!(join_path(false, dir, "a"), path);
    }
    for (dir, path) in [
        ("", "a"),
        ("C:", "C:a"),
        ("z:", "z:a"),
        ("1:", "1:\\a"),
        ("C:\\", "C:\\a"),
        ("C:\\x", "C:\\x\\a"),
        ("C:\\x\\", "C:\\x\\a"),
        ("C:/x/", "C:/x/a"),
        ("C:/x", "C:/x\\a"),
    ] {
        assert_eq!(join_path(true, dir, "a"), path);
    }
    assert_eq!(
        sibling_agent_path("C:\\rcdesk", true, true),
        "C:\\rcdesk\\rcdesk-agent.exe"
    );
    assert_eq!(log_path("C:\\logs", true), "C:\\logs\\agent.log");
    assert_eq!(
        rotate_if_too_large("C:\\logs", Some(MAX_LOG_BYTES + 1), true).as_deref(),
        Some("C:\\logs\\agent.log.1")
    );
    assert_eq!(lock_path("C:\\data", true), "C:\\data\\agent.lock");
}

#[test]
fn rotates_when_over_the_threshold() {
    assert_eq!(
        rotate_if_too_large("/logs", Some(MAX_LOG_BYTES + 1), false).as_deref(),
        Some("/logs/agent.log.1")
    );
    assert_eq!(log_path("/logs", false), "/logs/agent.log");
}

#[test]
fn does_not_rotate_when_under_the_threshold() {
    assert_eq!(rotate_if_too_large("/logs", Some(11), false), None);
    assert_eq!(rotate_if_too_large("/logs", Some(MAX_LOG_BYTES), false), None);
}

#[test]
fn is_a_no_op_when_the_log_does_not_exist_yet() {
    assert_eq!(rotate_if_too_large("/logs", None, false), None);
}

#[test]
fn only_one_agent_holds_the_lock() {
    assert_eq!(lock_path("/data", false), "/data/agent.lock");
    assert_eq!(
        acquire(LockAttempt::Locked),
        Ok(true),
        "the first acquire must succeed"
    );
    assert_eq!(
        acquire(LockAttempt::WouldBlock),
        Ok(false),
        "a second acquire while the first is still held must report busy"
    );
    assert_eq!(
        acquire(LockAttempt::Failed("denied".to_string())),
        Err("denied".to_string())
    );
}

#[test]
fn a_panic_without_a_message_is_still_logged() {
    assert_eq!(panic_payload(Some("boom".to_string())), "boom");
    assert_eq!(panic_payload(None), "<non-string panic payload>");
    assert_eq!(panic_location(Some("a.rs:1:2".to_string())), "a.rs:1:2");
    assert_eq!(panic_location(None), "<unknown location>");
}

#[test]
fn only_a_running_agent_is_no_failure() {
    assert_eq!(exit_code(StartFailure::AlreadyRunning), 0);
    for why in [
        StartFailure::Logging,
        StartFailure::Lock,
        StartFailure::Runtime,
        StartFailure::HostContext,
    ] {
        assert_eq!(exit_code(why), 1);
    }
    assert_eq!(icon_size(HostOs::Macos), 44);
    assert_eq!(icon_size(HostOs::Windows), 32);
    assert_eq!(log_viewer(HostOs::Windows), Some("notepad.exe"));
    assert_eq!(log_viewer(HostOs::Other), None);
    assert!(rcdesk_host::DEFAULT_LOG_FILTER.starts_with("info,"));
}

fn registered() -> AgentStatus {
    AgentStatus::Registered {
        pin: "123456".to_string(),
    }
}

fn in_session() -> AgentStatus {
    AgentStatus::InSession {
        pin: "123456".to_string(),
    }
}

#[test]
fn the_menu_lists_permissions_on_macos_only() {
    let perms = Permissions {
        screen: false,
        input: true,
    };
    let model = menu_model(&registered(), &perms);
    let menu = menu_entries(HostOs::Macos, &model, &perms, true);
    let ids: Vec<&str> = menu
        .iter()
        .map(|entry| match entry {
            MenuEntry::Separator => "-",
            MenuEntry::Item { id, .. } => id,
        })
        .collect();
    assert_eq!(
        ids,
        vec![
            "status",
            "open_screen_prefs",
            "open_accessibility_prefs",
            "-",
            "copy_pin",
            "end_session",
            "-",
            "open_log",
            "autostart",
            "-",
            "quit"
        ]
    );
    assert_eq!(
        menu[1],
        MenuEntry::Item {
            id: "open_screen_prefs",
            text: "Grant Screen Recording permission…".to_string(),
            enabled: true,
            checked: None,
        }
    );
    assert_eq!(
        menu[8],
        MenuEntry::Item {
            id: "autostart",
            text: "Start at login".to_string(),
            enabled: true,
            checked: Some(true),
        }
    );
    assert_eq!(menu_entries(HostOs::Windows, &model, &perms, false).len(), 9);
}

#[test]
fn clicks_become_actions() {
    let model = menu_model(&registered(), &OK);
    let idle = menu_model(&AgentStatus::Connecting, &OK);
    let mac = HostOs::Macos;
    assert_eq!(
        menu_action(mac, "copy_pin", &model),
        MenuAction::CopyPin("123456".to_string())
    );
    assert_eq!(menu_action(mac, "copy_pin", &idle), MenuAction::Nothing);
    assert_eq!(menu_action(mac, "end_session", &idle), MenuAction::EndSession);
    assert_eq!(menu_action(mac, "open_log", &idle), MenuAction::OpenLog);
    assert_eq!(menu_action(mac, "autostart", &idle), MenuAction::ToggleAutostart);
    assert_eq!(menu_action(mac, "quit", &idle), MenuAction::Quit);
    assert_eq!(menu_action(mac, "status", &idle), MenuAction::Nothing);
    assert_eq!(
        menu_action(mac, "open_accessibility_prefs", &idle),
        MenuAction::OpenSettings(
            "x-apple.systempreferences:com.apple.preference.security?Privacy_Accessibility"
        )
    );
    assert_eq!(
        menu_action(HostOs::Windows, "open_screen_prefs", &idle),
        MenuAction::Nothing
    );
}

#[test]
fn a_click_on_start_at_login_follows_its_mark() {
    assert_eq!(
        toggle_autostart(Some("/a"), true),
        Some(AutostartChange::Enable("/a".to_string()))
    );
    assert_eq!(
        toggle_autostart(Some("/a"), false),
        Some(AutostartChange::Disable)
    );
    assert_eq!(toggle_autostart(None, true), None);
    assert!(autostart_checked(Some(true)));
    assert!(!autostart_checked(Some(false)));
    assert!(!autostart_checked(None));
}

#[test]
fn the_tray_changes_only_what_differs() {
    let mut tray = Tray::new(HostOs::Windows, registered(), OK, 0);
    assert_eq!(tray.observe(registered(), None, 1), None);
    assert_eq!(tray.observe(registered(), Some(OK), 2), None);

    let update = tray.observe(in_session(), None, 3).expect("an update");
    assert_eq!(update.status_text.as_deref(), Some("Session active · PIN 123 456"));
    assert_eq!(
        update.tooltip.as_deref(),
        Some("rcdesk — Session active · PIN 123 456")
    );
    assert!(update.copy_pin && update.end_session);
    assert_eq!(update.permissions, None);
    assert_eq!(update.icon, Some(IconState::Session));
    assert_eq!(update.stay_awake, Some(true));

    let update = tray.observe(registered(), None, 4).expect("an update");
    assert_eq!(update.stay_awake, Some(false));
    let update = tray
        .observe(AgentStatus::Connecting, None, 5)
        .expect("an update");
    assert_eq!(update.icon, None);
    assert_eq!(update.stay_awake, None);
}

#[test]
fn a_new_permission_updates_the_items_on_macos() {
    let none = Permissions {
        screen: false,
        input: false,
    };
    let mut tray = Tray::new(HostOs::Macos, registered(), none, 0);
    assert!(!tray.perms_due(PERMISSIONS_POLL_INTERVAL - 1));
    assert!(tray.perms_due(PERMISSIONS_POLL_INTERVAL));
    let granted = Permissions {
        screen: true,
        input: false,
    };
    let update = tray
        .observe(registered(), Some(granted), PERMISSIONS_POLL_INTERVAL)
        .expect("an update");
    assert_eq!(update.status_text, None);
    let items = update.permissions.expect("macOS shows permissions");
    assert_eq!(items.screen_text, "Screen Recording: granted");
    assert!(!items.screen_enabled);
    assert_eq!(items.input_text, "Grant Accessibility permission…");
    assert!(items.input_enabled);
    assert!(!tray.perms_due(PERMISSIONS_POLL_INTERVAL + 1));
}

#[test]
fn quitting_waits_a_second_for_the_session() {
    assert_eq!(quit_wait(&registered(), 100, 100), None);
    assert_eq!(quit_wait(&in_session(), 100, 100), Some(QUIT_POLL));
    assert_eq!(
        quit_wait(&in_session(), 100, 99 + QUIT_WAIT),
        Some(QUIT_POLL)
    );
    assert_eq!(quit_wait(&in_session(), 100, 100 + QUIT_WAIT), None);
}
