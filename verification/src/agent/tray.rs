//! What the agent's main loop decides: the items of the menu and what a click on
//! one does, what changes when the status or the permissions do, and how it
//! starts and quits. Drawing and talking to the system are left to the caller,
//! and so is the clock: instants are nanoseconds.

use vstd::prelude::*;

use crate::agent::icon::IconState;
use crate::agent::menu::{menu_model, MenuModel};
use crate::agent::permissions::Permissions;
use crate::proto::{AgentStatus, HostOs};
use crate::text::str_eq;

verus! {

/// Time between two looks at the status and the menu.
pub const PUMP_INTERVAL: u64 = 100_000_000;

/// Time between two probes of the permissions.
pub const PERMISSIONS_POLL_INTERVAL: u64 = 10_000_000_000;

/// How long to wait for a session to end before quitting.
pub const QUIT_WAIT: u64 = 1_000_000_000;

/// Time between two looks at the status while waiting.
pub const QUIT_POLL: u64 = 20_000_000;

/// Why the agent does not start.
#[derive(Debug, Clone, Copy, PartialEq, Eq, Structural)]
pub enum StartFailure {
    Logging,
    /// Another agent is running.
    AlreadyRunning,
    Lock,
    Runtime,
    HostContext,
}

/// The exit code of an agent that does not start. That another one is running
/// is no failure.
pub fn exit_code(why: StartFailure) -> (r: i32)
    ensures
        r == (if why == StartFailure::AlreadyRunning {
            0i32
        } else {
            1
        }),
{
    if why == StartFailure::AlreadyRunning {
        0
    } else {
        1
    }
}

/// Width and height of the tray icon: sharp at twice the scale on macOS, scaled
/// down by the shell elsewhere.
pub fn icon_size(os: HostOs) -> (r: u32)
    ensures
        r == (if os == HostOs::Macos {
            44u32
        } else {
            32
        }),
{
    if os == HostOs::Macos {
        44
    } else {
        32
    }
}

/// The program that shows the log.
pub fn log_viewer(os: HostOs) -> (r: Option<&'static str>)
    ensures
        match os {
            HostOs::Macos => r == Some("open"),
            HostOs::Windows => r == Some("notepad.exe"),
            HostOs::Other => r is None,
        },
{
    match os {
        HostOs::Macos => Some("open"),
        HostOs::Windows => Some("notepad.exe"),
        HostOs::Other => None,
    }
}

/// The label of the item for the permission to record the screen.
pub fn screen_item_label(screen_ok: bool) -> (r: &'static str)
    ensures
        r@ == screen_label(screen_ok),
{
    if screen_ok {
        "Screen Recording: granted"
    } else {
        "Grant Screen Recording permission…"
    }
}

pub open spec fn screen_label(screen_ok: bool) -> Seq<char> {
    if screen_ok {
        "Screen Recording: granted"@
    } else {
        "Grant Screen Recording permission…"@
    }
}

/// The label of the item for the permission to inject input.
pub fn input_item_label(input_ok: bool) -> (r: &'static str)
    ensures
        r@ == input_label(input_ok),
{
    if input_ok {
        "Accessibility: granted"
    } else {
        "Grant Accessibility permission…"
    }
}

pub open spec fn input_label(input_ok: bool) -> Seq<char> {
    if input_ok {
        "Accessibility: granted"@
    } else {
        "Grant Accessibility permission…"@
    }
}

/// One entry of the menu.
#[derive(Debug, Clone, PartialEq, Eq)]
pub enum MenuEntry {
    Separator,
    /// `checked` is `None` for an item without a check mark.
    Item { id: &'static str, text: String, enabled: bool, checked: Option<bool> },
}

/// An entry as plain values.
pub ghost enum EntryView {
    Separator,
    Item { id: Seq<char>, text: Seq<char>, enabled: bool, checked: Option<bool> },
}

impl View for MenuEntry {
    type V = EntryView;

    open spec fn view(&self) -> EntryView {
        match *self {
            MenuEntry::Separator => EntryView::Separator,
            MenuEntry::Item { id, text, enabled, checked } => EntryView::Item {
                id: id@,
                text: text@,
                enabled,
                checked,
            },
        }
    }
}

/// An item without a check mark.
pub open spec fn plain(id: Seq<char>, text: Seq<char>, enabled: bool) -> EntryView {
    EntryView::Item { id, text, enabled, checked: None }
}

/// The menu: the status, on macOS the two permissions, then what can be done.
pub open spec fn entries(
    os: HostOs,
    model: MenuModel,
    perms: Permissions,
    autostart: bool,
) -> Seq<EntryView> {
    let status = seq![plain("status"@, model.status_text@, false)];
    let permissions = if os == HostOs::Macos {
        seq![
            plain("open_screen_prefs"@, screen_label(perms.screen), !perms.screen),
            plain("open_accessibility_prefs"@, input_label(perms.input), !perms.input),
        ]
    } else {
        Seq::empty()
    };
    status + permissions + seq![
        EntryView::Separator,
        plain("copy_pin"@, "Copy PIN"@, model.pin is Some),
        plain("end_session"@, "End session"@, model.can_end_session),
        EntryView::Separator,
        plain("open_log"@, "Open log"@, true),
        EntryView::Item {
            id: "autostart"@,
            text: "Start at login"@,
            enabled: true,
            checked: Some(autostart),
        },
        EntryView::Separator,
        plain("quit"@, "Quit rcdesk"@, true),
    ]
}

fn item(id: &'static str, text: &str, enabled: bool) -> (r: MenuEntry)
    ensures
        r@ == plain(id@, text@, enabled),
{
    MenuEntry::Item { id, text: text.to_owned(), enabled, checked: None }
}

/// Builds the menu. `autostart` tells whether the agent starts at login now.
pub fn menu_entries(os: HostOs, model: &MenuModel, perms: &Permissions, autostart: bool) -> (r: Vec<
    MenuEntry,
>)
    ensures
        r@.len() == entries(os, *model, *perms, autostart).len(),
        forall|i: int|
            0 <= i < r@.len() ==> (#[trigger] r@[i])@ == entries(os, *model, *perms, autostart)[i],
{
    let mut menu: Vec<MenuEntry> = Vec::new();
    menu.push(item("status", model.status_text.as_str(), false));
    if os == HostOs::Macos {
        menu.push(item("open_screen_prefs", screen_item_label(perms.screen), !perms.screen));
        menu.push(item("open_accessibility_prefs", input_item_label(perms.input), !perms.input));
    }
    menu.push(MenuEntry::Separator);
    menu.push(item("copy_pin", "Copy PIN", model.pin.is_some()));
    menu.push(item("end_session", "End session", model.can_end_session));
    menu.push(MenuEntry::Separator);
    menu.push(item("open_log", "Open log", true));
    menu.push(
        MenuEntry::Item {
            id: "autostart",
            text: String::from_str("Start at login"),
            enabled: true,
            checked: Some(autostart),
        },
    );
    menu.push(MenuEntry::Separator);
    menu.push(item("quit", "Quit rcdesk", true));
    menu
}

/// What a click asks for.
#[derive(Debug, Clone, PartialEq, Eq)]
pub enum MenuAction {
    CopyPin(String),
    EndSession,
    OpenLog,
    ToggleAutostart,
    /// Open this pane of the system's settings.
    OpenSettings(&'static str),
    Quit,
    Nothing,
}

/// An action as plain values.
pub ghost enum ActionView {
    CopyPin(Seq<char>),
    EndSession,
    OpenLog,
    ToggleAutostart,
    OpenSettings(Seq<char>),
    Quit,
    Nothing,
}

impl View for MenuAction {
    type V = ActionView;

    open spec fn view(&self) -> ActionView {
        match *self {
            MenuAction::CopyPin(pin) => ActionView::CopyPin(pin@),
            MenuAction::EndSession => ActionView::EndSession,
            MenuAction::OpenLog => ActionView::OpenLog,
            MenuAction::ToggleAutostart => ActionView::ToggleAutostart,
            MenuAction::OpenSettings(url) => ActionView::OpenSettings(url@),
            MenuAction::Quit => ActionView::Quit,
            MenuAction::Nothing => ActionView::Nothing,
        }
    }
}

/// What a click on the item `id` asks for while the tray shows `model`. Only
/// macOS has settings to open; an unknown id asks for nothing.
pub open spec fn action_of(os: HostOs, id: Seq<char>, model: MenuModel) -> ActionView {
    if id == "copy_pin"@ {
        match model.pin {
            Some(pin) => ActionView::CopyPin(pin@),
            None => ActionView::Nothing,
        }
    } else if id == "end_session"@ {
        ActionView::EndSession
    } else if id == "open_log"@ {
        ActionView::OpenLog
    } else if id == "autostart"@ {
        ActionView::ToggleAutostart
    } else if os == HostOs::Macos && id == "open_screen_prefs"@ {
        ActionView::OpenSettings(
            "x-apple.systempreferences:com.apple.preference.security?Privacy_ScreenCapture"@,
        )
    } else if os == HostOs::Macos && id == "open_accessibility_prefs"@ {
        ActionView::OpenSettings(
            "x-apple.systempreferences:com.apple.preference.security?Privacy_Accessibility"@,
        )
    } else if id == "quit"@ {
        ActionView::Quit
    } else {
        ActionView::Nothing
    }
}

/// Decides what a click does.
pub fn menu_action(os: HostOs, id: &str, model: &MenuModel) -> (r: MenuAction)
    ensures
        r@ == action_of(os, id@, *model),
{
    if str_eq(id, "copy_pin") {
        match &model.pin {
            Some(pin) => MenuAction::CopyPin(pin.as_str().to_owned()),
            None => MenuAction::Nothing,
        }
    } else if str_eq(id, "end_session") {
        MenuAction::EndSession
    } else if str_eq(id, "open_log") {
        MenuAction::OpenLog
    } else if str_eq(id, "autostart") {
        MenuAction::ToggleAutostart
    } else if os == HostOs::Macos && str_eq(id, "open_screen_prefs") {
        MenuAction::OpenSettings(
            "x-apple.systempreferences:com.apple.preference.security?Privacy_ScreenCapture",
        )
    } else if os == HostOs::Macos && str_eq(id, "open_accessibility_prefs") {
        MenuAction::OpenSettings(
            "x-apple.systempreferences:com.apple.preference.security?Privacy_Accessibility",
        )
    } else if str_eq(id, "quit") {
        MenuAction::Quit
    } else {
        MenuAction::Nothing
    }
}

/// The change to the registration that a click on "Start at login" asks for.
#[derive(Debug, Clone, PartialEq, Eq)]
pub enum AutostartChange {
    Enable(String),
    Disable,
}

/// What to change after a click on "Start at login" has left its mark
/// `checked`. Nothing can be changed while it is unknown where the agent lies.
pub fn toggle_autostart(agent: Option<&str>, checked: bool) -> (r: Option<AutostartChange>)
    ensures
        match agent {
            Some(path) => match r {
                Some(AutostartChange::Enable(p)) => checked && p@ == path@,
                Some(AutostartChange::Disable) => !checked,
                None => false,
            },
            None => r is None,
        },
{
    match agent {
        Some(path) => if checked {
            Some(AutostartChange::Enable(path.to_owned()))
        } else {
            Some(AutostartChange::Disable)
        },
        None => None,
    }
}

/// The mark to show: the registration as it is read back, so that a change that
/// failed leaves the mark as things are. Unchecked where it cannot be read.
pub fn autostart_checked(enabled: Option<bool>) -> (r: bool)
    ensures
        r == (enabled == Some(true)),
{
    match enabled {
        Some(on) => on,
        None => false,
    }
}

/// Label and state of the two permission items.
#[derive(Debug, Clone, Copy, PartialEq, Eq)]
pub struct PermissionItems {
    pub screen_text: &'static str,
    pub screen_enabled: bool,
    pub input_text: &'static str,
    pub input_enabled: bool,
}

/// What changes in the tray. A field that is `None` stays.
#[derive(Debug, Clone, PartialEq, Eq)]
pub struct TrayUpdate {
    pub status_text: Option<String>,
    pub tooltip: Option<String>,
    pub copy_pin: bool,
    pub end_session: bool,
    pub permissions: Option<PermissionItems>,
    pub icon: Option<IconState>,
    /// Whether to keep the system awake from now on.
    pub stay_awake: Option<bool>,
}

/// A text is set only where it differs.
pub open spec fn text_update(update: Option<String>, before: Seq<char>, after: Seq<char>) -> bool {
    match update {
        Some(text) => before != after && text@ == after,
        None => before == after,
    }
}

/// The two permission items show `perms`.
pub open spec fn shows_permissions(items: PermissionItems, perms: Permissions) -> bool {
    &&& items.screen_text@ == screen_label(perms.screen)
    &&& items.screen_enabled == !perms.screen
    &&& items.input_text@ == input_label(perms.input)
    &&& items.input_enabled == !perms.input
}

/// `update` takes the tray from showing `before` to showing `after`.
pub open spec fn updates(
    update: TrayUpdate,
    os: HostOs,
    before: MenuModel,
    after: MenuModel,
    perms: Permissions,
) -> bool {
    &&& text_update(update.status_text, before.status_text@, after.status_text@)
    &&& text_update(update.tooltip, before.tooltip@, after.tooltip@)
    &&& update.copy_pin == (after.pin is Some)
    &&& update.end_session == after.can_end_session
    &&& match update.permissions {
        Some(items) => os == HostOs::Macos && shows_permissions(items, perms),
        None => os != HostOs::Macos,
    }
    &&& update.icon == (if before.icon == after.icon {
        None
    } else {
        Some(after.icon)
    })
    &&& update.stay_awake == (if (before.icon == IconState::Session) == (after.icon
        == IconState::Session) {
        None
    } else {
        Some(after.icon == IconState::Session)
    })
}

fn changed_text(before: &String, after: &String) -> (r: Option<String>)
    ensures
        text_update(r, before@, after@),
{
    if str_eq(before.as_str(), after.as_str()) {
        None
    } else {
        Some(after.as_str().to_owned())
    }
}

/// The state of the main loop: what the tray shows, and when the permissions
/// were last probed.
pub struct Tray {
    pub os: HostOs,
    pub perms: Permissions,
    pub status: AgentStatus,
    pub model: MenuModel,
    pub last_perms_check: u64,
}

impl Tray {
    /// The tray shows the status and the permissions that it holds.
    pub open spec fn wf(&self) -> bool {
        crate::agent::menu::shows(self.model, self.status@, self.perms)
    }

    pub fn new(os: HostOs, status: AgentStatus, perms: Permissions, now: u64) -> (r: Self)
        ensures
            r.wf(),
            r.os == os,
            r.status == status,
            r.perms == perms,
            r.last_perms_check == now,
    {
        let model: MenuModel = menu_model(&status, &perms);
        Tray { os, perms, status, model, last_perms_check: now }
    }

    /// Whether the permissions are to be probed again.
    pub fn perms_due(&self, now: u64) -> (r: bool)
        ensures
            r == (now - self.last_perms_check >= 10_000_000_000),
    {
        now >= self.last_perms_check && now - self.last_perms_check >= PERMISSIONS_POLL_INTERVAL
    }

    /// Takes the current status, and the permissions where they were probed, and
    /// tells what to change in the tray: nothing where both are as before.
    pub fn observe(&mut self, status: AgentStatus, probed: Option<Permissions>, now: u64) -> (r:
        Option<TrayUpdate>)
        requires
            old(self).wf(),
        ensures
            final(self).wf(),
            final(self).os == old(self).os,
            final(self).status@ == status@,
            final(self).perms == (match probed {
                Some(p) => p,
                None => old(self).perms,
            }),
            final(self).last_perms_check == (if probed is Some {
                now
            } else {
                old(self).last_perms_check
            }),
            match r {
                Some(update) => {
                    &&& status@ != old(self).status@ || final(self).perms != old(self).perms
                    &&& updates(
                        update,
                        old(self).os,
                        old(self).model,
                        final(self).model,
                        final(self).perms,
                    )
                },
                None => {
                    &&& status@ == old(self).status@
                    &&& final(self).perms == old(self).perms
                    &&& final(self).model == old(self).model
                },
            },
    {
        let mut perms_changed: bool = false;
        if let Some(new_perms) = probed {
            self.last_perms_check = now;
            if new_perms != self.perms {
                self.perms = new_perms;
                perms_changed = true;
            }
        }
        if status.same_as(&self.status) && !perms_changed {
            return None;
        }
        let model: MenuModel = menu_model(&status, &self.perms);
        let now_in_session: bool = status.in_session();
        let was_in_session: bool = self.model.icon == IconState::Session;
        let update: TrayUpdate = TrayUpdate {
            status_text: changed_text(&self.model.status_text, &model.status_text),
            tooltip: changed_text(&self.model.tooltip, &model.tooltip),
            copy_pin: model.pin.is_some(),
            end_session: model.can_end_session,
            permissions: if self.os == HostOs::Macos {
                Some(
                    PermissionItems {
                        screen_text: screen_item_label(self.perms.screen),
                        screen_enabled: !self.perms.screen,
                        input_text: input_item_label(self.perms.input),
                        input_enabled: !self.perms.input,
                    },
                )
            } else {
                None
            },
            icon: if model.icon != self.model.icon {
                Some(model.icon)
            } else {
                None
            },
            stay_awake: if now_in_session != was_in_session {
                Some(now_in_session)
            } else {
                None
            },
        };
        self.model = model;
        self.status = status;
        Some(update)
    }
}

/// How long to sleep before looking again whether the session has ended, on the
/// way out; `None` to quit now. A session that was asked to end at `since` gets
/// a second.
pub fn quit_wait(status: &AgentStatus, since: u64, now: u64) -> (r: Option<u64>)
    ensures
        r == (if status@ is InSession && now - since < 1_000_000_000 {
            Some(20_000_000u64)
        } else {
            None
        }),
{
    if status.in_session() && (now < since || now - since < QUIT_WAIT) {
        Some(QUIT_POLL)
    } else {
        None
    }
}

/// Every item that can be clicked does something, and the status cannot be.
pub proof fn law_enabled_items_act(
    os: HostOs,
    model: MenuModel,
    perms: Permissions,
    autostart: bool,
    i: int,
)
    requires
        0 <= i < entries(os, model, perms, autostart).len(),
    ensures
        entries(os, model, perms, autostart)[i] matches EntryView::Item { id, enabled, .. } ==> (
        enabled ==> !(action_of(os, id, model) is Nothing)),
        entries(os, model, perms, autostart)[0] == plain("status"@, model.status_text@, false),
{
    reveal_strlit("status");
    reveal_strlit("copy_pin");
    reveal_strlit("end_session");
    reveal_strlit("open_log");
    reveal_strlit("autostart");
    reveal_strlit("open_screen_prefs");
    reveal_strlit("open_accessibility_prefs");
    reveal_strlit("quit");
    assert("copy_pin"@[0] == 'c' && "open_log"@[0] == 'o');
    assert("copy_pin"@.len() == 8 && "end_session"@.len() == 11 && "autostart"@.len() == 9);
    assert("open_screen_prefs"@.len() == 17 && "open_accessibility_prefs"@.len() == 24);
    assert("quit"@.len() == 4);
    let all = entries(os, model, perms, autostart);
    let n = if os == HostOs::Macos {
        3int
    } else {
        1int
    };
    assert(all.len() == n + 8);
    assert(all[n + 1] == plain("copy_pin"@, "Copy PIN"@, model.pin is Some));
    assert(all[n + 2] == plain("end_session"@, "End session"@, model.can_end_session));
    assert(all[n + 4] == plain("open_log"@, "Open log"@, true));
    assert(all[n + 7] == plain("quit"@, "Quit rcdesk"@, true));
    assert(i < n || i == n || i == n + 1 || i == n + 2 || i == n + 3 || i == n + 4 || i == n + 5
        || i == n + 6 || i == n + 7);
}

/// The system is kept awake during a session and only then: if it is so before
/// an update, it is so after it.
pub proof fn law_awake_during_sessions(
    update: TrayUpdate,
    os: HostOs,
    before: MenuModel,
    after: MenuModel,
    perms: Permissions,
    awake: bool,
)
    requires
        updates(update, os, before, after, perms),
        awake == (before.icon == IconState::Session),
    ensures
        (match update.stay_awake {
            Some(on) => on,
            None => awake,
        }) == (after.icon == IconState::Session),
{
}

/// Nothing is asked of the tray twice: an update for what it shows already sets
/// no text and no icon and leaves sleep alone.
pub proof fn law_updates_are_differences(
    update: TrayUpdate,
    os: HostOs,
    model: MenuModel,
    perms: Permissions,
)
    requires
        updates(update, os, model, model, perms),
    ensures
        update.status_text is None,
        update.tooltip is None,
        update.icon is None,
        update.stay_awake is None,
{
}

/// What an update leaves is what it was made for: texts and icon as they are to
/// be, the two session items enabled where they can act, and on macOS, and only
/// there, each permission item enabled where the permission is missing.
pub proof fn law_an_update_brings_the_tray_up_to_date(
    update: TrayUpdate,
    os: HostOs,
    before: MenuModel,
    after: MenuModel,
    perms: Permissions,
)
    requires
        updates(update, os, before, after, perms),
    ensures
        (match update.status_text {
            Some(text) => text@,
            None => before.status_text@,
        }) == after.status_text@,
        (match update.tooltip {
            Some(text) => text@,
            None => before.tooltip@,
        }) == after.tooltip@,
        (match update.icon {
            Some(icon) => icon,
            None => before.icon,
        }) == after.icon,
        update.copy_pin <==> after.pin is Some,
        update.end_session <==> after.can_end_session,
        update.permissions is Some <==> os == HostOs::Macos,
        update.permissions matches Some(items) ==> items.screen_enabled == !perms.screen
            && items.input_enabled == !perms.input,
{
}

/// The menu offers each thing once and enables what can be done: copying a PIN
/// where there is one, ending a session where there is one; the log, the start at
/// login, marked as it is, and quitting always. Permissions are for macOS only,
/// and can be asked for where they are missing.
pub proof fn law_the_menu_offers_what_can_be_done(
    os: HostOs,
    model: MenuModel,
    perms: Permissions,
    autostart: bool,
)
    ensures
        ({
            let menu = entries(os, model, perms, autostart);
            let mac = os == HostOs::Macos;
            &&& menu.len() == if mac {
                11nat
            } else {
                9nat
            }
            &&& menu.contains(plain("copy_pin"@, "Copy PIN"@, model.pin is Some))
            &&& menu.contains(plain("end_session"@, "End session"@, model.can_end_session))
            &&& menu.contains(plain("open_log"@, "Open log"@, true))
            &&& menu.contains(plain("quit"@, "Quit rcdesk"@, true))
            &&& menu.contains(
                EntryView::Item {
                    id: "autostart"@,
                    text: "Start at login"@,
                    enabled: true,
                    checked: Some(autostart),
                },
            )
            &&& mac ==> (menu[1] matches EntryView::Item { id, enabled, .. } && id
                == "open_screen_prefs"@ && enabled == !perms.screen)
            &&& mac ==> (menu[2] matches EntryView::Item { id, enabled, .. } && id
                == "open_accessibility_prefs"@ && enabled == !perms.input)
        }),
{
    let menu = entries(os, model, perms, autostart);
    let n = if os == HostOs::Macos {
        3int
    } else {
        1int
    };
    assert(menu[n + 1] == plain("copy_pin"@, "Copy PIN"@, model.pin is Some));
    assert(menu[n + 2] == plain("end_session"@, "End session"@, model.can_end_session));
    assert(menu[n + 4] == plain("open_log"@, "Open log"@, true));
    assert(menu[n + 5] == EntryView::Item {
        id: "autostart"@,
        text: "Start at login"@,
        enabled: true,
        checked: Some(autostart),
    });
    assert(menu[n + 7] == plain("quit"@, "Quit rcdesk"@, true));
}

/// A click does what its item says. The PIN that is copied is the one that is
/// shown, and nothing is copied where there is none.
pub proof fn law_clicks_do_what_the_items_say(os: HostOs, model: MenuModel)
    ensures
        model.pin matches Some(pin) ==> action_of(os, "copy_pin"@, model) == ActionView::CopyPin(
            pin@,
        ),
        model.pin is None ==> action_of(os, "copy_pin"@, model) is Nothing,
        action_of(os, "end_session"@, model) is EndSession,
        action_of(os, "open_log"@, model) is OpenLog,
        action_of(os, "autostart"@, model) is ToggleAutostart,
        action_of(os, "quit"@, model) is Quit,
        action_of(os, "status"@, model) is Nothing,
        os == HostOs::Macos <==> action_of(os, "open_screen_prefs"@, model) is OpenSettings,
        os == HostOs::Macos <==> action_of(os, "open_accessibility_prefs"@, model) is OpenSettings,
        os == HostOs::Macos ==> action_of(os, "open_screen_prefs"@, model) != action_of(
            os,
            "open_accessibility_prefs"@,
            model,
        ),
{
    reveal_strlit("status");
    reveal_strlit("copy_pin");
    reveal_strlit("end_session");
    reveal_strlit("open_log");
    reveal_strlit("autostart");
    reveal_strlit("open_screen_prefs");
    reveal_strlit("open_accessibility_prefs");
    reveal_strlit("quit");
    reveal_strlit("x-apple.systempreferences:com.apple.preference.security?Privacy_ScreenCapture");
    reveal_strlit("x-apple.systempreferences:com.apple.preference.security?Privacy_Accessibility");
    assert("copy_pin"@[0] == 'c' && "open_log"@[0] == 'o');
    assert("status"@.len() == 6 && "copy_pin"@.len() == 8 && "end_session"@.len() == 11);
    assert("autostart"@.len() == 9 && "quit"@.len() == 4 && "open_log"@.len() == 8);
    assert("open_screen_prefs"@.len() == 17 && "open_accessibility_prefs"@.len() == 24);
    let screen =
        "x-apple.systempreferences:com.apple.preference.security?Privacy_ScreenCapture"@;
    let access =
        "x-apple.systempreferences:com.apple.preference.security?Privacy_Accessibility"@;
    assert(screen[screen.len() - 1] == 'e' && access[access.len() - 1] == 'y');
}

} // verus!
