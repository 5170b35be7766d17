//! What the tray menu shows for a status and a set of permissions.

use vstd::prelude::*;

use crate::agent::icon::IconState;
use crate::agent::permissions::Permissions;
use crate::proto::{AgentStatus, StatusView};
use crate::text::{chars_of, concat, concat3, decimal_of, string_of};

verus! {

/// Everything the tray shows.
#[derive(Debug, Clone, PartialEq, Eq)]
pub struct MenuModel {
    /// The text of the status item.
    pub status_text: String,
    pub tooltip: String,
    /// The PIN as the server gave it, for "Copy PIN".
    pub pin: Option<String>,
    pub can_end_session: bool,
    pub icon: IconState,
    /// One item each.
    pub warnings: Vec<String>,
}

/// Six digits, as the server gives them out.
pub open spec fn is_six_digits(pin: Seq<char>) -> bool {
    &&& pin.len() == 6
    &&& forall|i: int| 0 <= i < 6 ==> '0' <= #[trigger] pin[i] && pin[i] <= '9'
}

/// A PIN of six digits in two groups of three; any other as it is.
pub open spec fn spaced_pin(pin: Seq<char>) -> Seq<char> {
    if is_six_digits(pin) {
        pin.take(3) + " "@ + pin.skip(3)
    } else {
        pin
    }
}

/// Splits a PIN of six digits in two for display.
pub fn format_pin(pin: &str) -> (r: String)
    ensures
        r@ == spaced_pin(pin@),
{
    let chars: Vec<char> = chars_of(pin);
    if chars.len() != 6 {
        return pin.to_owned();
    }
    let mut i: usize = 0;
    while i < 6
        invariant
            chars@ == pin@,
            chars@.len() == 6,
            i <= 6,
            forall|j: int| 0 <= j < i ==> '0' <= #[trigger] pin@[j] && pin@[j] <= '9',
        decreases 6 - i,
    {
        if chars[i] < '0' || chars[i] > '9' {
            return pin.to_owned();
        }
        i = i + 1;
    }
    let head: &[char] = vstd::slice::slice_subrange(chars.as_slice(), 0, 3);
    let tail: &[char] = vstd::slice::slice_subrange(chars.as_slice(), 3, 6);
    assert(head@ =~= pin@.take(3));
    assert(tail@ =~= pin@.skip(3));
    let head: String = string_of(head);
    let tail: String = string_of(tail);
    concat3(head.as_str(), " ", tail.as_str())
}

/// The status as the menu words it.
pub open spec fn status_text_of(status: StatusView) -> Seq<char> {
    match status {
        StatusView::Connecting => "Connecting…"@,
        StatusView::Registered { pin } => "PIN "@ + spaced_pin(pin),
        StatusView::InSession { pin } => "Session active · PIN "@ + spaced_pin(pin),
        StatusView::Reconnecting { retry_in, .. } => "Offline — retrying in "@
            + crate::text::decimal((retry_in / 1_000_000_000) as nat) + "s"@,
    }
}

/// The PIN there is to copy.
pub open spec fn pin_of(status: StatusView) -> Option<Seq<char>> {
    match status {
        StatusView::Registered { pin } => Some(pin),
        StatusView::InSession { pin } => Some(pin),
        _ => None,
    }
}

/// The icon of a status.
pub open spec fn icon_of(status: StatusView) -> IconState {
    match status {
        StatusView::Connecting => IconState::Idle,
        StatusView::Registered { .. } => IconState::Idle,
        StatusView::InSession { .. } => IconState::Session,
        StatusView::Reconnecting { .. } => IconState::Offline,
    }
}

/// A warning for each permission that is missing.
pub open spec fn warnings_of(perms: Permissions) -> Seq<Seq<char>> {
    let screen = if perms.screen {
        Seq::empty()
    } else {
        seq!["Screen Recording permission is required"@]
    };
    let input = if perms.input {
        Seq::empty()
    } else {
        seq!["Accessibility permission is required for mouse and keyboard control"@]
    };
    screen + input
}

/// `m` shows this status and these permissions.
pub open spec fn shows(m: MenuModel, status: StatusView, perms: Permissions) -> bool {
    &&& m.status_text@ == status_text_of(status)
    &&& m.tooltip@ == "rcdesk — "@ + status_text_of(status)
    &&& crate::text::chars_if_any(m.pin) == pin_of(status)
    &&& m.can_end_session == (status is InSession)
    &&& m.icon == icon_of(status)
    &&& m.warnings@.len() == warnings_of(perms).len()
    &&& forall|i: int|
        0 <= i < m.warnings@.len() ==> (#[trigger] m.warnings@[i])@ == warnings_of(perms)[i]
}

/// Builds what the tray shows.
pub fn menu_model(status: &AgentStatus, perms: &Permissions) -> (r: MenuModel)
    ensures
        shows(r, status@, *perms),
{
    let status_text: String = match status {
        AgentStatus::Connecting => String::from_str("Connecting…"),
        AgentStatus::Registered { pin } => {
            let shown: String = format_pin(pin.as_str());
            concat("PIN ", shown.as_str())
        },
        AgentStatus::InSession { pin } => {
            let shown: String = format_pin(pin.as_str());
            concat("Session active · PIN ", shown.as_str())
        },
        AgentStatus::Reconnecting { retry_in, .. } => {
            let secs: String = decimal_of(*retry_in / 1_000_000_000);
            concat3("Offline — retrying in ", secs.as_str(), "s")
        },
    };
    let pin: Option<String> = match status {
        AgentStatus::Registered { pin } => Some(pin.as_str().to_owned()),
        AgentStatus::InSession { pin } => Some(pin.as_str().to_owned()),
        _ => None,
    };
    let icon: IconState = match status {
        AgentStatus::Connecting => IconState::Idle,
        AgentStatus::Registered { .. } => IconState::Idle,
        AgentStatus::InSession { .. } => IconState::Session,
        AgentStatus::Reconnecting { .. } => IconState::Offline,
    };
    let can_end_session: bool = match status {
        AgentStatus::InSession { .. } => true,
        _ => false,
    };
    let mut warnings: Vec<String> = Vec::new();
    if !perms.screen {
        warnings.push(String::from_str("Screen Recording permission is required"));
    }
    if !perms.input {
        warnings.push(
            String::from_str("Accessibility permission is required for mouse and keyboard control"),
        );
    }
    MenuModel {
        tooltip: concat("rcdesk — ", status_text.as_str()),
        status_text,
        pin,
        can_end_session,
        icon,
        warnings,
    }
}

/// The space is all that is added: without it what is shown of six digits is the
/// PIN again.
pub proof fn law_spacing_keeps_the_digits(pin: Seq<char>)
    requires
        is_six_digits(pin),
    ensures
        spaced_pin(pin).len() == 7,
        spaced_pin(pin)[3] == ' ',
        spaced_pin(pin).remove(3) == pin,
{
    reveal_strlit(" ");
    assert(spaced_pin(pin).remove(3) =~= pin);
}

/// The tray tells the truth: it shows a session exactly while there is one, which
/// is also when one can be ended; it shows the host offline exactly while it
/// reconnects; and it has a PIN to copy, the server's own, exactly while the host
/// is registered.
pub proof fn law_the_tray_tells_the_truth(m: MenuModel, status: StatusView, perms: Permissions)
    requires
        shows(m, status, perms),
    ensures
        m.icon == IconState::Session <==> status is InSession,
        m.icon == IconState::Offline <==> status is Reconnecting,
        m.can_end_session <==> status is InSession,
        m.pin is Some <==> status is Registered || status is InSession,
        status matches StatusView::Registered { pin } ==> m.pin->0@ == pin,
        status matches StatusView::InSession { pin } ==> m.pin->0@ == pin,
        m.tooltip@.skip("rcdesk — "@.len() as int) == m.status_text@,
{
    assert(m.tooltip@.skip("rcdesk — "@.len() as int) =~= m.status_text@);
}

/// What is shown ends with what the owner needs: the PIN while the host is
/// registered, and the whole seconds that are left while it waits.
pub proof fn law_the_status_names_pin_and_delay(m: MenuModel, status: StatusView, perms: Permissions)
    requires
        shows(m, status, perms),
    ensures
        status matches StatusView::Registered { pin } ==> {
            let shown = spaced_pin(pin);
            m.status_text@ == "PIN "@ + shown
        },
        status matches StatusView::InSession { pin } ==> {
            let shown = spaced_pin(pin);
            m.status_text@.len() >= shown.len() && m.status_text@.skip(
                m.status_text@.len() - shown.len(),
            ) == shown
        },
        status matches StatusView::Reconnecting { retry_in, .. } ==> {
            let secs = retry_in as int / 1_000_000_000;
            m.status_text@ == "Offline — retrying in "@ + crate::text::decimal(secs as nat) + "s"@
        },
{
    if let StatusView::InSession { pin } = status {
        let shown = spaced_pin(pin);
        assert(m.status_text@.skip(m.status_text@.len() - shown.len()) =~= shown);
    }
}

/// Six digits are split in two, and nothing else is touched.
pub proof fn law_only_six_digits_are_split(pin: Seq<char>)
    ensures
        spaced_pin(pin) != pin <==> pin.len() == 6 && forall|i: int|
            0 <= i < 6 ==> '0' <= #[trigger] pin[i] && pin[i] <= '9',
        spaced_pin(pin).len() == pin.len() || spaced_pin(pin).len() == pin.len() + 1,
{
    reveal_strlit(" ");
    if is_six_digits(pin) {
        assert(spaced_pin(pin).len() == 7);
    }
}

/// There is a warning for each permission that is missing and none for one that
/// is granted, the screen's first.
pub proof fn law_missing_permissions_are_told(m: MenuModel, status: StatusView, perms: Permissions)
    requires
        shows(m, status, perms),
    ensures
        perms.screen && perms.input ==> m.warnings@.len() == 0,
        !perms.screen && !perms.input ==> m.warnings@.len() == 2,
        perms.screen != perms.input ==> m.warnings@.len() == 1,
        !perms.screen ==> m.warnings@[0]@ == "Screen Recording permission is required"@,
        !perms.input ==> m.warnings@[m.warnings@.len() - 1]@
            == "Accessibility permission is required for mouse and keyboard control"@,
{
}

} // verus!
