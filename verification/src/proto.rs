//! Vocabulary shared with the other end of a session.

use vstd::prelude::*;

use crate::text::str_eq;

verus! {

/// What the viewer asked the picture to favour.
#[derive(Debug, Clone, Copy, PartialEq, Eq, Structural)]
pub enum QualityPreset {
    Auto,
    Sharp,
    Smooth,
}

/// The platform a host runs on.
#[derive(Debug, Clone, Copy, PartialEq, Eq, Structural)]
pub enum HostOs {
    Macos,
    Windows,
    Other,
}

/// A mouse button.
#[derive(Debug, Clone, Copy, PartialEq, Eq, Structural)]
pub enum PointerButton {
    Left,
    Middle,
    Right,
    Back,
    Forward,
}

/// One whole in the fixed-point unit of pointer coordinates and scroll amounts.
pub const COORD_ONE: i64 = 0x1_0000_0000;

/// Input from the viewer. Coordinates are shares of the captured display, and
/// they and scroll amounts (in lines) count in units of `1 / COORD_ONE`.
#[derive(Debug, Clone)]
pub enum InputMessage {
    PointerMove { x: i64, y: i64 },
    PointerButton { button: PointerButton, pressed: bool, x: i64, y: i64 },
    Wheel { dx: i64, dy: i64, x: i64, y: i64 },
    /// `code` is a `KeyboardEvent.code`.
    Key { code: String, pressed: bool },
    /// Let go of everything held.
    ReleaseAll,
    /// The viewer's clipboard; the session applies it before any input.
    ClipboardText { text: String },
}

/// What the agent is doing.
#[derive(Debug, Clone, PartialEq, Eq)]
pub enum AgentStatus {
    Connecting,
    /// Registered with the signaling server, which gave it `pin`.
    Registered { pin: String },
    InSession { pin: String },
    /// Not connected; tries again in `retry_in` nanoseconds.
    Reconnecting { error: String, retry_in: u64 },
}

/// A status as plain values.
pub ghost enum StatusView {
    Connecting,
    Registered { pin: Seq<char> },
    InSession { pin: Seq<char> },
    Reconnecting { error: Seq<char>, retry_in: u64 },
}

impl View for AgentStatus {
    type V = StatusView;

    open spec fn view(&self) -> StatusView {
        match *self {
            AgentStatus::Connecting => StatusView::Connecting,
            AgentStatus::Registered { pin } => StatusView::Registered { pin: pin@ },
            AgentStatus::InSession { pin } => StatusView::InSession { pin: pin@ },
            AgentStatus::Reconnecting { error, retry_in } => StatusView::Reconnecting {
                error: error@,
                retry_in,
            },
        }
    }
}

impl AgentStatus {
    /// Whether a session is active.
    pub fn in_session(&self) -> (r: bool)
        ensures
            r == (self@ is InSession),
    {
        match self {
            AgentStatus::InSession { .. } => true,
            _ => false,
        }
    }

    /// Whether two statuses say the same.
    pub fn same_as(&self, other: &AgentStatus) -> (r: bool)
        ensures
            r == (self@ == other@),
    {
        match (self, other) {
            (AgentStatus::Connecting, AgentStatus::Connecting) => true,
            (AgentStatus::Registered { pin: a }, AgentStatus::Registered { pin: b }) => str_eq(
                a.as_str(),
                b.as_str(),
            ),
            (AgentStatus::InSession { pin: a }, AgentStatus::InSession { pin: b }) => str_eq(
                a.as_str(),
                b.as_str(),
            ),
            (
                AgentStatus::Reconnecting { error: a, retry_in: s },
                AgentStatus::Reconnecting { error: b, retry_in: t },
            ) => *s == *t && str_eq(a.as_str(), b.as_str()),
            _ => false,
        }
    }
}

/// A STUN or TURN server.
#[derive(Debug, Clone, PartialEq, Eq)]
pub struct IceServer {
    pub urls: Vec<String>,
    pub username: Option<String>,
    pub credential: Option<String>,
}

/// Two statuses that say the same are of the same kind, with the same PIN, error
/// and delay.
pub proof fn law_statuses_leave_nothing_out(a: AgentStatus, b: AgentStatus)
    ensures
        (a@ == b@) == match (a, b) {
            (AgentStatus::Connecting, AgentStatus::Connecting) => true,
            (AgentStatus::Registered { pin: p }, AgentStatus::Registered { pin: q }) => p@ == q@,
            (AgentStatus::InSession { pin: p }, AgentStatus::InSession { pin: q }) => p@ == q@,
            (
                AgentStatus::Reconnecting { error: p, retry_in: s },
                AgentStatus::Reconnecting { error: q, retry_in: t },
            ) => p@ == q@ && s == t,
            _ => false,
        },
{
}

} // verus!
