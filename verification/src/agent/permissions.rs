//! Whether the system lets a session capture the screen and inject input.

use vstd::prelude::*;

use crate::proto::HostOs;

verus! {

/// What a new session would be able to do.
#[derive(Debug, Clone, Copy, PartialEq, Eq, Structural)]
pub struct Permissions {
    pub screen: bool,
    pub input: bool,
}

/// Only macOS gates these; there, `screen` and `input` are what it answers.
/// Elsewhere both are granted.
pub fn probe_permissions(os: HostOs, screen: bool, input: bool) -> (r: Permissions)
    ensures
        r == (if os == HostOs::Macos {
            Permissions { screen, input }
        } else {
            Permissions { screen: true, input: true }
        }),
{
    if os == HostOs::Macos {
        Permissions { screen, input }
    } else {
        Permissions { screen: true, input: true }
    }
}

} // verus!
