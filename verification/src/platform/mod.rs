//! What differs between the platforms.

use vstd::prelude::*;

use crate::proto::HostOs;
use crate::text::{is_empty, str_eq};

pub mod macos;
pub mod other;
pub mod windows;

verus! {

/// The platform by the name that Rust gives it.
pub fn host_os(target_os: &str) -> (r: HostOs)
    ensures
        r == (if target_os@ == "macos"@ {
            HostOs::Macos
        } else if target_os@ == "windows"@ {
            HostOs::Windows
        } else {
            HostOs::Other
        }),
{
    if str_eq(target_os, "macos") {
        HostOs::Macos
    } else if str_eq(target_os, "windows") {
        HostOs::Windows
    } else {
        HostOs::Other
    }
}

/// The name of a platform in logs.
pub fn name(os: HostOs) -> (r: &'static str)
    ensures
        match os {
            HostOs::Macos => r == "macos",
            HostOs::Windows => r == "windows",
            HostOs::Other => r == "other",
        },
{
    match os {
        HostOs::Macos => "macos",
        HostOs::Windows => "windows",
        HostOs::Other => "other",
    }
}

/// The computer's name as its owner knows it. `reported` is what the system
/// says: the localized name of the host on macOS, `%COMPUTERNAME%` on Windows
/// and `$HOSTNAME` elsewhere. An empty name is none.
pub fn computer_name(reported: Option<String>) -> (r: Option<String>)
    ensures
        r == (match reported {
            Some(name) => if name@.len() == 0 {
                None
            } else {
                Some(name)
            },
            None => None,
        }),
{
    match reported {
        Some(name) => if is_empty(name.as_str()) {
            None
        } else {
            Some(name)
        },
        None => None,
    }
}

} // verus!
