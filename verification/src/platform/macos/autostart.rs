//! Start at login through a LaunchAgent: a property list in a directory of the
//! user's, which takes effect at the next login.

use vstd::prelude::*;

use crate::agent::autostart::{generate_plist, parse_program_arguments_path};
use crate::fsutil::{removed, Removal};
use crate::text::{join_path, str_eq};

verus! {

pub const PLIST_FILE_NAME: &'static str = "app.rcdesk.agent.plist";

/// Where LaunchAgents lie below the home directory, or below the current one
/// where no home directory is known.
pub fn launch_agents_dir(home: Option<&str>) -> (r: String)
    ensures
        r@ == crate::text::joined(
            false,
            match home {
                Some(dir) => dir@,
                None => "."@,
            },
            "Library/LaunchAgents"@,
        ),
{
    match home {
        Some(dir) => join_path(false, dir, "Library/LaunchAgents"),
        None => join_path(false, ".", "Library/LaunchAgents"),
    }
}

/// The property list in that directory.
pub fn plist_path(dir: &str) -> (r: String)
    ensures
        r@ == crate::text::joined(false, dir@, PLIST_FILE_NAME@),
{
    join_path(false, dir, PLIST_FILE_NAME)
}

/// What reading the property list came to.
#[derive(Debug, Clone, PartialEq, Eq)]
pub enum StoredPlist {
    Missing,
    Text(String),
    Failed(String),
}

/// The stored property list launches this very agent. One for another path
/// counts as none.
pub open spec fn launches(stored: StoredPlist, agent: Seq<char>) -> bool {
    stored matches StoredPlist::Text(xml) && crate::agent::autostart::program_of(xml@) == Some(
        agent,
    )
}

/// Whether the agent starts at login.
pub fn is_enabled(agent: &str, stored: StoredPlist) -> (r: Result<bool, String>)
    ensures
        match stored {
            StoredPlist::Failed(err) => r == Err::<bool, String>(err),
            _ => r == Ok::<bool, String>(launches(stored, agent@)),
        },
{
    match stored {
        StoredPlist::Missing => Ok(false),
        StoredPlist::Failed(err) => Err(err),
        StoredPlist::Text(xml) => match parse_program_arguments_path(xml.as_str()) {
            Some(path) => Ok(str_eq(path.as_str(), agent)),
            None => Ok(false),
        },
    }
}

/// What to write so that the agent starts at login.
pub fn enable(agent: &str) -> (r: String)
    ensures
        r@ == crate::agent::autostart::plist(agent@),
{
    generate_plist(agent)
}

/// Whether the agent no longer starts at login, from what removing the property
/// list came to.
pub fn disable(outcome: Removal) -> (r: Result<(), String>)
    ensures
        match outcome {
            Removal::Failed(err) => r == Err::<(), String>(err),
            _ => r is Ok,
        },
{
    removed(outcome)
}

/// Once enabled it reads as enabled, for this agent and for no other.
pub proof fn law_enabled_is_enabled(written: String, agent: Seq<char>, other: Seq<char>)
    requires
        written@ == crate::agent::autostart::plist(agent),
    ensures
        launches(StoredPlist::Text(written), other) == (other == agent),
{
    crate::agent::autostart::law_plist_round_trips(agent);
}

} // verus!
