//! Start at login through a value of the user's `Run` key in the registry.

use vstd::prelude::*;

use super::wide::{from_registry, wide_bytes, wide_null};
use crate::agent::autostart::{format_run_value, run_value_matches, RUN_VALUE_NAME};

verus! {

/// The key below the current user's root.
pub const RUN_SUBKEY: &'static str = "Software\\Microsoft\\Windows\\CurrentVersion\\Run";

/// What a call of the registry came to, by its code.
#[derive(Debug, Clone, Copy, PartialEq, Eq, Structural)]
pub enum Outcome {
    Done,
    /// There is no such key or value.
    NotFound,
    Failed(u32),
}

/// Code 0 is success and code 2 says that something is not there.
pub fn outcome_of(code: u32) -> (r: Outcome)
    ensures
        r == (if code == 0 {
            Outcome::Done
        } else if code == 2 {
            Outcome::NotFound
        } else {
            Outcome::Failed(code)
        }),
{
    if code == 0 {
        Outcome::Done
    } else if code == 2 {
        Outcome::NotFound
    } else {
        Outcome::Failed(code)
    }
}

/// A call of the registry that failed, with its code.
#[derive(Debug, Clone, Copy, PartialEq, Eq, Structural)]
pub enum RunFailure {
    /// Asking for the length of the value.
    Size(u32),
    /// Reading the value.
    Read(u32),
    /// Opening the key.
    Open(u32),
    Store(u32),
    Close(u32),
    Delete(u32),
}

impl RunFailure {
    pub fn context(&self) -> (r: &'static str)
        ensures
            r == match *self {
                RunFailure::Size(_) => "RegGetValueW (size query) failed",
                RunFailure::Read(_) => "RegGetValueW failed",
                RunFailure::Open(_) => "RegOpenKeyExW(...CurrentVersion\\Run) failed",
                RunFailure::Store(_) => "RegSetValueExW(rcdesk) failed",
                RunFailure::Close(_) => "RegCloseKey failed",
                RunFailure::Delete(_) => "RegDeleteKeyValueW(rcdesk) failed",
            },
    {
        match self {
            RunFailure::Size(_) => "RegGetValueW (size query) failed",
            RunFailure::Read(_) => "RegGetValueW failed",
            RunFailure::Open(_) => "RegOpenKeyExW(...CurrentVersion\\Run) failed",
            RunFailure::Store(_) => "RegSetValueExW(rcdesk) failed",
            RunFailure::Close(_) => "RegCloseKey failed",
            RunFailure::Delete(_) => "RegDeleteKeyValueW(rcdesk) failed",
        }
    }
}

/// What reading the value came to: first its length is asked for, and where
/// there is any, that many bytes are read.
#[derive(Debug, Clone, PartialEq, Eq)]
pub struct RunRead {
    pub size_code: u32,
    pub byte_len: u32,
    pub read_code: u32,
    pub buffer: Vec<u8>,
    /// How many bytes of the buffer were filled.
    pub actual_len: u32,
}

/// Whether there are bytes to read, once the length was asked for.
pub fn has_bytes(size_code: u32, byte_len: u32) -> (r: bool)
    ensures
        r == (size_code == 0 && byte_len > 0),
{
    size_code == 0 && byte_len > 0
}

/// The stored command. A value or key that is not there, before the length is
/// asked for or after it, is no failure.
pub fn read_run_value(read: &RunRead) -> (r: Result<Option<String>, RunFailure>)
    ensures
        if read.size_code == 2 {
            r == Ok::<Option<String>, RunFailure>(None)
        } else if read.size_code != 0 {
            r == Err::<Option<String>, RunFailure>(RunFailure::Size(read.size_code))
        } else if read.byte_len == 0 {
            r matches Ok(Some(text)) && text@.len() == 0
        } else if read.read_code == 2 {
            r == Ok::<Option<String>, RunFailure>(None)
        } else if read.read_code != 0 {
            r == Err::<Option<String>, RunFailure>(RunFailure::Read(read.read_code))
        } else {
            r matches Ok(Some(text)) && text@ == super::wide::registry_text(
                if read.actual_len < read.buffer@.len() {
                    read.buffer@.take(read.actual_len as int)
                } else {
                    read.buffer@
                },
            )
        },
{
    match outcome_of(read.size_code) {
        Outcome::Done => {},
        Outcome::NotFound => return Ok(None),
        Outcome::Failed(code) => return Err(RunFailure::Size(code)),
    }
    if !has_bytes(read.size_code, read.byte_len) {
        return Ok(Some(String::new()));
    }
    match outcome_of(read.read_code) {
        Outcome::Done => Ok(Some(from_registry(read.buffer.as_slice(), read.actual_len))),
        Outcome::NotFound => Ok(None),
        Outcome::Failed(code) => Err(RunFailure::Read(code)),
    }
}

/// Whether the agent starts at login. `stored` is the value of the `Run` key,
/// where there is one.
pub fn is_enabled(agent: &str, stored: Option<&str>) -> (r: bool)
    ensures
        r == (stored matches Some(value) && crate::text::lowercase(value@)
            == crate::text::lowercase(crate::agent::autostart::run_value(agent@))),
{
    match stored {
        Some(value) => run_value_matches(value, agent),
        None => false,
    }
}

/// What to store, and where, in the form that the registry takes.
#[derive(Debug, Clone, PartialEq, Eq)]
pub struct RunEntry {
    pub subkey: Vec<u16>,
    pub value_name: Vec<u16>,
    pub data: Vec<u8>,
}

/// What to store so that the agent starts at login.
pub fn enable(agent: &str) -> (r: RunEntry)
    ensures
        r.subkey@ == super::wide::utf16(RUN_SUBKEY@).push(0),
        r.value_name@ == super::wide::utf16(RUN_VALUE_NAME@).push(0),
        r.data@ == super::wide::bytes_of_units(
            super::wide::utf16(crate::agent::autostart::run_value(agent@)).push(0),
        ),
{
    let value: String = format_run_value(agent);
    let wide_value: Vec<u16> = wide_null(value.as_str());
    RunEntry {
        subkey: wide_null(RUN_SUBKEY),
        value_name: wide_null(RUN_VALUE_NAME),
        data: wide_bytes(wide_value.as_slice()),
    }
}

/// Whether the value was stored, from the codes of the calls that open the key,
/// set the value and close the key. An opened key is closed whether or not the
/// value could be set; that it could not be is the more telling failure.
pub fn stored(opened: u32, set: u32, closed: u32) -> (r: Result<(), RunFailure>)
    ensures
        r == (if opened != 0 {
            Err::<(), RunFailure>(RunFailure::Open(opened))
        } else if set != 0 {
            Err::<(), RunFailure>(RunFailure::Store(set))
        } else if closed != 0 {
            Err::<(), RunFailure>(RunFailure::Close(closed))
        } else {
            Ok::<(), RunFailure>(())
        }),
{
    if opened != 0 {
        Err(RunFailure::Open(opened))
    } else if set != 0 {
        Err(RunFailure::Store(set))
    } else if closed != 0 {
        Err(RunFailure::Close(closed))
    } else {
        Ok(())
    }
}

/// Whether the agent no longer starts at login, from the code of the call that
/// deletes the value. One that was not there needs no deleting.
pub fn disable(code: u32) -> (r: Result<(), RunFailure>)
    ensures
        r == (if code == 0 || code == 2 {
            Ok::<(), RunFailure>(())
        } else {
            Err::<(), RunFailure>(RunFailure::Delete(code))
        }),
{
    match outcome_of(code) {
        Outcome::Failed(code) => Err(RunFailure::Delete(code)),
        _ => Ok(()),
    }
}

/// Once enabled it reads as enabled: what is read back of the stored bytes
/// matches the agent.
pub proof fn law_enabled_is_enabled(agent: Seq<char>)
    ensures
        super::wide::registry_text(
            super::wide::bytes_of_units(
                super::wide::utf16(crate::agent::autostart::run_value(agent)).push(0),
            ),
        ) == crate::agent::autostart::run_value(agent),
{
    reveal_strlit("\"");
    let value = crate::agent::autostart::run_value(agent);
    assert(value.last() == '"');
    super::wide::law_registry_text_round_trips(value);
}

} // verus!
