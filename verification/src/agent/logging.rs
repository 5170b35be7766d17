//! The rules of the agent's log file.

use vstd::prelude::*;

use crate::text::join_path;

verus! {

/// A log of more bytes than this is moved aside when the agent starts.
pub const MAX_LOG_BYTES: u64 = 5_242_880;

/// Where the agent logs to.
pub fn log_path(log_dir: &str, windows: bool) -> (r: String)
    ensures
        r@ == crate::text::joined(windows, log_dir@, "agent.log"@),
{
    join_path(windows, log_dir, "agent.log")
}

/// Where the log in `log_dir`, `len` bytes long, is moved before a fresh one is
/// opened; it replaces the one moved before. `None` where it stays, or where
/// there is no log yet.
pub fn rotate_if_too_large(log_dir: &str, len: Option<u64>, windows: bool) -> (r: Option<String>)
    ensures
        match r {
            Some(to) => {
                &&& len matches Some(n) && n > 5 * 1024 * 1024
                &&& to@ == crate::text::joined(windows, log_dir@, "agent.log.1"@)
            },
            None => len matches Some(n) ==> n <= 5 * 1024 * 1024,
        },
{
    match len {
        Some(n) => if n > MAX_LOG_BYTES {
            Some(join_path(windows, log_dir, "agent.log.1"))
        } else {
            None
        },
        None => None,
    }
}

/// What is logged of a panic: its message, or that it had none.
pub fn panic_payload(message: Option<String>) -> (r: String)
    ensures
        r@ == match message {
            Some(text) => text@,
            None => "<non-string panic payload>"@,
        },
{
    match message {
        Some(text) => text,
        None => String::from_str("<non-string panic payload>"),
    }
}

/// Where the panic happened, as far as that is known.
pub fn panic_location(location: Option<String>) -> (r: String)
    ensures
        r@ == match location {
            Some(text) => text@,
            None => "<unknown location>"@,
        },
{
    match location {
        Some(text) => text,
        None => String::from_str("<unknown location>"),
    }
}

} // verus!
