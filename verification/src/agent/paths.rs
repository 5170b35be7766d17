//! The per-user directories of the agent.

use vstd::prelude::*;

use crate::proto::HostOs;
use crate::text::join_path;

verus! {

/// The directory that the agent's own are under: `base` is the home directory
/// on macOS, the local application data on Windows and the directory for
/// temporary files elsewhere. The current one where the system names none.
pub open spec fn base_dir(base: Option<&str>) -> Seq<char> {
    match base {
        Some(dir) => dir@,
        None => "."@,
    }
}

fn base_or_here(base: Option<&str>) -> (r: &str)
    ensures
        r@ == base_dir(base),
{
    match base {
        Some(dir) => dir,
        None => ".",
    }
}

/// Where logs go.
pub open spec fn log_dir_of(os: HostOs, base: Seq<char>) -> Seq<char> {
    match os {
        HostOs::Macos => crate::text::joined(false, base, "Library/Logs/rcdesk"@),
        HostOs::Windows => crate::text::joined(true, crate::text::joined(true, base, "rcdesk"@), "logs"@),
        HostOs::Other => crate::text::joined(false, base, "rcdesk-logs"@),
    }
}

/// Where everything else goes.
pub open spec fn data_dir_of(os: HostOs, base: Seq<char>) -> Seq<char> {
    match os {
        HostOs::Macos => crate::text::joined(false, base, "Library/Application Support/rcdesk"@),
        HostOs::Windows => crate::text::joined(true, base, "rcdesk"@),
        HostOs::Other => crate::text::joined(false, base, "rcdesk-data"@),
    }
}

/// The directory for logs.
pub fn log_dir(os: HostOs, base: Option<&str>) -> (r: String)
    ensures
        r@ == log_dir_of(os, base_dir(base)),
{
    let base: &str = base_or_here(base);
    match os {
        HostOs::Macos => join_path(false, base, "Library/Logs/rcdesk"),
        HostOs::Windows => {
            let dir: String = join_path(true, base, "rcdesk");
            join_path(true, dir.as_str(), "logs")
        },
        HostOs::Other => join_path(false, base, "rcdesk-logs"),
    }
}

/// The directory for data.
pub fn data_dir(os: HostOs, base: Option<&str>) -> (r: String)
    ensures
        r@ == data_dir_of(os, base_dir(base)),
{
    let base: &str = base_or_here(base);
    match os {
        HostOs::Macos => join_path(false, base, "Library/Application Support/rcdesk"),
        HostOs::Windows => join_path(true, base, "rcdesk"),
        HostOs::Other => join_path(false, base, "rcdesk-data"),
    }
}

/// Logs and data never share a directory.
pub proof fn law_log_dir_and_data_dir_differ(os: HostOs, base: Seq<char>)
    ensures
        log_dir_of(os, base) != data_dir_of(os, base),
{
    reveal_strlit("/");
    reveal_strlit("\\");
    reveal_strlit("Library/Logs/rcdesk");
    reveal_strlit("Library/Application Support/rcdesk");
    reveal_strlit("logs");
    reveal_strlit("rcdesk");
    reveal_strlit("rcdesk-logs");
    reveal_strlit("rcdesk-data");
    match os {
        HostOs::Macos => assert(log_dir_of(os, base).len() != data_dir_of(os, base).len()),
        HostOs::Windows => assert(log_dir_of(os, base).len() > data_dir_of(os, base).len()),
        HostOs::Other => {
            assert(log_dir_of(os, base).last() == 's');
            assert(data_dir_of(os, base).last() == 'a');
        },
    }
}

/// Below a directory that does not end in a separator, logs and data go where the
/// platform keeps those of its programs.
pub proof fn law_directories_follow_the_platform(base: Seq<char>)
    requires
        base.len() > 2,
        base.last() != '/',
        base.last() != '\\',
    ensures
        log_dir_of(HostOs::Macos, base) == base + "/Library/Logs/rcdesk"@,
        data_dir_of(HostOs::Macos, base) == base + "/Library/Application Support/rcdesk"@,
        log_dir_of(HostOs::Windows, base) == base + "\\rcdesk\\logs"@,
        data_dir_of(HostOs::Windows, base) == base + "\\rcdesk"@,
        log_dir_of(HostOs::Other, base) == base + "/rcdesk-logs"@,
        data_dir_of(HostOs::Other, base) == base + "/rcdesk-data"@,
{
    reveal_strlit("/");
    reveal_strlit("\\");
    reveal_strlit("Library/Logs/rcdesk");
    reveal_strlit("Library/Application Support/rcdesk");
    reveal_strlit("logs");
    reveal_strlit("rcdesk");
    reveal_strlit("rcdesk-logs");
    reveal_strlit("rcdesk-data");
    reveal_strlit("/Library/Logs/rcdesk");
    reveal_strlit("/Library/Application Support/rcdesk");
    reveal_strlit("\\rcdesk\\logs");
    reveal_strlit("\\rcdesk");
    reveal_strlit("/rcdesk-logs");
    reveal_strlit("/rcdesk-data");
    assert(log_dir_of(HostOs::Macos, base) =~= base + "/Library/Logs/rcdesk"@);
    assert(data_dir_of(HostOs::Macos, base) =~= base + "/Library/Application Support/rcdesk"@);
    let dir = crate::text::joined(true, base, "rcdesk"@);
    assert(dir =~= base + "\\rcdesk"@);
    assert(dir.last() == 'k');
    assert(log_dir_of(HostOs::Windows, base) =~= base + "\\rcdesk\\logs"@);
    assert(log_dir_of(HostOs::Other, base) =~= base + "/rcdesk-logs"@);
    assert(data_dir_of(HostOs::Other, base) =~= base + "/rcdesk-data"@);
}

/// A base directory that is known is used, and otherwise the current one.
pub proof fn law_a_known_base_is_used(base: Option<&str>)
    ensures
        base matches Some(dir) ==> base_dir(base) == dir@,
        base is None ==> base_dir(base) == seq!['.'],
{
    reveal_strlit(".");
    assert("."@ =~= seq!['.']);
}

} // verus!
