//! How the small files that hold secrets are read, written and removed.

use vstd::prelude::*;

use crate::text::concat;

verus! {

/// What reading and parsing such a file came to.
#[derive(Debug, Clone, PartialEq, Eq)]
pub enum FileRead<T> {
    /// There is no such file.
    Missing,
    /// It is there and cannot be read.
    Unreadable,
    /// It does not hold what was written.
    Malformed,
    Parsed(T),
}

/// What removing a file came to.
#[derive(Debug, Clone, PartialEq, Eq)]
pub enum Removal {
    Removed,
    /// There was no such file.
    Missing,
    Failed(String),
}

/// A file that was not there needs no removing.
pub fn removed(outcome: Removal) -> (r: Result<(), String>)
    ensures
        match outcome {
            Removal::Failed(err) => r == Err::<(), String>(err),
            _ => r is Ok,
        },
{
    match outcome {
        Removal::Failed(err) => Err(err),
        _ => Ok(()),
    }
}

/// One step of writing a file; a step that fails ends the write.
#[derive(Debug, Clone, PartialEq, Eq)]
pub enum WriteStep {
    /// Create a directory and those above it, where they are missing.
    CreateDir(String),
    /// Create a file, or truncate it; where the platform has permissions in the
    /// manner of Unix, with those of `PRIVATE_MODE` from the start.
    CreatePrivate(String),
    /// Write everything to the created file.
    Write,
    /// Wait until it has reached the disk.
    Sync,
    /// Give it the name that it is for, in place of the file of that name.
    Rename { from: String, to: String },
}

/// Read and write for the owner, nothing for anyone else.
pub const PRIVATE_MODE: u32 = 0o600;

/// The name of the file that `path` is written under until it is complete.
pub open spec fn temporary(path: Seq<char>) -> Seq<char> {
    path + ".tmp"@
}

/// The steps that write the file `path` in the directory `dir`.
pub open spec fn is_private_write(steps: Seq<WriteStep>, dir: Seq<char>, path: Seq<char>) -> bool {
    &&& steps.len() == 5
    &&& steps[0] matches WriteStep::CreateDir(d) && d@ == dir
    &&& steps[1] matches WriteStep::CreatePrivate(p) && p@ == temporary(path)
    &&& steps[2] is Write
    &&& steps[3] is Sync
    &&& steps[4] matches WriteStep::Rename { from, to } && from@ == temporary(path) && to@ == path
}

/// How to write the file `path` in the directory `dir` so that nobody else can
/// read it and it is never there half written.
pub fn write_private_atomic(dir: &str, path: &str) -> (r: Vec<WriteStep>)
    ensures
        is_private_write(r@, dir@, path@),
{
    let mut steps: Vec<WriteStep> = Vec::new();
    steps.push(WriteStep::CreateDir(dir.to_owned()));
    steps.push(WriteStep::CreatePrivate(concat(path, ".tmp")));
    steps.push(WriteStep::Write);
    steps.push(WriteStep::Sync);
    steps.push(WriteStep::Rename { from: concat(path, ".tmp"), to: path.to_owned() });
    steps
}

/// The file that a step changes.
pub open spec fn touches(step: WriteStep, path: Seq<char>) -> bool {
    match step {
        WriteStep::CreatePrivate(p) => p@ == path,
        WriteStep::Rename { to, .. } => to@ == path,
        _ => false,
    }
}

/// Whatever step a write stops at, the file itself is changed by the last one
/// alone, which comes after everything has been written and has reached the
/// disk.
pub proof fn law_a_file_is_replaced_whole(steps: Seq<WriteStep>, dir: Seq<char>, path: Seq<char>)
    requires
        is_private_write(steps, dir, path),
    ensures
        forall|i: int|
            0 <= i < steps.len() && touches(#[trigger] steps[i], path) ==> i == steps.len() - 1,
        forall|i: int, j: int|
            0 <= i < steps.len() && 0 <= j < steps.len() && #[trigger] steps[i] is Write
                && #[trigger] touches(steps[j], path) ==> i < j,
{
    reveal_strlit(".tmp");
    assert(temporary(path).len() != path.len());
}

/// A write makes sure of the directory, fills a private file of another name beside
/// the one it is for, waits for the disk, and then gives that very file the name.
pub proof fn law_a_write_ends_in_its_file(steps: Seq<WriteStep>, dir: Seq<char>, path: Seq<char>)
    requires
        is_private_write(steps, dir, path),
    ensures
        steps.len() == 5,
        steps[0] matches WriteStep::CreateDir(d) && d@ == dir,
        steps[1] matches WriteStep::CreatePrivate(p) && p@.len() == path.len() + 4 && p@.take(
            path.len() as int,
        ) == path,
        steps[2] is Write,
        steps[3] is Sync,
        steps[4] matches WriteStep::Rename { from, to } && to@ == path && (
        steps[1] matches WriteStep::CreatePrivate(p) && from@ == p@),
{
    reveal_strlit(".tmp");
    assert(temporary(path).take(path.len() as int) =~= path);
}

} // verus!
