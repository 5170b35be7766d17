//! The credentials that the signaling server issues to this device, kept in
//! `device.json`. A device that presents them is recognized; one that has lost
//! them registers afresh.

use vstd::prelude::*;

use crate::fsutil::{removed, write_private_atomic, FileRead, Removal, WriteStep};
use crate::text::join_path;

verus! {

/// What the signaling server knows this device by.
#[derive(Debug, Clone, PartialEq, Eq)]
pub struct DeviceCredentials {
    pub device_id: String,
    pub secret: String,
}

/// The file `device.json` in the agent's data directory.
pub struct DeviceStore {
    dir: String,
    path: String,
}

impl DeviceStore {
    /// The directory that the store is in.
    pub closed spec fn dir_spec(&self) -> Seq<char> {
        self.dir@
    }

    /// The file itself.
    pub closed spec fn path_spec(&self) -> Seq<char> {
        self.path@
    }

    pub fn new(dir: &str, windows: bool) -> (r: Self)
        ensures
            r.dir_spec() == dir@,
            r.path_spec() == crate::text::joined(windows, dir@, "device.json"@),
    {
        DeviceStore { dir: dir.to_owned(), path: join_path(windows, dir, "device.json") }
    }

    pub fn path(&self) -> (r: &str)
        ensures
            r@ == self.path_spec(),
    {
        self.path.as_str()
    }

    /// The saved credentials, from what reading the file came to, and what to
    /// warn of. A damaged file is no error: the device registers as a new one.
    pub fn load(&self, read: FileRead<DeviceCredentials>) -> (r: (
        Option<DeviceCredentials>,
        Option<&'static str>,
    ))
        ensures
            match read {
                FileRead::Parsed(credentials) => r.0 == Some(credentials) && r.1 is None,
                FileRead::Missing => r.0 is None && r.1 is None,
                FileRead::Unreadable => r.0 is None && r.1 == Some(
                    "failed to read device credentials file, registering as a new device",
                ),
                FileRead::Malformed => r.0 is None && r.1 == Some(
                    "device credentials file is not valid JSON, registering as a new device",
                ),
            },
    {
        match read {
            FileRead::Parsed(credentials) => (Some(credentials), None),
            FileRead::Missing => (None, None),
            FileRead::Unreadable => (
                None,
                Some("failed to read device credentials file, registering as a new device"),
            ),
            FileRead::Malformed => (
                None,
                Some("device credentials file is not valid JSON, registering as a new device"),
            ),
        }
    }

    /// How to write the credentials.
    pub fn save(&self) -> (r: Vec<WriteStep>)
        ensures
            crate::fsutil::is_private_write(r@, self.dir_spec(), self.path_spec()),
    {
        write_private_atomic(self.dir.as_str(), self.path.as_str())
    }

    /// Whether the credentials are gone, from what removing the file came to.
    pub fn forget(&self, outcome: Removal) -> (r: Result<(), String>)
        ensures
            match outcome {
                Removal::Failed(err) => r == Err::<(), String>(err),
                _ => r is Ok,
            },
    {
        removed(outcome)
    }
}

} // verus!
