//! The record of a running watcher, and the rule by which a record that
//! outlived its process is told from a live one.

use crate::text::{join, joined};
use vstd::prelude::*;

verus! {

/// The record of a running watcher.
#[derive(Debug, Clone, PartialEq, Eq)]
pub struct DaemonStatus {
    /// The watcher's process.
    pub pid: u32,
    /// The directory that it watches.
    pub repo_path: String,
    /// When it started, in milliseconds since the Unix epoch.
    pub started_at: i64,
}

/// What was found where the record of the watcher is kept.
#[derive(Debug, Clone, PartialEq, Eq)]
pub enum StatusFile {
    /// There is no record.
    Missing,
    /// There is a file, but it does not hold a record.
    Corrupted,
    /// A record, as it was read.
    Parsed(DaemonStatus),
}

/// Why a record is not written.
#[derive(Debug, Clone, Copy, PartialEq, Eq, Structural)]
pub enum DaemonError {
    /// No process has the number 0.
    InvalidPid,
}

/// What a look at the record comes to.
#[derive(Debug, Clone, PartialEq, Eq)]
pub struct SessionLookup {
    /// The watcher that is running, if one is.
    pub status: Option<DaemonStatus>,
    /// Whether the file is to be removed: it holds no record, or the
    /// record of a watcher that is gone.
    pub purge: bool,
}

impl DaemonStatus {
    /// Where the record of the watcher for `repo_path` is kept.
    pub fn status_file_path(repo_path: &str) -> (r: String)
        ensures
            r@ == joined(joined(repo_path@, ".dbx-ignore"@), "daemon.json"@),
    {
        let dir = join(repo_path, ".dbx-ignore");
        join(dir.as_str(), "daemon.json")
    }

    /// The process whose existence decides whether the record is live:
    /// that of a record that was read and names a process.
    pub fn process_to_probe(file: &StatusFile) -> (r: Option<u32>)
        ensures
            r == match *file {
                StatusFile::Parsed(s) if s.pid != 0 => Some(s.pid),
                _ => None::<u32>,
            },
    {
        match file {
            StatusFile::Parsed(s) => if s.pid != 0 {
                Some(s.pid)
            } else {
                None
            },
            _ => None,
        }
    }

    /// The watcher that is running, going by the record and by whether
    /// the process it names is `alive`. A record is live where it names a
    /// process and that process exists. Any other file is stale: there is
    /// then no watcher, and the file is to be removed.
    pub fn read(file: StatusFile, alive: bool) -> (r: SessionLookup)
        ensures
            r.status is Some == (alive && (file matches StatusFile::Parsed(s) && s.pid != 0)),
            r.status matches Some(s) ==> file == StatusFile::Parsed(s),
            r.purge == (r.status is None && !(file is Missing)),
    {
        match file {
            StatusFile::Missing => SessionLookup { status: None, purge: false },
            StatusFile::Corrupted => SessionLookup { status: None, purge: true },
            StatusFile::Parsed(status) => {
                if status.pid != 0 && alive {
                    SessionLookup { status: Some(status), purge: false }
                } else {
                    SessionLookup { status: None, purge: true }
                }
            },
        }
    }

    /// Where the record is to be written for the watcher of `repo_path`.
    /// A record that names no process is refused: there is nothing to
    /// write then.
    pub fn write(&self, repo_path: &str) -> (r: Result<String, DaemonError>)
        ensures
            self.pid == 0 ==> r == Err::<String, DaemonError>(DaemonError::InvalidPid),
            self.pid != 0 ==> (r matches Ok(file) && file@ == joined(
                joined(repo_path@, ".dbx-ignore"@),
                "daemon.json"@,
            )),
    {
        if self.pid == 0 {
            Err(DaemonError::InvalidPid)
        } else {
            Ok(Self::status_file_path(repo_path))
        }
    }
}

} // verus!
