//! Quarantine for payloads that do not parse: a schema change upstream must
//! never take down the feeds, so the raw payload is set aside and the
//! daemon keeps running.

use vstd::prelude::*;

use crate::paths::join_path;
use crate::timestamp::{Timestamp, STAMP_FILE};

verus! {

/// Names the files of a per-provider quarantine directory.
#[derive(Debug)]
pub struct Quarantine {
    dir: String,
}

impl View for Quarantine {
    type V = Seq<char>;

    closed spec fn view(&self) -> Seq<char> {
        self.dir@
    }
}

/// The file name of a payload set aside at `now`: `<timestamp>-<label>.json`.
pub open spec fn payload_name(now: int, label: Seq<char>) -> Seq<char> {
    crate::timestamp::timestamp_formatted(now, STAMP_FILE@) + "-"@ + label + ".json"@
}

impl Quarantine {
    /// A quarantine rooted at `dir`.
    pub fn new(dir: String) -> (quarantine: Quarantine)
        ensures
            quarantine@ == dir@,
    {
        Quarantine { dir }
    }

    /// The quarantine directory.
    pub fn dir(&self) -> (dir: &str)
        ensures
            dir@ == self@,
    {
        self.dir.as_str()
    }

    /// Where a payload set aside at `now` goes. `label` says what was being
    /// parsed.
    pub fn payload_path(&self, label: &str, now: Timestamp) -> (path: String)
        ensures
            path@ == crate::paths::joined_path(self@, payload_name(now@, label@)),
    {
        let mut name = now.stamp(STAMP_FILE);
        name.append("-");
        name.append(label);
        name.append(".json");
        join_path(self.dir.as_str(), name.as_str())
    }

    /// The path of a payload that was written; a write that failed becomes
    /// nothing, so that quarantining never adds a second failure.
    pub fn write_or_note(&self, written: Result<String, String>) -> (path: Option<String>)
        ensures
            match written {
                Ok(p) => path == Some(p),
                Err(_) => path is None,
            },
    {
        match written {
            Ok(path) => Some(path),
            Err(_) => None,
        }
    }
}

/// The name a payload is set aside under: when, to the millisecond, then
/// what it is, so that later payloads of one kind get other names.
pub proof fn law_payload_names(now: int, label: Seq<char>)
    ensures
        payload_name(now, label) == crate::timestamp::timestamp_formatted(
            now,
            "%Y%m%dT%H%M%S%.3fZ"@,
        ) + "-"@ + label + ".json"@,
{
}

} // verus!
