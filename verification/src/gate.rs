//! The stable result vocabulary: the status a write reports, the
//! outcome a read reports, and the fixed marker strings a caller sees on the
//! shared text channel.
//!
//! Each function here turns the two facts that matter — did the resolver
//! accept the request, and did the filesystem operation succeed — into one
//! member of a small closed set, keeping "blocked by policy" distinct from
//! "legitimately absent" and from genuine content.

use vstd::prelude::*;

verus! {

/// The outcome of a gated write.
#[derive(Clone, Copy, Debug, PartialEq, Eq, Structural)]
pub enum WriteStatus {
    /// The content was written at the verified path.
    Success,
    /// The resolver rejected the request; nothing was written.
    AccessDenied,
    /// The path was verified but the underlying write failed.
    IoError,
}

/// The write status determined by the two facts of a call: a rejected
/// request is denied before any I/O; an accepted one reports the
/// filesystem's own success or failure.
pub open spec fn write_status_of(resolved: bool, io_ok: bool) -> WriteStatus {
    if !resolved {
        WriteStatus::AccessDenied
    } else if io_ok {
        WriteStatus::Success
    } else {
        WriteStatus::IoError
    }
}

/// Reports the status of a write. `resolved` says whether the resolver
/// accepted the request; `io_ok` whether the write itself succeeded
/// (ignored when the request was rejected, since no write happens then).
pub fn write_status(resolved: bool, io_ok: bool) -> (s: WriteStatus)
    ensures
        s == write_status_of(resolved, io_ok),
{
    if !resolved {
        WriteStatus::AccessDenied
    } else if io_ok {
        WriteStatus::Success
    } else {
        WriteStatus::IoError
    }
}

/// The integer code of a write status at the caller-facing boundary.
pub open spec fn status_code_of(s: WriteStatus) -> int {
    match s {
        WriteStatus::Success => 0,
        WriteStatus::AccessDenied => -1,
        WriteStatus::IoError => -2,
    }
}

/// Encodes a write status as its boundary integer: `0` success, `-1`
/// access denied, `-2` I/O error.
pub fn status_code(s: WriteStatus) -> (r: i32)
    ensures
        r == status_code_of(s),
{
    match s {
        WriteStatus::Success => 0,
        WriteStatus::AccessDenied => -1,
        WriteStatus::IoError => -2,
    }
}

/// The outcome of a gated read.
#[derive(Debug, PartialEq)]
pub enum ReadOutcome {
    /// The verified target was read; carries its full contents.
    Content(String),
    /// The resolver rejected the request; nothing was read.
    AccessDenied,
    /// The path was verified but the target could not be read.
    NotFound,
}

/// The relation a read outcome must bear to the two facts of a call: a
/// rejected request is denied; an accepted one yields exactly the contents
/// the filesystem returned, or `NotFound` when it returned nothing.
pub open spec fn read_outcome_matches(resolved: bool, data: Option<Seq<char>>, o: ReadOutcome) -> bool {
    if !resolved {
        o is AccessDenied
    } else {
        match data {
            Option::Some(content) => o matches ReadOutcome::Content(c) && c@ == content,
            Option::None => o is NotFound,
        }
    }
}

/// Reports the outcome of a read. `resolved` says whether the resolver
/// accepted the request; `data` carries the contents the filesystem
/// returned for the verified path, if any.
pub fn read_outcome(resolved: bool, data: Option<String>) -> (o: ReadOutcome)
    ensures
        read_outcome_matches(resolved, data.deep_view(), o),
{
    if !resolved {
        ReadOutcome::AccessDenied
    } else {
        match data {
            Option::Some(content) => ReadOutcome::Content(content),
            Option::None => ReadOutcome::NotFound,
        }
    }
}

/// Distinctness of failure modes: a request the resolver accepted whose
/// target could not be read is reported as `NotFound` — never as
/// `AccessDenied`, and never as content of any kind, empty or otherwise.
pub proof fn lemma_failure_modes_distinct(o: ReadOutcome)
    requires
        read_outcome_matches(true, Option::None, o),
    ensures
        o is NotFound,
        !(o is AccessDenied),
        forall|c: String| o != ReadOutcome::Content(c),
{
}

/// A rejected request never leaks content: whatever the filesystem would
/// have said, the outcome is `AccessDenied`.
pub proof fn lemma_denied_yields_no_content(data: Option<Seq<char>>, o: ReadOutcome)
    requires
        read_outcome_matches(false, data, o),
    ensures
        o is AccessDenied,
        forall|c: String| o != ReadOutcome::Content(c),
{
}

/// Encodes a read outcome on the caller-facing text channel: genuine
/// contents as they are, the two failures as the library's fixed marker
/// strings.
pub fn read_message(o: ReadOutcome) -> (s: String)
    ensures
        o matches ReadOutcome::Content(c) ==> s@ == c@,
        o is AccessDenied ==> s@ == "ERROR: Access Denied"@,
        o is NotFound ==> s@ == "ERROR: File not found"@,
{
    match o {
        ReadOutcome::Content(c) => c,
        ReadOutcome::AccessDenied => String::from_str("ERROR: Access Denied"),
        ReadOutcome::NotFound => String::from_str("ERROR: File not found"),
    }
}

} // verus!
