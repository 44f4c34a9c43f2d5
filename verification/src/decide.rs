//! The per-file decision policy: given what metadata extraction produced for
//! one regular file, decide what to do to that file, and nothing else.
//!
//! Every outcome is decided here; the surrounding process only performs the
//! chosen action (a log line, or one modification-time write). No outcome
//! ever stops the scan of the remaining files.

use vstd::prelude::*;
use crate::datetime::DateTime;
use crate::datetime::parse_datetime;
use crate::datetime::spec_parse;
use crate::epoch::spec_unix_seconds;
use crate::epoch::to_unix_seconds;

verus! {

/// Years at or before this value are treated as camera-default placeholders
/// and never applied to a file.
pub const PLAUSIBLE_YEAR_FLOOR: u16 = 2000;

/// What metadata extraction produced for one regular file.
pub enum Extract {
    /// The file is not a recognized metadata container, or is corrupt.
    DecodeFailed,
    /// The file decoded, but carries no capture-date field.
    NoField,
    /// The capture-date field's human-readable value.
    Field(String),
}

/// What the scan does to one regular file.
#[derive(Clone, Copy, Debug, PartialEq, Eq, Structural)]
pub enum Action {
    /// Report that the file could not be decoded (a benign, expected case);
    /// leave the file untouched.
    NoteDecodeFailed,
    /// Pass the file over silently; leave it untouched.
    Ignore,
    /// Report a malformed capture-date field; leave the file untouched.
    NoteParseError,
    /// Warn that the capture date is an implausible placeholder; leave the
    /// file untouched.
    NoteImplausible(DateTime),
    /// Set the file's modification time to the given Unix epoch second
    /// count, the instant named by the given capture date.
    SetTimestamp(i64, DateTime),
}

/// The decision for one file, as a function of its extracted field alone.
pub open spec fn spec_decide(x: Extract) -> Action {
    match x {
        Extract::DecodeFailed => Action::NoteDecodeFailed,
        Extract::NoField => Action::Ignore,
        Extract::Field(s) => match spec_parse(s@) {
            Option::None => Action::NoteParseError,
            Option::Some(dt) => if dt.year > PLAUSIBLE_YEAR_FLOOR {
                Action::SetTimestamp(spec_unix_seconds(dt) as i64, dt)
            } else {
                Action::NoteImplausible(dt)
            },
        },
    }
}

/// A file's modification time after an action, given its time before:
/// only a timestamp action changes it, and to exactly the decided value.
pub open spec fn spec_mtime_after(mtime: int, a: Action) -> int {
    match a {
        Action::SetTimestamp(t, _) => t as int,
        _ => mtime,
    }
}

/// Decide what the scan does to one regular file from what extraction
/// produced for it.
pub fn decide(x: &Extract) -> (r: Action)
    ensures
        r == spec_decide(*x),
{
    match x {
        Extract::DecodeFailed => Action::NoteDecodeFailed,
        Extract::NoField => Action::Ignore,
        Extract::Field(s) => match parse_datetime(s.as_str()) {
            Option::None => Action::NoteParseError,
            Option::Some(dt) => if dt.year > PLAUSIBLE_YEAR_FLOOR {
                Action::SetTimestamp(to_unix_seconds(&dt), dt)
            } else {
                Action::NoteImplausible(dt)
            },
        },
    }
}

/// The modification time a file carries after an action is performed on it.
pub fn applied_mtime(mtime: i64, a: &Action) -> (r: i64)
    ensures
        r as int == spec_mtime_after(mtime as int, *a),
{
    match a {
        Action::SetTimestamp(t, _) => *t,
        _ => mtime,
    }
}

/// A file with no capture-date field is left with its modification time
/// unchanged, and passed over silently.
pub proof fn lemma_absent_field_leaves_mtime(mtime: int)
    ensures
        spec_decide(Extract::NoField) == Action::Ignore,
        spec_mtime_after(mtime, spec_decide(Extract::NoField)) == mtime,
{
}

/// A file that does not decode is left with its modification time
/// unchanged.
pub proof fn lemma_undecodable_leaves_mtime(mtime: int)
    ensures
        spec_decide(Extract::DecodeFailed) == Action::NoteDecodeFailed,
        spec_mtime_after(mtime, spec_decide(Extract::DecodeFailed)) == mtime,
{
}

/// A malformed capture-date field is reported and the file is left with
/// its modification time unchanged: no timestamp write is ever decided.
pub proof fn lemma_malformed_field_leaves_mtime(mtime: int, s: String)
    requires
        spec_parse(s@) is None,
    ensures
        spec_decide(Extract::Field(s)) == Action::NoteParseError,
        spec_mtime_after(mtime, spec_decide(Extract::Field(s))) == mtime,
{
}

/// A capture date at or before the plausibility floor is only warned
/// about: the file keeps its modification time, whatever the date says.
pub proof fn lemma_implausible_year_leaves_mtime(mtime: int, s: String)
    requires
        spec_parse(s@) is Some,
        spec_parse(s@)->0.year <= PLAUSIBLE_YEAR_FLOOR,
    ensures
        spec_decide(Extract::Field(s)) == Action::NoteImplausible(spec_parse(s@)->0),
        spec_mtime_after(mtime, spec_decide(Extract::Field(s))) == mtime,
{
}

/// A plausible capture date is applied exactly: the decided modification
/// time is the Unix epoch second count of the parsed date, whatever the
/// time was before, with zero sub-second remainder.
pub proof fn lemma_plausible_field_sets_exact_time(mtime: int, s: String)
    requires
        spec_parse(s@) is Some,
        spec_parse(s@)->0.year > PLAUSIBLE_YEAR_FLOOR,
    ensures
        spec_mtime_after(mtime, spec_decide(Extract::Field(s))) == spec_unix_seconds(
            spec_parse(s@)->0,
        ),
{
    let dt = spec_parse(s@)->0;
    crate::epoch::lemma_unix_seconds_in_range(dt);
}

/// Scanning is idempotent per file: the decode step never writes to a file,
/// so a second scan of an unmodified file extracts the same field, decides
/// the same action, and that action applied again leaves the modification
/// time exactly where the first application put it.
pub proof fn lemma_scan_idempotent(mtime: int, x: Extract)
    ensures
        spec_mtime_after(spec_mtime_after(mtime, spec_decide(x)), spec_decide(x))
            == spec_mtime_after(mtime, spec_decide(x)),
{
}

/// The actions of a whole scan: one decision per visited file, each a
/// function of that file's extracted field alone.
pub open spec fn spec_scan_actions(files: Seq<Extract>) -> Seq<Action> {
    files.map_values(|x: Extract| spec_decide(x))
}

/// Visiting order does not matter: wherever one and the same file stands in
/// two visit orders, the same action is decided for it, so the modification
/// time it ends with never depends on the order its siblings were visited in.
pub proof fn lemma_order_independent(a: Seq<Extract>, b: Seq<Extract>, i: int, j: int, mtime: int)
    requires
        0 <= i < a.len(),
        0 <= j < b.len(),
        a[i] == b[j],
    ensures
        spec_scan_actions(a)[i] == spec_scan_actions(b)[j],
        spec_mtime_after(mtime, spec_scan_actions(a)[i]) == spec_mtime_after(
            mtime,
            spec_scan_actions(b)[j],
        ),
{
}

} // verus!
