//! The lines of the log.

use crate::text::{append_str, string_of};
use vstd::prelude::*;

verus! {

/// The severity of an entry of the log.
#[derive(Debug, Clone, Copy, PartialEq, Eq, Structural)]
pub enum LogType {
    Warning,
    Error,
    Log,
}

/// What stands before the message of an entry: the name of its severity,
/// where it has one.
pub open spec fn label(kind: LogType) -> Seq<char> {
    match kind {
        LogType::Warning => "Warning: "@,
        LogType::Error => "Error: "@,
        LogType::Log => ""@,
    }
}

/// The line of an entry in the log file: the time in square brackets, the
/// severity, the message, and a line feed.
pub open spec fn entry_line(time: Seq<char>, kind: LogType, msg: Seq<char>) -> Seq<char> {
    "["@ + time + "]: "@ + label(kind) + msg + "\n"@
}

/// The name of the severity `kind` as it stands before a message.
pub fn label_of(kind: LogType) -> (s: &'static str)
    ensures
        s@ == label(kind),
{
    match kind {
        LogType::Warning => "Warning: ",
        LogType::Error => "Error: ",
        LogType::Log => "",
    }
}

/// The line that the entry with the message `msg`, made at `time`, has in
/// the log file.
pub fn file_entry(time: &str, kind: LogType, msg: &str) -> (line: String)
    ensures
        line@ == entry_line(time@, kind, msg@),
{
    let mut out: Vec<char> = Vec::new();
    append_str(&mut out, "[");
    append_str(&mut out, time);
    append_str(&mut out, "]: ");
    append_str(&mut out, label_of(kind));
    append_str(&mut out, msg);
    append_str(&mut out, "\n");
    assert(out@ == entry_line(time@, kind, msg@));
    string_of(&out)
}

} // verus!
