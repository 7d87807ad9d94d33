//! The lines of the log.

use crate::text::append_str;
use crate::text::string_of;
use vstd::prelude::*;

verus! {

/// What a line of the log tells of.
#[derive(Clone, Copy, Debug, PartialEq, Eq, Structural)]
pub enum LogType {
    Info,
    Error,
}

/// The word that marks a line of the log.
pub open spec fn log_mark(log_type: LogType) -> Seq<char> {
    match log_type {
        LogType::Info => "Info"@,
        LogType::Error => "Error"@,
    }
}

/// The line that the log shows for `msg`.
pub open spec fn log_text(log_type: LogType, msg: Seq<char>) -> Seq<char> {
    "["@ + log_mark(log_type) + "] "@ + msg + "\n"@
}

/// The line that the log shows for `msg`: its mark in brackets, the
/// message, and a line feed.
pub fn log_line(log_type: LogType, msg: &str) -> (r: String)
    ensures
        r@ == log_text(log_type, msg@),
{
    let mut out: Vec<char> = Vec::new();
    append_str(&mut out, "[");
    append_str(
        &mut out,
        match log_type {
            LogType::Info => "Info",
            LogType::Error => "Error",
        },
    );
    append_str(&mut out, "] ");
    append_str(&mut out, msg);
    append_str(&mut out, "\n");
    string_of(&out)
}

} // verus!
