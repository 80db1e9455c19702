//! The line that the log file receives for an event.

use vstd::prelude::*;
use crate::event::WatchEvent;
use crate::reporter::{format_log_line, is_seconds_text, log_line, seconds_text};

verus! {

/// The line that the log file receives for `event`, ending in a newline; its
/// time is the event's local time, written `YYYY-MM-DD hh:mm:ss`.
pub fn file_log_line(event: &WatchEvent) -> (r: String)
    ensures
        exists|time: Seq<char>|
            is_seconds_text(event.timestamp, time) && r@ == log_line(
                time,
                event.kind,
                event.path@,
            ) + "\n"@,
{
    let time = seconds_text(event.timestamp);
    assert(is_seconds_text(event.timestamp, time@));
    format_log_line(time.as_str(), event.kind, event.path.as_str()).concat("\n")
}

} // verus!
