//! What the terminal shows for an event.

use vstd::prelude::*;
use crate::event::{EventKind, WatchEvent};
use crate::reporter::{
    format_log_line, icon_of, is_seconds_text, kind_icon, kind_label, label_width, log_line,
    pad_right, padded_label_of, seconds_text,
};

verus! {

/// The colour of an event kind's label on a colour terminal.
#[derive(Debug, Clone, Copy, PartialEq, Eq, Structural)]
pub enum LabelColor {
    Green,
    Yellow,
    Red,
    Blue,
}

/// The colour of an event kind's label.
pub open spec fn kind_color(k: EventKind) -> LabelColor {
    match k {
        EventKind::Created => LabelColor::Green,
        EventKind::Modified => LabelColor::Yellow,
        EventKind::Deleted => LabelColor::Red,
        EventKind::Renamed => LabelColor::Blue,
    }
}

/// The colour of an event kind's label.
pub fn color_of(k: EventKind) -> (r: LabelColor)
    ensures
        r == kind_color(k),
{
    match k {
        EventKind::Created => LabelColor::Green,
        EventKind::Modified => LabelColor::Yellow,
        EventKind::Deleted => LabelColor::Red,
        EventKind::Renamed => LabelColor::Blue,
    }
}

/// What the console shows for an event: a plain line, or the parts of a
/// line whose time is dimmed and whose label, padded to the label width, is
/// coloured; the parts are printed as `[time] icon label path`.
#[derive(Debug)]
pub enum ConsoleLine {
    Plain(String),
    Styled { time: String, icon: String, label: String, color: LabelColor, path: String },
}

/// Whether `line` is what the console shows for an event of kind `k` on
/// `path` at the time written `time`: the plain log line when `plain`, else
/// its parts, to be dimmed and coloured.
pub open spec fn shows(line: ConsoleLine, plain: bool, time: Seq<char>, k: EventKind, path: Seq<
    char,
>) -> bool {
    match line {
        ConsoleLine::Plain(l) => plain && l@ == log_line(time, k, path),
        ConsoleLine::Styled { time: t, icon, label, color, path: p } => {
            &&& !plain
            &&& t@ == time
            &&& icon@ == kind_icon(k)
            &&& label@ == pad_right(kind_label(k), label_width())
            &&& color == kind_color(k)
            &&& p@ == path
        },
    }
}

/// The text of a console line with its colours removed.
pub open spec fn line_text(line: ConsoleLine) -> Seq<char> {
    match line {
        ConsoleLine::Plain(l) => l@,
        ConsoleLine::Styled { time, icon, label, color, path } => "["@ + time@ + "] "@ + icon@
            + " "@ + label@ + " "@ + path@,
    }
}

/// With its colours removed, the coloured line for an event reads exactly
/// as the plain line for it.
pub proof fn lemma_colours_removed_read_as_plain(
    plain: ConsoleLine,
    styled: ConsoleLine,
    time: Seq<char>,
    k: EventKind,
    path: Seq<char>,
)
    requires
        shows(plain, true, time, k, path),
        shows(styled, false, time, k, path),
    ensures
        line_text(styled) == line_text(plain),
        line_text(plain) == log_line(time, k, path),
{
}

/// Prints events to the terminal.
#[derive(Debug)]
pub struct ConsoleReporter {
    no_color: bool,
}

impl ConsoleReporter {
    /// Whether the reporter prints without colours.
    pub closed spec fn plain(self) -> bool {
        self.no_color
    }

    /// A console reporter, with colours unless `no_color`.
    pub fn new(no_color: bool) -> (r: ConsoleReporter)
        ensures
            r.plain() == no_color,
    {
        ConsoleReporter { no_color }
    }

    /// What the console shows for `event`, with its time written `time`.
    pub fn render_at(&self, event: &WatchEvent, time: &str) -> (r: ConsoleLine)
        ensures
            shows(r, self.plain(), time@, event.kind, event.path@),
    {
        if self.no_color {
            ConsoleLine::Plain(format_log_line(time, event.kind, event.path.as_str()))
        } else {
            ConsoleLine::Styled {
                time: String::from_str(time),
                icon: String::from_str(icon_of(event.kind)),
                label: String::from_str(padded_label_of(event.kind)),
                color: color_of(event.kind),
                path: event.path.clone(),
            }
        }
    }

    /// What the console shows for `event`, its time the event's local time,
    /// written `YYYY-MM-DD hh:mm:ss`.
    pub fn render(&self, event: &WatchEvent) -> (r: ConsoleLine)
        ensures
            exists|time: Seq<char>|
                is_seconds_text(event.timestamp, time) && shows(
                    r,
                    self.plain(),
                    time,
                    event.kind,
                    event.path@,
                ),
    {
        let time = seconds_text(event.timestamp);
        assert(is_seconds_text(event.timestamp, time@));
        self.render_at(event, time.as_str())
    }
}

} // verus!
