//! What the reporters emit for an event: the text shared by the console
//! and the log file, and the times written by the clock library.

pub mod console;
pub mod file;
pub mod webhook;

use vstd::prelude::*;
use crate::clock::{
    chrono_represents, local_rfc3339_text, local_seconds_text,
    rfc3339_text_at, seconds_text_at, valid_offset, Timestamp,
};
use crate::event::EventKind;

verus! {


/// The symbol shown before an event.
pub open spec fn kind_icon(k: EventKind) -> Seq<char> {
    match k {
        EventKind::Created => "✚"@,
        EventKind::Modified => "✎"@,
        EventKind::Deleted => "✖"@,
        EventKind::Renamed => "⇄"@,
    }
}

/// The upper-case label of an event kind.
pub open spec fn kind_label(k: EventKind) -> Seq<char> {
    match k {
        EventKind::Created => "CREATED"@,
        EventKind::Modified => "MODIFIED"@,
        EventKind::Deleted => "DELETED"@,
        EventKind::Renamed => "RENAMED"@,
    }
}

/// The name of an event kind in webhook payloads.
pub open spec fn kind_name(k: EventKind) -> Seq<char> {
    match k {
        EventKind::Created => "Created"@,
        EventKind::Modified => "Modified"@,
        EventKind::Deleted => "Deleted"@,
        EventKind::Renamed => "Renamed"@,
    }
}

/// The lower-case form of an ASCII capital letter; any other character is
/// left as it is.
pub open spec fn ascii_lower(c: char) -> char {
    if 'A' <= c && c <= 'Z' {
        ((c as u32) + 32) as char
    } else {
        c
    }
}

/// `s` in title case: its first character kept, the others in lower case.
pub open spec fn title_case(s: Seq<char>) -> Seq<char> {
    if s.len() == 0 {
        s
    } else {
        seq![s[0]] + s.drop_first().map_values(|c: char| ascii_lower(c))
    }
}

/// The label of each kind is the kind written in capitals: `CREATED`,
/// `MODIFIED`, `DELETED` and `RENAMED`.
pub proof fn lemma_label_of_each_kind()
    ensures
        kind_label(EventKind::Created) == "CREATED"@,
        kind_label(EventKind::Modified) == "MODIFIED"@,
        kind_label(EventKind::Deleted) == "DELETED"@,
        kind_label(EventKind::Renamed) == "RENAMED"@,
{
}

/// The name of a kind in webhook payloads is its label in title case, so
/// each kind is posted under its own name: `Created`, `Modified`, `Deleted`
/// and `Renamed`.
pub proof fn lemma_name_is_title_case_label(k: EventKind)
    ensures
        kind_name(k) == title_case(kind_label(k)),
{
    reveal_strlit("CREATED");
    reveal_strlit("MODIFIED");
    reveal_strlit("DELETED");
    reveal_strlit("RENAMED");
    reveal_strlit("Created");
    reveal_strlit("Modified");
    reveal_strlit("Deleted");
    reveal_strlit("Renamed");
    assert(kind_name(k) =~= title_case(kind_label(k)));
}

/// Distinct kinds never share a symbol, a label or a name, so no two kinds
/// can be told, shown or posted as each other.
pub proof fn lemma_kinds_told_apart(a: EventKind, b: EventKind)
    requires
        a != b,
    ensures
        kind_icon(a) != kind_icon(b),
        kind_label(a) != kind_label(b),
        kind_name(a) != kind_name(b),
{
    reveal_strlit("✚");
    reveal_strlit("✎");
    reveal_strlit("✖");
    reveal_strlit("⇄");
    reveal_strlit("CREATED");
    reveal_strlit("MODIFIED");
    reveal_strlit("DELETED");
    reveal_strlit("RENAMED");
    reveal_strlit("Created");
    reveal_strlit("Modified");
    reveal_strlit("Deleted");
    reveal_strlit("Renamed");
    assert(kind_icon(a)[0] != kind_icon(b)[0]);
    assert(kind_label(a)[0] != kind_label(b)[0]);
    assert(kind_name(a)[0] != kind_name(b)[0]);
}

/// `s` padded on the right with spaces to at least `width` characters.
pub open spec fn pad_right(s: Seq<char>, width: nat) -> Seq<char> {
    if s.len() >= width {
        s
    } else {
        s + Seq::new((width - s.len()) as nat, |i: int| ' ')
    }
}

/// The width that labels are padded to.
pub open spec fn label_width() -> nat {
    9
}

/// The line that describes an event: `[time] icon LABEL path`, the label
/// padded to nine characters.
pub open spec fn log_line(time: Seq<char>, k: EventKind, path: Seq<char>) -> Seq<char> {
    "["@ + time + "] "@ + kind_icon(k) + " "@ + pad_right(kind_label(k), label_width()) + " "@
        + path
}

/// Every label is padded to the same width, so that the paths after it line
/// up: the padded label is the label followed by spaces, nine characters in
/// all.
pub proof fn lemma_labels_line_up(k: EventKind)
    ensures
        pad_right(kind_label(k), label_width()).len() == 9,
        pad_right(kind_label(k), label_width()).take(kind_label(k).len() as int) == kind_label(k),
        forall|i: int|
            kind_label(k).len() <= i < 9 ==> #[trigger] pad_right(kind_label(k), label_width())[i]
                == ' ',
{
    reveal_strlit("CREATED");
    reveal_strlit("MODIFIED");
    reveal_strlit("DELETED");
    reveal_strlit("RENAMED");
    let l = kind_label(k);
    let p = pad_right(l, label_width());
    assert(l.len() <= 9);
    assert(p.take(l.len() as int) =~= l);
}

/// The symbol shown before an event.
pub fn icon_of(k: EventKind) -> (r: &'static str)
    ensures
        r@ == kind_icon(k),
{
    match k {
        EventKind::Created => "✚",
        EventKind::Modified => "✎",
        EventKind::Deleted => "✖",
        EventKind::Renamed => "⇄",
    }
}

/// The upper-case label of an event kind.
pub fn label_of(k: EventKind) -> (r: &'static str)
    ensures
        r@ == kind_label(k),
{
    match k {
        EventKind::Created => "CREATED",
        EventKind::Modified => "MODIFIED",
        EventKind::Deleted => "DELETED",
        EventKind::Renamed => "RENAMED",
    }
}

/// The name of an event kind in webhook payloads.
pub fn name_of(k: EventKind) -> (r: &'static str)
    ensures
        r@ == kind_name(k),
{
    match k {
        EventKind::Created => "Created",
        EventKind::Modified => "Modified",
        EventKind::Deleted => "Deleted",
        EventKind::Renamed => "Renamed",
    }
}

/// The label of an event kind, padded to the label width.
pub fn padded_label_of(k: EventKind) -> (r: &'static str)
    ensures
        r@ == pad_right(kind_label(k), label_width()),
{
    match k {
        EventKind::Created => {
            proof {
                reveal_strlit("CREATED");
                reveal_strlit("CREATED  ");
                assert("CREATED  "@ =~= pad_right("CREATED"@, 9));
            }
            "CREATED  "
        },
        EventKind::Modified => {
            proof {
                reveal_strlit("MODIFIED");
                reveal_strlit("MODIFIED ");
                assert("MODIFIED "@ =~= pad_right("MODIFIED"@, 9));
            }
            "MODIFIED "
        },
        EventKind::Deleted => {
            proof {
                reveal_strlit("DELETED");
                reveal_strlit("DELETED  ");
                assert("DELETED  "@ =~= pad_right("DELETED"@, 9));
            }
            "DELETED  "
        },
        EventKind::Renamed => {
            proof {
                reveal_strlit("RENAMED");
                reveal_strlit("RENAMED  ");
                assert("RENAMED  "@ =~= pad_right("RENAMED"@, 9));
            }
            "RENAMED  "
        },
    }
}

/// The line that describes an event of kind `k` on `path` at the time
/// written `time`.
pub fn format_log_line(time: &str, k: EventKind, path: &str) -> (r: String)
    ensures
        r@ == log_line(time@, k, path@),
{
    String::from_str("[").concat(time).concat("] ").concat(icon_of(k)).concat(" ").concat(
        padded_label_of(k),
    ).concat(" ").concat(path)
}

/// What holds of the text that writes the local time of `ts` as
/// `YYYY-MM-DD hh:mm:ss`, whatever the time zone: it is empty exactly where
/// chrono does not represent the instant, and otherwise it is the date and
/// time of `ts` in a zone less than a day from UTC.
pub open spec fn is_seconds_text(ts: Timestamp, t: Seq<char>) -> bool {
    &&& (t.len() == 0 <==> !chrono_represents(ts.secs, ts.nanos))
    &&& (chrono_represents(ts.secs, ts.nanos) ==> exists|offset: int|
        valid_offset(offset) && t == #[trigger] seconds_text_at(ts, offset))
}

/// What holds of the text that writes the local time of `ts` in RFC 3339,
/// whatever the time zone: it is empty exactly where chrono does not
/// represent the instant, and otherwise it is the date and time of `ts` in
/// a zone less than a day from UTC, its fraction of a second, and that
/// zone's offset.
pub open spec fn is_rfc3339_text(ts: Timestamp, t: Seq<char>) -> bool {
    &&& (t.len() == 0 <==> !chrono_represents(ts.secs, ts.nanos))
    &&& (chrono_represents(ts.secs, ts.nanos) ==> exists|offset: int|
        valid_offset(offset) && t == #[trigger] rfc3339_text_at(ts, offset))
}

/// The local time of `ts`, written `YYYY-MM-DD hh:mm:ss`; empty where chrono
/// does not represent the instant (never for the instant of a clock reading).
pub(crate) fn seconds_text(ts: Timestamp) -> (r: String)
    ensures
        is_seconds_text(ts, r@),
{
    match local_seconds_text(ts) {
        Some(t) => t,
        None => String::new(),
    }
}

/// The local time of `ts` in RFC 3339; empty where chrono does not
/// represent the instant (never for the instant of a clock reading).
pub(crate) fn rfc3339_text(ts: Timestamp) -> (r: String)
    ensures
        is_rfc3339_text(ts, r@),
{
    match local_rfc3339_text(ts) {
        Some(t) => t,
        None => String::new(),
    }
}

} // verus!
