//! File-system events: what the notification service reports, the events
//! the library keeps, and the filter that decides which of them matter.

use vstd::prelude::*;
use crate::clock::{
    read_clock, reading_ok, timestamp_from_reading, timestamp_of_reading, Timestamp,
};
use crate::errors::AppError;
use crate::globbing::{check_glob, glob_compile_error, glob_match, glob_matches};
use crate::paths::{
    extension_or_empty, extension_text, file_name_or_empty, file_name_text,
    lemma_same_name_same_extension,
};
use crate::text::{strip_leading, strip_leading_str, views};

verus! {

/// What happened to a file or directory.
#[derive(Debug, Clone, Copy, PartialEq, Eq, Structural)]
pub enum EventKind {
    /// It was created.
    Created,
    /// It was changed.
    Modified,
    /// It was removed.
    Deleted,
    /// It was renamed.
    Renamed,
}

/// The kind of a raw notification, one variant for each case that the
/// notification service distinguishes and the library tells apart.
#[derive(Debug, Clone, Copy, PartialEq, Eq, Structural)]
pub enum RawKind {
    /// An event of unknown kind.
    Any,
    /// A file was accessed.
    Access,
    /// A file was created.
    Create,
    /// A file was renamed.
    ModifyName,
    /// A file was changed in any other way.
    Modify,
    /// A file was removed.
    Remove,
    /// A service-specific event.
    Other,
}

/// A raw notification: its kind and the paths it concerns.
#[derive(Debug)]
pub struct RawEvent {
    pub kind: RawKind,
    pub paths: Vec<String>,
}

/// A file-system event, ready for the reporters.
#[derive(Debug)]
pub struct WatchEvent {
    /// What happened.
    pub kind: EventKind,
    /// The full path of the file concerned.
    pub path: String,
    /// When the event was noticed.
    pub timestamp: Timestamp,
}

/// The event kind that a raw kind stands for; `None` for the kinds that are
/// ignored (access, unknown and service-specific events).
pub open spec fn classify(k: RawKind) -> Option<EventKind> {
    match k {
        RawKind::Create => Some(EventKind::Created),
        RawKind::ModifyName => Some(EventKind::Renamed),
        RawKind::Modify => Some(EventKind::Modified),
        RawKind::Remove => Some(EventKind::Deleted),
        _ => None,
    }
}

/// The event kind that a raw kind stands for, if it is one that matters.
pub fn classify_kind(k: RawKind) -> (r: Option<EventKind>)
    ensures
        r == classify(k),
{
    match k {
        RawKind::Create => Some(EventKind::Created),
        RawKind::ModifyName => Some(EventKind::Renamed),
        RawKind::Modify => Some(EventKind::Modified),
        RawKind::Remove => Some(EventKind::Deleted),
        _ => None,
    }
}

/// The events that a raw notification of kind `kind` on `paths` becomes
/// when noticed at `ts`: one per path, in order, or none for an ignored kind.
pub open spec fn events_of(kind: RawKind, paths: Seq<String>, ts: Timestamp) -> Seq<WatchEvent> {
    match classify(kind) {
        Some(k) => paths.map_values(|p: String| WatchEvent { kind: k, path: p, timestamp: ts }),
        None => Seq::<WatchEvent>::empty(),
    }
}

impl Clone for WatchEvent {
    /// An equal event.
    fn clone(&self) -> (r: WatchEvent)
        ensures
            r == *self,
    {
        WatchEvent { kind: self.kind, path: self.path.clone(), timestamp: self.timestamp }
    }
}

impl WatchEvent {
    /// The events that `event` stands for, all stamped with the time `ts`.
    pub fn from_raw_at(event: RawEvent, ts: Timestamp) -> (r: Vec<WatchEvent>)
        ensures
            r@ == events_of(event.kind, event.paths@, ts),
    {
        match classify_kind(event.kind) {
            Some(k) => {
                let paths = event.paths;
                let mut out: Vec<WatchEvent> = Vec::new();
                let mut i: usize = 0;
                while i < paths.len()
                    invariant
                        i <= paths.len(),
                        out@ =~= paths@.take(i as int).map_values(
                            |p: String| WatchEvent { kind: k, path: p, timestamp: ts },
                        ),
                    decreases paths.len() - i,
                {
                    out.push(WatchEvent { kind: k, path: paths[i].clone(), timestamp: ts });
                    i = i + 1;
                }
                proof {
                    assert(paths@.take(paths.len() as int) =~= paths@);
                }
                out
            },
            None => Vec::new(),
        }
    }

    /// The events that a raw notification stands for, given the clock's
    /// `reading`: none for an ignored kind; else one per path, of its kind,
    /// all stamped with the reading's instant; or, where the reading gives no
    /// instant (before the Unix epoch, or beyond what chrono represents), an
    /// input/output error.
    pub fn from_reading(event: RawEvent, reading: Option<(u64, u32)>) -> (r: Result<
        Vec<WatchEvent>,
        AppError,
    >)
        ensures
            notify_outcome(event.kind, event.paths@, reading, r),
    {
        match classify_kind(event.kind) {
            None => Ok(Vec::new()),
            Some(_) => match timestamp_from_reading(reading) {
                Some(ts) => Ok(WatchEvent::from_raw_at(event, ts)),
                None => Err(AppError::Io(String::from_str("Не удалось прочитать системное время"))),
            },
        }
    }

    /// The events that a raw notification stands for, stamped with the time
    /// read from the clock; for an ignored kind, none, and the clock is not
    /// read. The contract states that every event carries the instant of one
    /// reading that the clock can give; which reading that is depends on the
    /// clock at the moment of the call, and is left unstated.
    pub fn from_notify_event(event: RawEvent) -> (r: Result<Vec<WatchEvent>, AppError>)
        ensures
            exists|reading: Option<(u64, u32)>|
                reading_ok(reading) && #[trigger] notify_outcome(
                    event.kind,
                    event.paths@,
                    reading,
                    r,
                ),
            classify(event.kind) is None ==> r is Ok,
    {
        match classify_kind(event.kind) {
            None => {
                let r = WatchEvent::from_reading(event, None);
                r
            },
            Some(_) => {
                let reading = read_clock();
                WatchEvent::from_reading(event, reading)
            },
        }
    }
}

/// What a raw notification of kind `kind` on `paths` becomes, given the
/// clock's `reading`: for an ignored kind, no events; else the events of
/// the reading's instant, or, where it gives none, the clock failure.
pub open spec fn notify_outcome(
    kind: RawKind,
    paths: Seq<String>,
    reading: Option<(u64, u32)>,
    r: Result<Vec<WatchEvent>, AppError>,
) -> bool {
    match classify(kind) {
        None => r is Ok && r->Ok_0@.len() == 0,
        Some(_) => match timestamp_of_reading(reading) {
            Some(ts) => r is Ok && r->Ok_0@ == events_of(kind, paths, ts),
            None => r is Err && is_clock_failure(r->Err_0),
        },
    }
}

/// The description of a clock that cannot be read.
pub open spec fn clock_failure_message() -> Seq<char> {
    "Не удалось прочитать системное время"@
}

/// Whether `e` reports a clock that cannot be read.
pub open spec fn is_clock_failure(e: AppError) -> bool {
    match e {
        AppError::Io(m) => m@ == clock_failure_message(),
        _ => false,
    }
}

/// Decides which events pass: by the extension of the file, and by a
/// shell-style pattern on the file's name.
#[derive(Debug)]
pub struct EventFilter {
    extensions: Vec<String>,
    pattern: Option<String>,
}

/// Whether the file at `path` passes the extension list `exts`: the list is
/// empty, or one of its entries, without its leading dots, is the file's
/// extension.
pub open spec fn extension_passes(exts: Seq<Seq<char>>, path: Seq<char>) -> bool {
    exts.len() == 0 || exists|i: int|
        0 <= i < exts.len() && #[trigger] strip_leading(exts[i], '.') == extension_or_empty(path)
}

/// Whether the file at `path` passes the pattern `pattern`: there is none,
/// or it matches the file's name.
pub open spec fn pattern_passes(pattern: Option<Seq<char>>, path: Seq<char>) -> bool {
    match pattern {
        Some(g) => glob_matches(g, file_name_or_empty(path)),
        None => true,
    }
}

/// The prefix of the message for a pattern that does not compile.
pub open spec fn bad_pattern_prefix() -> Seq<char> {
    "Неверный glob-паттерн: "@
}

impl Clone for EventFilter {
    /// A filter with the same extensions and pattern.
    fn clone(&self) -> (r: EventFilter)
        ensures
            r.extension_list() == self.extension_list(),
            r.glob() == self.glob(),
    {
        proof {
            use_type_invariant(self);
        }
        let mut extensions: Vec<String> = Vec::new();
        let mut i: usize = 0;
        while i < self.extensions.len()
            invariant
                i <= self.extensions.len(),
                views(extensions@) =~= views(self.extensions@.take(i as int)),
            decreases self.extensions.len() - i,
        {
            let e = self.extensions[i].clone();
            proof {
                assert(self.extensions@.take(i + 1) =~= self.extensions@.take(i as int).push(
                    self.extensions@[i as int],
                ));
            }
            let ghost before = extensions@;
            assert(e == self.extensions@[i as int]);
            extensions.push(e);
            proof {
                assert(extensions@ =~= before.push(e));
                assert(views(extensions@) =~= views(before).push(e@));
                assert(views(self.extensions@.take(i + 1)) =~= views(
                    self.extensions@.take(i as int),
                ).push(e@));
            }
            i = i + 1;
        }
        proof {
            assert(self.extensions@.take(self.extensions.len() as int) =~= self.extensions@);
        }
        let pattern = match &self.pattern {
            Some(p) => Some(p.clone()),
            None => None,
        };
        EventFilter { extensions, pattern }
    }
}

impl EventFilter {
    #[verifier::type_invariant]
    spec fn pattern_compiles(self) -> bool {
        match self.pattern {
            Some(p) => glob_compile_error(p@) is None,
            None => true,
        }
    }

    /// The extensions that the filter lets through.
    pub closed spec fn extension_list(self) -> Seq<Seq<char>> {
        views(self.extensions@)
    }

    /// The pattern that file names must match, if any.
    pub closed spec fn glob(self) -> Option<Seq<char>> {
        match self.pattern {
            Some(p) => Some(p@),
            None => None,
        }
    }

    /// Whether an event on the file at `path` passes the filter.
    pub open spec fn accepts(self, path: Seq<char>) -> bool {
        &&& extension_passes(self.extension_list(), path)
        &&& pattern_passes(self.glob(), path)
    }

    /// A filter from a list of extensions (empty: any extension) and an
    /// optional pattern on file names, which must compile.
    pub fn new(extensions: Vec<String>, glob_str: Option<&str>) -> (r: Result<
        EventFilter,
        AppError,
    >)
        ensures
            match glob_str {
                None => r matches Ok(f) && f.extension_list() == views(extensions@) && f.glob()
                    is None,
                Some(g) => match glob_compile_error(g@) {
                    None => r matches Ok(f) && f.extension_list() == views(extensions@)
                        && f.glob() == Some(g@),
                    Some(m) => r matches Err(AppError::ConfigError(msg)) && msg@
                        == bad_pattern_prefix() + m,
                },
            },
    {
        match glob_str {
            None => Ok(EventFilter { extensions, pattern: None }),
            Some(g) => match check_glob(g) {
                Ok(()) => Ok(EventFilter { extensions, pattern: Some(String::from_str(g)) }),
                Err(m) => {
                    let msg = String::from_str("Неверный glob-паттерн: ").concat(m.as_str());
                    Err(AppError::ConfigError(msg))
                },
            },
        }
    }

    /// Whether `event` passes the filter.
    pub fn matches(&self, event: &WatchEvent) -> (r: bool)
        ensures
            r == self.accepts(event.path@),
            r == (extension_passes(self.extension_list(), event.path@) && match self.glob() {
                Some(g) => glob_matches(g, file_name_or_empty(event.path@)),
                None => true,
            }),
    {
        proof {
            use_type_invariant(self);
        }
        if self.extensions.len() > 0 {
            let path_ext = extension_text(event.path.as_str());
            let mut found = false;
            let mut i: usize = 0;
            while i < self.extensions.len() && !found
                invariant
                    i <= self.extensions.len(),
                    path_ext@ == extension_or_empty(event.path@),
                    found ==> extension_passes(self.extension_list(), event.path@),
                    !found ==> forall|k: int|
                        0 <= k < i ==> #[trigger] strip_leading(self.extension_list()[k], '.')
                            != extension_or_empty(event.path@),
                decreases self.extensions.len() - i,
            {
                let e = strip_leading_str(self.extensions[i].as_str(), '.');
                proof {
                    assert(self.extension_list()[i as int] == self.extensions@[i as int]@);
                }
                if e == path_ext {
                    found = true;
                }
                i = i + 1;
            }
            if !found {
                return false;
            }
        }
        match &self.pattern {
            Some(p) => {
                let name = file_name_text(event.path.as_str());
                glob_match(p.as_str(), name.as_str())
            },
            None => true,
        }
    }
}

/// Which notifications matter, and as what: a creation is reported as
/// created, a rename as renamed, any other change as modified and a removal
/// as deleted; accesses, unknown and service-specific notifications are
/// ignored.
pub proof fn lemma_raw_kinds_reported()
    ensures
        classify(RawKind::Create) == Some(EventKind::Created),
        classify(RawKind::ModifyName) == Some(EventKind::Renamed),
        classify(RawKind::Modify) == Some(EventKind::Modified),
        classify(RawKind::Remove) == Some(EventKind::Deleted),
        classify(RawKind::Access) is None,
        classify(RawKind::Any) is None,
        classify(RawKind::Other) is None,
{
}

/// A notification of an ignored kind becomes no event; any other becomes
/// exactly one event per path, of its kind, on that path, at that time.
pub proof fn lemma_one_event_per_path(kind: RawKind, paths: Seq<String>, ts: Timestamp)
    ensures
        classify(kind) is None ==> events_of(kind, paths, ts).len() == 0,
        classify(kind) matches Some(k) ==> {
            &&& events_of(kind, paths, ts).len() == paths.len()
            &&& forall|i: int|
                0 <= i < paths.len() ==> #[trigger] events_of(kind, paths, ts)[i] == WatchEvent {
                    kind: k,
                    path: paths[i],
                    timestamp: ts,
                }
        },
{
}

/// Whether an event passes a filter depends on its file's name alone: two
/// paths with the same final component pass or fail together, whatever
/// directories lead to them. In particular the pattern is never tried on
/// the directories of the path.
pub proof fn lemma_filter_reads_file_name_only(f: EventFilter, p1: Seq<char>, p2: Seq<char>)
    requires
        file_name_or_empty(p1) == file_name_or_empty(p2),
    ensures
        pattern_passes(f.glob(), p1) == pattern_passes(f.glob(), p2),
        extension_passes(f.extension_list(), p1) == extension_passes(f.extension_list(), p2),
        f.accepts(p1) == f.accepts(p2),
{
    lemma_same_name_same_extension(p1, p2);
}

/// With a pattern set, an event passes it exactly when the pattern matches
/// the final component of its path.
pub proof fn lemma_pattern_on_file_name(g: Seq<char>, path: Seq<char>)
    ensures
        pattern_passes(Some(g), path) == glob_matches(g, file_name_or_empty(path)),
{
}

/// A filter with no extensions and no pattern lets every event through.
pub proof fn lemma_empty_filter_accepts_all(f: EventFilter, path: Seq<char>)
    requires
        f.extension_list().len() == 0,
        f.glob() is None,
    ensures
        f.accepts(path),
{
}

/// Leading dots on a configured extension make no difference: `.rs` lets
/// through what `rs` does.
pub proof fn lemma_extension_dots_ignored(exts: Seq<Seq<char>>, i: int, path: Seq<char>)
    requires
        0 <= i < exts.len(),
    ensures
        extension_passes(exts.update(i, seq!['.'] + exts[i]), path) == extension_passes(
            exts,
            path,
        ),
{
    let e = exts[i];
    let d = seq!['.'] + e;
    assert(d.drop_first() =~= e);
    assert(strip_leading(d, '.') == strip_leading(e, '.'));
    let u = exts.update(i, d);
    assert forall|k: int| 0 <= k < exts.len() implies strip_leading(#[trigger] u[k], '.')
        == strip_leading(exts[k], '.') by {
        if k == i {
            assert(u[k] == d);
        }
    }
    if extension_passes(exts, path) && exts.len() > 0 {
        let k = choose|k: int|
            0 <= k < exts.len() && #[trigger] strip_leading(exts[k], '.') == extension_or_empty(
                path,
            );
        assert(strip_leading(u[k], '.') == extension_or_empty(path));
    }
    if extension_passes(u, path) && u.len() > 0 {
        let k = choose|k: int|
            0 <= k < u.len() && #[trigger] strip_leading(u[k], '.') == extension_or_empty(path);
        assert(strip_leading(exts[k], '.') == extension_or_empty(path));
    }
}

} // verus!
