//! The decisions of the watch loop. Events are held back per path until the
//! notifications pause for the debounce interval; then the latest event of
//! each path is handed to the reporters.

use vstd::prelude::*;
use crate::clock::{reading_ok, timestamp_of_reading};
use crate::errors::AppError;
use crate::event::RawKind;
use crate::event::{
    classify, clock_failure_message, events_of, notify_outcome, EventFilter, RawEvent, WatchEvent,
};
use crate::paths::{path_key, same_path};

verus! {

/// What identifies a path: whether it starts at the root, and its
/// components.
pub type PathKey = (bool, Seq<Seq<char>>);

/// What identifies the path of `e`: paths that differ only in repeated,
/// trailing or `.` separators name the same file.
pub open spec fn key_of(e: WatchEvent) -> PathKey {
    path_key(e.path@)
}

/// No two events in `s` concern the same path.
pub open spec fn distinct_paths(s: Seq<WatchEvent>) -> bool {
    forall|i: int, j: int|
        0 <= i < s.len() && 0 <= j < s.len() && i != j ==> #[trigger] key_of(s[i]) != #[trigger] key_of(s[j])
}

/// Some event in `s` concerns the path with key `p`.
pub open spec fn has_path(s: Seq<WatchEvent>, p: PathKey) -> bool {
    exists|i: int| 0 <= i < s.len() && #[trigger] key_of(s[i]) == p
}

/// `s` after recording `e`: an event on the same path is replaced in place,
/// else `e` is appended.
pub open spec fn record(s: Seq<WatchEvent>, e: WatchEvent) -> Seq<WatchEvent> {
    if has_path(s, key_of(e)) {
        Seq::new(s.len(), |j: int| if key_of(s[j]) == key_of(e) { e } else { s[j] })
    } else {
        s.push(e)
    }
}

/// `s` after recording each event of `es` in turn.
pub open spec fn record_all(s: Seq<WatchEvent>, es: Seq<WatchEvent>) -> Seq<WatchEvent>
    decreases es.len(),
{
    if es.len() == 0 {
        s
    } else {
        record(record_all(s, es.drop_last()), es.last())
    }
}

/// The events of `es` that pass `filter`, in order.
pub open spec fn accepted(filter: EventFilter, es: Seq<WatchEvent>) -> Seq<WatchEvent>
    decreases es.len(),
{
    if es.len() == 0 {
        es
    } else {
        let rest = accepted(filter, es.drop_last());
        if filter.accepts(es.last().path@) {
            rest.push(es.last())
        } else {
            rest
        }
    }
}

/// The events that pass a filter, as vstd's `Seq::filter` keeps them: those
/// of `es` that `filter` accepts, in their order. Whatever precedes it, an
/// event that passes is kept and one that does not is dropped; so every
/// kept event passes, and every event that passes is kept.
pub proof fn lemma_accepted_is_filter(filter: EventFilter, es: Seq<WatchEvent>)
    ensures
        accepted(filter, es) == es.filter(|e: WatchEvent| filter.accepts(e.path@)),
        forall|i: int|
            0 <= i < accepted(filter, es).len() ==> filter.accepts(
                #[trigger] accepted(filter, es)[i].path@,
            ),
        forall|i: int|
            0 <= i < es.len() && filter.accepts(es[i].path@) ==> #[trigger] accepted(
                filter,
                es,
            ).contains(es[i]),
    decreases es.len(),
{
    let pred = |e: WatchEvent| filter.accepts(e.path@);
    reveal(Seq::filter);
    if es.len() > 0 {
        lemma_accepted_is_filter(filter, es.drop_last());
    }
    assert(accepted(filter, es) == es.filter(pred));
    assert forall|i: int| 0 <= i < accepted(filter, es).len() implies filter.accepts(
        #[trigger] accepted(filter, es)[i].path@,
    ) by {
        es.lemma_filter_pred(pred, i);
    }
    assert forall|i: int| 0 <= i < es.len() && filter.accepts(es[i].path@) implies #[trigger] accepted(
        filter,
        es,
    ).contains(es[i]) by {
        es.lemma_filter_contains(pred, i);
    }
}

/// One more event of a notification is held back exactly when it passes
/// the filter, whatever the events before it: it is appended to those
/// already kept, or nothing changes.
pub proof fn lemma_accepted_push(filter: EventFilter, es: Seq<WatchEvent>, e: WatchEvent)
    ensures
        filter.accepts(e.path@) ==> accepted(filter, es.push(e)) == accepted(filter, es).push(e),
        !filter.accepts(e.path@) ==> accepted(filter, es.push(e)) == accepted(filter, es),
{
    assert(es.push(e).drop_last() =~= es);
}

/// The event that `s` holds for the path with key `p`, looking from the end.
pub open spec fn event_for(s: Seq<WatchEvent>, p: PathKey) -> Option<WatchEvent>
    decreases s.len(),
{
    if s.len() == 0 {
        None
    } else if key_of(s.last()) == p {
        Some(s.last())
    } else {
        event_for(s.drop_last(), p)
    }
}

proof fn lemma_event_for_index(s: Seq<WatchEvent>, p: PathKey)
    requires
        distinct_paths(s),
    ensures
        forall|i: int| 0 <= i < s.len() && #[trigger] key_of(s[i]) == p ==> event_for(s, p) == Some(
            s[i],
        ),
        !has_path(s, p) ==> event_for(s, p) is None,
    decreases s.len(),
{
    if s.len() > 0 {
        let init = s.drop_last();
        assert(distinct_paths(init)) by {
            assert forall|i: int, j: int|
                0 <= i < init.len() && 0 <= j < init.len() && i != j implies #[trigger] key_of(init[i])
                != #[trigger] key_of(init[j]) by {
                assert(init[i] == s[i] && init[j] == s[j]);
            }
        }
        lemma_event_for_index(init, p);
        assert forall|i: int| 0 <= i < s.len() && #[trigger] key_of(s[i]) == p implies event_for(
            s,
            p,
        ) == Some(s[i]) by {
            if i < s.len() - 1 {
                assert(key_of(s[s.len() - 1]) != key_of(s[i]));
                assert(init[i] == s[i]);
            }
        }
        if !has_path(s, p) {
            assert(key_of(s[s.len() - 1]) != p);
            assert(!has_path(init, p)) by {
                if has_path(init, p) {
                    let k = choose|k: int| 0 <= k < init.len() && #[trigger] key_of(init[k]) == p;
                    assert(key_of(s[k]) == p);
                }
            }
        }
    }
}

/// Recording keeps the paths of the held events distinct.
pub proof fn lemma_record_keeps_paths_distinct(s: Seq<WatchEvent>, e: WatchEvent)
    requires
        distinct_paths(s),
    ensures
        distinct_paths(record(s, e)),
{
    let r = record(s, e);
    if has_path(s, key_of(e)) {
        assert forall|i: int, j: int|
            0 <= i < r.len() && 0 <= j < r.len() && i != j implies #[trigger] key_of(r[i])
            != #[trigger] key_of(r[j]) by {
            if key_of(s[i]) == key_of(e) {
                assert(key_of(s[j]) != key_of(s[i]));
            } else if key_of(s[j]) == key_of(e) {
                assert(key_of(s[j]) != key_of(s[i]));
            }
        }
    } else {
        assert forall|i: int, j: int|
            0 <= i < r.len() && 0 <= j < r.len() && i != j implies #[trigger] key_of(r[i])
            != #[trigger] key_of(r[j]) by {
            if i == s.len() {
                assert(key_of(s[j]) != key_of(e));
            } else if j == s.len() {
                assert(key_of(s[i]) != key_of(e));
            }
        }
    }
}

/// The latest event for a path wins: after recording `e`, the held event
/// for `e`'s path is `e`, and the held event for every other path is what
/// it was. Paths are told apart by their components.
pub proof fn lemma_latest_event_wins(s: Seq<WatchEvent>, e: WatchEvent, p: PathKey)
    requires
        distinct_paths(s),
    ensures
        event_for(record(s, e), p) == if p == key_of(e) {
            Some(e)
        } else {
            event_for(s, p)
        },
{
    let r = record(s, e);
    lemma_record_keeps_paths_distinct(s, e);
    lemma_event_for_index(s, p);
    lemma_event_for_index(r, p);
    if has_path(s, key_of(e)) {
        let k = choose|k: int| 0 <= k < s.len() && #[trigger] key_of(s[k]) == key_of(e);
        if p == key_of(e) {
            assert(key_of(r[k]) == p);
        } else if has_path(s, p) {
            let m = choose|m: int| 0 <= m < s.len() && #[trigger] key_of(s[m]) == p;
            assert(r[m] == s[m]);
        } else {
            assert(!has_path(r, p)) by {
                if has_path(r, p) {
                    let m = choose|m: int| 0 <= m < r.len() && #[trigger] key_of(r[m]) == p;
                    assert(key_of(s[m]) == p);
                }
            }
        }
    } else {
        if p == key_of(e) {
            assert(key_of(r[s.len() as int]) == p);
        } else if has_path(s, p) {
            let m = choose|m: int| 0 <= m < s.len() && #[trigger] key_of(s[m]) == p;
            assert(r[m] == s[m]);
        } else {
            assert(!has_path(r, p)) by {
                if has_path(r, p) {
                    let m = choose|m: int| 0 <= m < r.len() && #[trigger] key_of(r[m]) == p;
                    assert(m < s.len());
                    assert(key_of(s[m]) == p);
                }
            }
        }
    }
}

/// Over a whole debounce window the latest event for each path wins: after
/// recording the events `es` in turn, the held event for a path is the last
/// event of `es` on that path, else the one held before the window.
pub proof fn lemma_latest_event_wins_over_window(s: Seq<WatchEvent>, es: Seq<WatchEvent>, p: PathKey)
    requires
        distinct_paths(s),
    ensures
        distinct_paths(record_all(s, es)),
        event_for(record_all(s, es), p) == match event_for(es, p) {
            Some(e) => Some(e),
            None => event_for(s, p),
        },
    decreases es.len(),
{
    if es.len() > 0 {
        let before = record_all(s, es.drop_last());
        lemma_latest_event_wins_over_window(s, es.drop_last(), p);
        lemma_latest_event_wins(before, es.last(), p);
        lemma_record_keeps_paths_distinct(before, es.last());
    }
}

/// The events held back until the notifications pause, at most one per
/// path.
#[derive(Debug)]
pub struct Debouncer {
    pending: Vec<WatchEvent>,
}

/// What the watch loop receives.
#[derive(Debug)]
pub enum WatcherInput {
    /// A notification arrived.
    Notify(RawEvent),
    /// The notification service reported a failure, with its description.
    NotifyFailed(String),
    /// No notification arrived within the debounce interval.
    Timeout,
    /// The notification service has shut down.
    Disconnected,
}

/// What the watch loop is to do next.
#[derive(Debug)]
pub enum WatcherAction {
    /// Wait for the next input.
    Wait,
    /// Hand each of these events to every reporter, then wait.
    Report(Vec<WatchEvent>),
    /// Print this failure, then wait.
    LogError(String),
    /// Stop watching.
    Stop,
}

/// What a notification of kind `kind` on `paths` does, given the clock's
/// `reading`, to the held events `before`, leaving `after`, with the action
/// `a`: an ignored kind changes nothing; else the events of the reading's
/// instant that pass `filter` are held back, or, where the reading gives no
/// instant, the clock failure is passed on for printing and nothing changes.
pub open spec fn notify_step(
    before: Seq<WatchEvent>,
    after: Seq<WatchEvent>,
    filter: EventFilter,
    kind: RawKind,
    paths: Seq<String>,
    reading: Option<(u64, u32)>,
    a: WatcherAction,
) -> bool {
    match classify(kind) {
        None => a is Wait && after == before,
        Some(_) => match timestamp_of_reading(reading) {
            Some(ts) => a is Wait && after == record_all(
                before,
                accepted(filter, events_of(kind, paths, ts)),
            ),
            None => clock_failed(a) && after == before,
        },
    }
}

/// Whether `a` passes on the failure to read the clock.
pub open spec fn clock_failed(a: WatcherAction) -> bool {
    match a {
        WatcherAction::LogError(m) => m@ == clock_failure_message(),
        _ => false,
    }
}

impl Debouncer {
    #[verifier::type_invariant]
    spec fn paths_distinct(self) -> bool {
        distinct_paths(self.pending@)
    }

    /// The events held back, in the order in which their paths first came.
    pub closed spec fn pending(self) -> Seq<WatchEvent> {
        self.pending@
    }

    /// Nothing held back.
    pub fn new() -> (r: Debouncer)
        ensures
            r.pending() == Seq::<WatchEvent>::empty(),
    {
        Debouncer { pending: Vec::new() }
    }

    /// Whether nothing is held back.
    pub fn is_idle(&self) -> (r: bool)
        ensures
            r == (self.pending().len() == 0),
    {
        self.pending.len() == 0
    }

    /// Holds `e` back, in place of any event on the same path (the same
    /// components, however the separators are written).
    pub fn record(&mut self, e: WatchEvent)
        ensures
            final(self).pending() == record(old(self).pending(), e),
            distinct_paths(final(self).pending()),
    {
        proof {
            use_type_invariant(&*self);
        }
        let mut v: Vec<WatchEvent> = Vec::new();
        std::mem::swap(&mut v, &mut self.pending);
        let ghost s = v@;
        let mut i: usize = 0;
        let mut found = false;
        while i < v.len() && !found
            invariant
                v@ == s,
                i <= v.len(),
                found ==> i < v.len() && key_of(s[i as int]) == key_of(e),
                forall|k: int| 0 <= k < i ==> #[trigger] key_of(s[k]) != key_of(e),
            decreases v.len() - i + (if found { 0int } else { 1int }),
        {
            if same_path(v[i].path.as_str(), e.path.as_str()) {
                found = true;
            } else {
                i = i + 1;
            }
        }
        proof {
            lemma_record_keeps_paths_distinct(s, e);
        }
        if found {
            v.set(i, e);
            proof {
                assert forall|k: int| 0 <= k < s.len() && #[trigger] key_of(s[k]) == key_of(e) implies k
                    == i by {
                    if k != i {
                        assert(key_of(s[k]) != key_of(s[i as int]));
                    }
                }
                assert(has_path(s, key_of(e)));
                assert(v@ =~= record(s, e));
            }
        } else {
            v.push(e);
            proof {
                assert(!has_path(s, key_of(e)));
                assert(v@ =~= record(s, e));
            }
        }
        self.pending = v;
    }

    /// Hands over every event held back, in order, and holds none.
    pub fn drain(&mut self) -> (r: Vec<WatchEvent>)
        ensures
            r@ == old(self).pending(),
            distinct_paths(r@),
            final(self).pending() == Seq::<WatchEvent>::empty(),
    {
        proof {
            use_type_invariant(&*self);
        }
        let mut v: Vec<WatchEvent> = Vec::new();
        std::mem::swap(&mut v, &mut self.pending);
        v
    }

    /// Holds back each event of `events` that passes `filter`, in order.
    pub fn record_accepted(&mut self, filter: &EventFilter, events: Vec<WatchEvent>)
        ensures
            final(self).pending() == record_all(old(self).pending(), accepted(*filter, events@)),
            final(self).pending() == record_all(
                old(self).pending(),
                events@.filter(|e: WatchEvent| filter.accepts(e.path@)),
            ),
            distinct_paths(final(self).pending()),
    {
        proof {
            use_type_invariant(&*self);
        }
        let ghost start = self.pending();
        let mut i: usize = 0;
        proof {
            assert(events@.take(0) =~= Seq::<WatchEvent>::empty());
        }
        while i < events.len()
            invariant
                i <= events.len(),
                self.pending() == record_all(start, accepted(*filter, events@.take(i as int))),
                distinct_paths(self.pending()),
            decreases events.len() - i,
        {
            let e = events[i].clone();
            proof {
                assert(events@.take(i + 1).drop_last() =~= events@.take(i as int));
                assert(events@.take(i + 1).last() == e);
            }
            let ghost prev = accepted(*filter, events@.take(i as int));
            if filter.matches(&e) {
                proof {
                    assert(accepted(*filter, events@.take(i + 1)) == prev.push(e));
                    assert(prev.push(e).drop_last() =~= prev);
                    assert(record_all(start, prev.push(e)) == record(record_all(start, prev), e));
                }
                self.record(e);
            } else {
                assert(accepted(*filter, events@.take(i + 1)) == prev);
            }
            i = i + 1;
        }
        proof {
            assert(events@.take(events.len() as int) =~= events@);
            lemma_accepted_is_filter(*filter, events@);
        }
    }

    /// The next decision of the watch loop. A notification is turned into
    /// events, stamped with the current time; those that pass `filter` are
    /// held back. A pause hands over what is held back, if anything. A
    /// failure is passed on for printing, and a shut-down service stops the
    /// loop.
    pub fn step(&mut self, filter: &EventFilter, input: WatcherInput) -> (a: WatcherAction)
        ensures
            match input {
                WatcherInput::Notify(raw) => exists|reading: Option<(u64, u32)>|
                    reading_ok(reading) && #[trigger] notify_step(
                        old(self).pending(),
                        final(self).pending(),
                        *filter,
                        raw.kind,
                        raw.paths@,
                        reading,
                        a,
                    ),
                WatcherInput::NotifyFailed(m) => a == WatcherAction::LogError(m)
                    && final(self).pending() == old(self).pending(),
                WatcherInput::Timeout => if old(self).pending().len() == 0 {
                    a is Wait && final(self).pending() == old(self).pending()
                } else {
                    a matches WatcherAction::Report(v) && v@ == old(self).pending() && distinct_paths(
                        v@,
                    ) && final(self).pending().len() == 0
                },
                WatcherInput::Disconnected => a is Stop && final(self).pending() == old(
                    self,
                ).pending(),
            },
            distinct_paths(final(self).pending()),
    {
        proof {
            use_type_invariant(&*self);
        }
        match input {
            WatcherInput::Notify(raw) => {
                let ghost kind = raw.kind;
                let ghost paths = raw.paths@;
                let ghost before = self.pending();
                let outcome = WatchEvent::from_notify_event(raw);
                let ghost reading = choose|reading: Option<(u64, u32)>|
                    reading_ok(reading) && notify_outcome(kind, paths, reading, outcome);
                let a = match outcome {
                    Ok(events) => {
                        self.record_accepted(filter, events);
                        WatcherAction::Wait
                    },
                    Err(AppError::Io(m)) => WatcherAction::LogError(m),
                    Err(_) => {
                        proof {
                            assert(false);
                        }
                        WatcherAction::Wait
                    },
                };
                proof {
                    if classify(kind) is None {
                        assert(accepted(*filter, Seq::<WatchEvent>::empty()) =~= Seq::<
                            WatchEvent,
                        >::empty());
                    }
                    assert(notify_step(before, self.pending(), *filter, kind, paths, reading, a));
                }
                a
            },
            WatcherInput::NotifyFailed(m) => WatcherAction::LogError(m),
            WatcherInput::Timeout => {
                if self.is_idle() {
                    WatcherAction::Wait
                } else {
                    WatcherAction::Report(self.drain())
                }
            },
            WatcherInput::Disconnected => WatcherAction::Stop,
        }
    }
}

/// Whether the watch covers subdirectories.
#[derive(Debug, Clone, Copy, PartialEq, Eq, Structural)]
pub enum WatchMode {
    /// The directory and everything below it.
    Recursive,
    /// The directory alone.
    NonRecursive,
}

/// The watch mode that the `recursive` setting asks for.
pub fn watch_mode(recursive: bool) -> (r: WatchMode)
    ensures
        r == (if recursive {
            WatchMode::Recursive
        } else {
            WatchMode::NonRecursive
        }),
{
    if recursive {
        WatchMode::Recursive
    } else {
        WatchMode::NonRecursive
    }
}

} // verus!
