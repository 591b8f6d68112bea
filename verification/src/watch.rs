//! The polling state machine of the watcher.
//!
//! One watch session primes a baseline from the persisted slot (or, when the
//! slot is empty, from a single fetch), then repeatedly compares a freshly
//! fetched value against that baseline. On a change it notifies once and,
//! only after the notification went out, persists the new value and adopts
//! it as the baseline. A fetch failure, or a failed notification, ends the
//! session.
//!
//! The machine itself performs no clock waiting, no fetching, no sending and
//! no file access: [`WatchState::step`] maps the current state and an
//! incoming event to the next state and the single action the driver must
//! perform. The driver owns the tick interval and the transports, and feeds
//! each outcome back as the next event.

use vstd::prelude::*;

verus! {

/// How long the driver waits between polls, unless configured otherwise.
pub const DEFAULT_POLL_INTERVAL_SECS: u64 = 60 * 120;

/// State of one watch session.
#[derive(Debug)]
pub enum WatchState {
    /// Awaiting the persisted slot's content.
    Priming,
    /// The slot was empty: awaiting the first fetch, which sets the baseline.
    PrimingFetch,
    /// Comparing each fetched value against the last value acted on.
    Polling { baseline: String },
    /// A change was detected: awaiting the notification's outcome.
    Notifying { baseline: String, fetched: String },
    /// The session is over; no further event has any effect.
    Terminated,
}

/// What the driver reports to the machine.
#[derive(Debug)]
pub enum WatchEvent {
    /// The persisted slot's content, read once at startup.
    Loaded(Option<String>),
    /// A fetch returned this value.
    Fetched(String),
    /// A fetch failed.
    FetchFailed,
    /// The pending notification was sent.
    Notified,
    /// The pending notification could not be sent.
    NotifyFailed,
}

/// What the driver must do next.
#[derive(Debug)]
pub enum WatchAction {
    /// Perform one fetch and report its outcome.
    Fetch,
    /// Nothing to do until the next tick.
    Idle,
    /// Write this value to the persisted slot.
    Persist { value: String },
    /// Send one change notification carrying the old and the new value.
    Notify { previous: String, current: String },
    /// The session failed: exit with a non-zero status.
    Abort,
    /// A notification could not be sent: stop the daemon record, then exit
    /// with a non-zero status.
    StopAndAbort,
}

/// Mathematical image of a [`WatchState`].
pub enum WatchStateView {
    Priming,
    PrimingFetch,
    Polling { baseline: Seq<char> },
    Notifying { baseline: Seq<char>, fetched: Seq<char> },
    Terminated,
}

/// Mathematical image of a [`WatchEvent`].
pub enum WatchEventView {
    Loaded(Option<Seq<char>>),
    Fetched(Seq<char>),
    FetchFailed,
    Notified,
    NotifyFailed,
}

/// Mathematical image of a [`WatchAction`].
pub enum WatchActionView {
    Fetch,
    Idle,
    Persist { value: Seq<char> },
    Notify { previous: Seq<char>, current: Seq<char> },
    Abort,
    StopAndAbort,
}

impl View for WatchState {
    type V = WatchStateView;

    open spec fn view(&self) -> WatchStateView {
        match self {
            WatchState::Priming => WatchStateView::Priming,
            WatchState::PrimingFetch => WatchStateView::PrimingFetch,
            WatchState::Polling { baseline } => (WatchStateView::Polling { baseline: baseline@ }),
            WatchState::Notifying { baseline, fetched } => (WatchStateView::Notifying {
                baseline: baseline@,
                fetched: fetched@,
            }),
            WatchState::Terminated => WatchStateView::Terminated,
        }
    }
}

impl View for WatchEvent {
    type V = WatchEventView;

    open spec fn view(&self) -> WatchEventView {
        match self {
            WatchEvent::Loaded(stored) => WatchEventView::Loaded(
                match stored {
                    Option::Some(v) => Option::Some(v@),
                    Option::None => Option::None,
                },
            ),
            WatchEvent::Fetched(v) => WatchEventView::Fetched(v@),
            WatchEvent::FetchFailed => WatchEventView::FetchFailed,
            WatchEvent::Notified => WatchEventView::Notified,
            WatchEvent::NotifyFailed => WatchEventView::NotifyFailed,
        }
    }
}

impl View for WatchAction {
    type V = WatchActionView;

    open spec fn view(&self) -> WatchActionView {
        match self {
            WatchAction::Fetch => WatchActionView::Fetch,
            WatchAction::Idle => WatchActionView::Idle,
            WatchAction::Persist { value } => (WatchActionView::Persist { value: value@ }),
            WatchAction::Notify { previous, current } => (WatchActionView::Notify {
                previous: previous@,
                current: current@,
            }),
            WatchAction::Abort => WatchActionView::Abort,
            WatchAction::StopAndAbort => WatchActionView::StopAndAbort,
        }
    }
}

/// The transition relation of the watcher, as one total function from state
/// and event to next state and action. An event that the state does not
/// expect changes nothing and asks for nothing.
pub open spec fn spec_step(s: WatchStateView, e: WatchEventView) -> (WatchStateView, WatchActionView) {
    match (s, e) {
        (WatchStateView::Priming, WatchEventView::Loaded(stored)) => match stored {
            Option::Some(v) => ((WatchStateView::Polling { baseline: v }), WatchActionView::Idle),
            Option::None => (WatchStateView::PrimingFetch, WatchActionView::Fetch),
        },
        (WatchStateView::PrimingFetch, WatchEventView::Fetched(v)) => (
            (WatchStateView::Polling { baseline: v }),
            (WatchActionView::Persist { value: v }),
        ),
        (WatchStateView::PrimingFetch, WatchEventView::FetchFailed) => (
            WatchStateView::Terminated,
            WatchActionView::Abort,
        ),
        (WatchStateView::Polling { baseline }, WatchEventView::Fetched(v)) => if v == baseline {
            ((WatchStateView::Polling { baseline }), WatchActionView::Idle)
        } else {
            (
                (WatchStateView::Notifying { baseline, fetched: v }),
                (WatchActionView::Notify { previous: baseline, current: v }),
            )
        },
        (WatchStateView::Polling { baseline }, WatchEventView::FetchFailed) => (
            WatchStateView::Terminated,
            WatchActionView::Abort,
        ),
        (WatchStateView::Notifying { baseline, fetched }, WatchEventView::Notified) => (
            (WatchStateView::Polling { baseline: fetched }),
            (WatchActionView::Persist { value: fetched }),
        ),
        (WatchStateView::Notifying { baseline, fetched }, WatchEventView::NotifyFailed) => (
            WatchStateView::Terminated,
            WatchActionView::StopAndAbort,
        ),
        (other, _) => (other, WatchActionView::Idle),
    }
}

impl WatchState {
    /// Advance the machine by one event, handing back the next state and
    /// the one action the driver must perform before the next event.
    pub fn step(self, event: WatchEvent) -> (r: (WatchState, WatchAction))
        ensures
            r.0@ == spec_step(self@, event@).0,
            r.1@ == spec_step(self@, event@).1,
    {
        match (self, event) {
            (WatchState::Priming, WatchEvent::Loaded(stored)) => match stored {
                Some(v) => (WatchState::Polling { baseline: v }, WatchAction::Idle),
                None => (WatchState::PrimingFetch, WatchAction::Fetch),
            },
            (WatchState::PrimingFetch, WatchEvent::Fetched(v)) => (
                WatchState::Polling { baseline: v.clone() },
                WatchAction::Persist { value: v },
            ),
            (WatchState::PrimingFetch, WatchEvent::FetchFailed) => (
                WatchState::Terminated,
                WatchAction::Abort,
            ),
            (WatchState::Polling { baseline }, WatchEvent::Fetched(v)) => {
                if v == baseline {
                    (WatchState::Polling { baseline }, WatchAction::Idle)
                } else {
                    (
                        WatchState::Notifying { baseline: baseline.clone(), fetched: v.clone() },
                        WatchAction::Notify { previous: baseline, current: v },
                    )
                }
            },
            (WatchState::Polling { baseline }, WatchEvent::FetchFailed) => (
                WatchState::Terminated,
                WatchAction::Abort,
            ),
            (WatchState::Notifying { baseline: _, fetched }, WatchEvent::Notified) => (
                WatchState::Polling { baseline: fetched.clone() },
                WatchAction::Persist { value: fetched },
            ),
            (WatchState::Notifying { baseline: _, fetched: _ }, WatchEvent::NotifyFailed) => (
                WatchState::Terminated,
                WatchAction::StopAndAbort,
            ),
            (other, _) => (other, WatchAction::Idle),
        }
    }
}

// A polling round is one fetch, followed, when a change was detected, by a
// successful notification. The functions below fold the machine itself over
// a whole session of such rounds, so that the laws about sessions are laws
// about `spec_step`, not about a parallel definition.

/// The state a round ends in, starting from `Polling { baseline }`.
pub open spec fn round_state(baseline: Seq<char>, v: Seq<char>) -> WatchStateView {
    let afterwards = spec_step(
        (WatchStateView::Polling { baseline }),
        WatchEventView::Fetched(v),
    ).0;
    if afterwards is Notifying {
        spec_step(afterwards, WatchEventView::Notified).0
    } else {
        afterwards
    }
}

/// The baseline a round ends with.
pub open spec fn round_baseline(baseline: Seq<char>, v: Seq<char>) -> Seq<char> {
    match round_state(baseline, v) {
        WatchStateView::Polling { baseline: b } => b,
        _ => baseline,
    }
}

/// The notifications a round sends: the (previous, current) pairs the
/// machine's `Notify` actions carry.
pub open spec fn round_notices(baseline: Seq<char>, v: Seq<char>) -> Seq<(Seq<char>, Seq<char>)> {
    match spec_step((WatchStateView::Polling { baseline }), WatchEventView::Fetched(v)).1 {
        WatchActionView::Notify { previous, current } => seq![(previous, current)],
        _ => Seq::empty(),
    }
}

/// The values a round writes to the persisted slot, in order.
pub open spec fn round_persists(baseline: Seq<char>, v: Seq<char>) -> Seq<Seq<char>> {
    let afterwards = spec_step(
        (WatchStateView::Polling { baseline }),
        WatchEventView::Fetched(v),
    ).0;
    if afterwards is Notifying {
        match spec_step(afterwards, WatchEventView::Notified).1 {
            WatchActionView::Persist { value } => seq![value],
            _ => Seq::empty(),
        }
    } else {
        Seq::empty()
    }
}

/// All notifications a session of rounds sends, in order.
pub open spec fn session_notices(baseline: Seq<char>, vs: Seq<Seq<char>>) -> Seq<
    (Seq<char>, Seq<char>),
>
    decreases vs.len(),
{
    if vs.len() == 0 {
        Seq::empty()
    } else {
        round_notices(baseline, vs[0]) + session_notices(
            round_baseline(baseline, vs[0]),
            vs.drop_first(),
        )
    }
}

/// All values a session of rounds persists, in order.
pub open spec fn session_persists(baseline: Seq<char>, vs: Seq<Seq<char>>) -> Seq<Seq<char>>
    decreases vs.len(),
{
    if vs.len() == 0 {
        Seq::empty()
    } else {
        round_persists(baseline, vs[0]) + session_persists(
            round_baseline(baseline, vs[0]),
            vs.drop_first(),
        )
    }
}

/// The baseline a session of rounds ends with.
pub open spec fn session_baseline(baseline: Seq<char>, vs: Seq<Seq<char>>) -> Seq<char>
    decreases vs.len(),
{
    if vs.len() == 0 {
        baseline
    } else {
        session_baseline(round_baseline(baseline, vs[0]), vs.drop_first())
    }
}

/// Priming with a stored value restores it as the baseline, fetching
/// nothing and notifying nobody; and as long as a later fetch returns that
/// primed baseline, still nothing is notified.
pub proof fn lemma_priming_with_stored_value(v: Seq<char>, f: Seq<char>)
    ensures
        spec_step(WatchStateView::Priming, WatchEventView::Loaded(Option::Some(v))).0 == (
        WatchStateView::Polling { baseline: v }),
        spec_step(WatchStateView::Priming, WatchEventView::Loaded(Option::Some(v))).1
            == WatchActionView::Idle,
        f == v ==> round_notices(v, f) == Seq::<(Seq<char>, Seq<char>)>::empty(),
        f == v ==> round_baseline(v, f) == v,
{
}

/// Priming with an empty slot asks for exactly one fetch; the fetched value
/// is persisted and becomes the baseline, and no notification is sent for
/// this first observation.
pub proof fn lemma_priming_without_stored_value(v: Seq<char>)
    ensures
        spec_step(WatchStateView::Priming, WatchEventView::Loaded(Option::None)) == (
        WatchStateView::PrimingFetch,
        WatchActionView::Fetch,
        ),
        spec_step(WatchStateView::PrimingFetch, WatchEventView::Fetched(v)).0 == (
        WatchStateView::Polling { baseline: v }),
        spec_step(WatchStateView::PrimingFetch, WatchEventView::Fetched(v)).1 == (
        WatchActionView::Persist { value: v }),
{
}

/// Over a session in which every fetched value differs from its
/// predecessor (and the first from the baseline), every fetch is notified:
/// one notification per fetch, carrying the (previous, new) pair, and each
/// value is persisted exactly as it is processed, the last one remaining as
/// the final baseline.
pub proof fn lemma_changed_values_all_notified(baseline: Seq<char>, vs: Seq<Seq<char>>)
    requires
        vs.len() > 0 ==> vs[0] != baseline,
        forall|i: int| 0 < i < vs.len() ==> #[trigger] vs[i] != vs[i - 1],
    ensures
        session_notices(baseline, vs).len() == vs.len(),
        forall|i: int|
            0 <= i < vs.len() ==> session_notices(baseline, vs)[i] == ((
            if i == 0 {
                baseline
            } else {
                vs[i - 1]
            }
            ), vs[i]),
        session_persists(baseline, vs) == vs,
        session_baseline(baseline, vs) == if vs.len() == 0 {
            baseline
        } else {
            vs.last()
        },
    decreases vs.len(),
{
    if vs.len() > 0 {
        let v0 = vs[0];
        let rest = vs.drop_first();
        assert(round_baseline(baseline, v0) == v0);
        assert(round_notices(baseline, v0) =~= seq![(baseline, v0)]);
        assert(round_persists(baseline, v0) =~= seq![v0]);
        assert(forall|i: int| 0 < i < rest.len() ==> #[trigger] rest[i] == vs[i + 1] && rest[i - 1] == vs[i]);
        lemma_changed_values_all_notified(v0, rest);
        assert(session_persists(baseline, vs) =~= seq![v0] + rest);
        assert(seq![v0] + rest =~= vs);
        assert(session_notices(baseline, vs) =~= seq![(baseline, v0)] + session_notices(v0, rest));
        assert forall|i: int| 0 <= i < vs.len() implies session_notices(baseline, vs)[i] == ((
        if i == 0 {
            baseline
        } else {
            vs[i - 1]
        }
        ), vs[i]) by {
            if i > 0 {
                assert(session_notices(baseline, vs)[i] == session_notices(v0, rest)[i - 1]);
                if i == 1 {
                    assert(session_notices(v0, rest)[0] == (v0, rest[0]));
                } else {
                    assert(session_notices(v0, rest)[i - 1] == (rest[i - 2], rest[i - 1]));
                }
            }
        }
        if rest.len() > 0 {
            assert(vs.last() == rest.last());
        }
    }
}

/// Over a session in which every fetch returns the baseline value, nothing
/// is notified, nothing is persisted, and the baseline never moves.
pub proof fn lemma_unchanged_values_never_notified(baseline: Seq<char>, vs: Seq<Seq<char>>)
    requires
        forall|i: int| 0 <= i < vs.len() ==> vs[i] == baseline,
    ensures
        session_notices(baseline, vs) == Seq::<(Seq<char>, Seq<char>)>::empty(),
        session_persists(baseline, vs) == Seq::<Seq<char>>::empty(),
        session_baseline(baseline, vs) == baseline,
    decreases vs.len(),
{
    if vs.len() > 0 {
        assert(round_baseline(baseline, vs[0]) == baseline);
        assert(round_notices(baseline, vs[0]) =~= Seq::<(Seq<char>, Seq<char>)>::empty());
        assert(round_persists(baseline, vs[0]) =~= Seq::<Seq<char>>::empty());
        lemma_unchanged_values_never_notified(baseline, vs.drop_first());
        assert(session_notices(baseline, vs) =~= Seq::<(Seq<char>, Seq<char>)>::empty());
        assert(session_persists(baseline, vs) =~= Seq::<Seq<char>>::empty());
    }
}

// Crash resilience: the baseline the machine compares against always equals
// the value last written to the persisted slot, so a restart that primes
// from the slot resumes exactly where the crashed run had last persisted --
// a value fetched but never persisted leaves no trace.

/// The slot's content after one action is performed.
pub open spec fn slot_after(slot: Option<Seq<char>>, a: WatchActionView) -> Option<Seq<char>> {
    match a {
        WatchActionView::Persist { value } => Option::Some(value),
        _ => slot,
    }
}

/// The comparison baseline equals the persisted slot's content.
pub open spec fn baseline_matches_slot(s: WatchStateView, slot: Option<Seq<char>>) -> bool {
    match s {
        WatchStateView::Polling { baseline } => slot == Option::Some(baseline),
        WatchStateView::Notifying { baseline, fetched } => slot == Option::Some(baseline),
        _ => true,
    }
}

/// The state after a run of events.
pub open spec fn run_state(s: WatchStateView, events: Seq<WatchEventView>) -> WatchStateView
    decreases events.len(),
{
    if events.len() == 0 {
        s
    } else {
        run_state(spec_step(s, events[0]).0, events.drop_first())
    }
}

/// The slot's content after a run of events, with every `Persist` applied.
pub open spec fn run_slot(
    s: WatchStateView,
    slot: Option<Seq<char>>,
    events: Seq<WatchEventView>,
) -> Option<Seq<char>>
    decreases events.len(),
{
    if events.len() == 0 {
        slot
    } else {
        run_slot(
            spec_step(s, events[0]).0,
            slot_after(slot, spec_step(s, events[0]).1),
            events.drop_first(),
        )
    }
}

/// One step keeps the baseline equal to the persisted slot, as long as a
/// `Loaded` event reports the slot faithfully.
pub proof fn lemma_step_keeps_baseline_persisted(
    s: WatchStateView,
    slot: Option<Seq<char>>,
    e: WatchEventView,
)
    requires
        baseline_matches_slot(s, slot),
        e matches WatchEventView::Loaded(stored) ==> stored == slot,
    ensures
        baseline_matches_slot(spec_step(s, e).0, slot_after(slot, spec_step(s, e).1)),
{
}

/// A whole run keeps the baseline equal to the persisted slot: whatever is
/// fetched and notified, the machine never compares against a value that
/// was not persisted. A restart primes from the slot and so resumes with
/// the last persisted value as its baseline.
pub proof fn lemma_run_keeps_baseline_persisted(
    s: WatchStateView,
    slot: Option<Seq<char>>,
    events: Seq<WatchEventView>,
)
    requires
        baseline_matches_slot(s, slot),
        forall|i: int| 0 <= i < events.len() ==> !(#[trigger] events[i] is Loaded),
    ensures
        baseline_matches_slot(run_state(s, events), run_slot(s, slot, events)),
    decreases events.len(),
{
    if events.len() > 0 {
        lemma_step_keeps_baseline_persisted(s, slot, events[0]);
        lemma_run_keeps_baseline_persisted(
            spec_step(s, events[0]).0,
            slot_after(slot, spec_step(s, events[0]).1),
            events.drop_first(),
        );
    }
}

} // verus!
