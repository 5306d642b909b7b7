//! The collection loop as a state machine.
//!
//! A cycle reads the mount list, decodes it, maps it and publishes the
//! result, strictly in that order, and the loop then pauses before the next
//! cycle. The network and the timer are the caller's: it hands each outcome
//! to [`step`] as an [`Event`] and carries out the [`Action`] that comes
//! back. Any failure ends the cycle with [`Action::Halt`]; nothing is tried
//! again, and the caller is expected to stop.

use crate::config::Config;
use crate::fetch::{
    check_status, list_mounts_path, list_mounts_request, request_for, FetchError, FetchRequest,
    FetchRequestView, STATUS_OK,
};
use crate::list_mounts::{
    counts_valid, lemma_validation_outcome_cases, total_listeners, validation_outcome, Icestats,
    ParseError, SourceView,
};
use crate::mapper::{
    all_named, fits_i64, icecast_stats_to_measurements, lemma_map_outcome_cases, map_outcome,
    mapped_points, MapError,
};
use crate::measurement::{batch_view, PointView};
use influent::measurement::Measurement;
use vstd::prelude::*;

verus! {

/// The pause between the end of one cycle and the start of the next, in
/// seconds.
pub const PAUSE_SECS: u64 = 30;

/// What a running cycle is waiting for.
#[derive(Debug, Clone, Copy, PartialEq, Eq)]
pub enum Phase {
    /// The answer of the media server.
    Fetching,
    /// The decoded snapshot.
    Parsing,
    /// The acknowledgement of the metrics store.
    Publishing,
}

/// The state of the loop.
#[derive(Debug, Clone, Copy, PartialEq, Eq)]
pub enum LoopState {
    /// Between cycles: waiting for the next tick.
    Idle,
    /// In a cycle.
    Running(Phase),
}

impl LoopState {
    /// The state of a loop that has just started: it is idle, and the first
    /// tick is due at once.
    pub fn initial() -> (state: LoopState)
        ensures
            state == LoopState::Idle,
    {
        LoopState::Idle
    }
}

/// Why the metrics store did not take a batch.
#[derive(Debug, Clone, Copy, PartialEq, Eq)]
pub enum PublishError {
    /// The store could not be reached.
    Transport,
    /// The store answered, but did not accept the batch.
    Rejected,
}

/// Why a cycle ended without publishing.
#[derive(Debug, Clone, Copy, PartialEq, Eq)]
pub enum CycleError {
    Fetch(FetchError),
    Parse(ParseError),
    Mapping(MapError),
    Publish(PublishError),
}

/// What the caller reports to the loop.
#[derive(Debug, Clone, PartialEq, Eq)]
pub enum Event {
    /// It is time for a cycle: at startup, and after each pause.
    Tick,
    /// The media server answered with this status code and body.
    Fetched { status: u16, body: String },
    /// The media server could not be read.
    FetchFailed,
    /// The body was decoded to this snapshot, at this time in nanoseconds
    /// since the epoch.
    Parsed { snapshot: Icestats, timestamp: i64 },
    /// The body is no status document.
    ParseFailed,
    /// The metrics store took the batch.
    Published,
    /// The metrics store did not take the batch.
    PublishFailed(PublishError),
}

/// What the loop asks of the caller.
#[derive(Debug)]
pub enum Action<'a> {
    /// Read the mount list and report `Fetched` or `FetchFailed`.
    Fetch(FetchRequest<'a>),
    /// Decode this body, read the clock, and report `Parsed` or `ParseFailed`.
    Parse(&'a str),
    /// Write these measurements as one batch and report `Published` or
    /// `PublishFailed`.
    Publish(Vec<Measurement<'a>>),
    /// Pause for this many seconds, then report `Tick`.
    Sleep(u64),
    /// Stop: the cycle failed.
    Halt(CycleError),
    /// The event does not belong to the state the loop is in. It is dropped.
    Nothing,
}

/// An action as a mathematical value.
pub enum ActionView {
    Fetch(FetchRequestView),
    Parse(Seq<char>),
    Publish(Seq<PointView>),
    Sleep(u64),
    Halt(CycleError),
    Nothing,
}

impl<'a> View for Action<'a> {
    type V = ActionView;

    open spec fn view(&self) -> ActionView {
        match self {
            Action::Fetch(request) => ActionView::Fetch(request@),
            Action::Parse(body) => ActionView::Parse(body@),
            Action::Publish(batch) => ActionView::Publish(batch_view(batch@)),
            Action::Sleep(seconds) => ActionView::Sleep(*seconds),
            Action::Halt(error) => ActionView::Halt(*error),
            Action::Nothing => ActionView::Nothing,
        }
    }
}

/// What follows a decoded snapshot: the batch to publish, or the first thing
/// that is wrong with the snapshot. A listener count below zero is looked
/// for first, then a record without a mount identifier, then a total that
/// does not fit.
pub open spec fn snapshot_outcome(sources: Seq<SourceView>, host: Seq<char>, timestamp: int) -> (
    LoopState,
    ActionView,
) {
    match validation_outcome(sources) {
        Err(error) => (LoopState::Idle, ActionView::Halt(CycleError::Parse(error))),
        Ok(_) => match map_outcome(sources, host, timestamp) {
            Err(error) => (LoopState::Idle, ActionView::Halt(CycleError::Mapping(error))),
            Ok(points) => (LoopState::Running(Phase::Publishing), ActionView::Publish(points)),
        },
    }
}

/// The loop's rule: the state it goes to and the action it asks for, for
/// each state and event.
pub open spec fn transition(state: LoopState, event: Event, config: Config) -> (
    LoopState,
    ActionView,
) {
    match state {
        LoopState::Idle => match event {
            Event::Tick => (
                LoopState::Running(Phase::Fetching),
                ActionView::Fetch(request_for(config.icecast, list_mounts_path())),
            ),
            _ => (state, ActionView::Nothing),
        },
        LoopState::Running(Phase::Fetching) => match event {
            Event::Fetched { status, body } => if status == STATUS_OK {
                (LoopState::Running(Phase::Parsing), ActionView::Parse(body@))
            } else {
                (
                    LoopState::Idle,
                    ActionView::Halt(CycleError::Fetch(FetchError::NonSuccess(status))),
                )
            },
            Event::FetchFailed => (
                LoopState::Idle,
                ActionView::Halt(CycleError::Fetch(FetchError::Transport)),
            ),
            _ => (state, ActionView::Nothing),
        },
        LoopState::Running(Phase::Parsing) => match event {
            Event::Parsed { snapshot, timestamp } => snapshot_outcome(
                snapshot@,
                config.icecast.host@,
                timestamp as int,
            ),
            Event::ParseFailed => (
                LoopState::Idle,
                ActionView::Halt(CycleError::Parse(ParseError::Malformed)),
            ),
            _ => (state, ActionView::Nothing),
        },
        LoopState::Running(Phase::Publishing) => match event {
            Event::Published => (LoopState::Idle, ActionView::Sleep(PAUSE_SECS)),
            Event::PublishFailed(error) => (
                LoopState::Idle,
                ActionView::Halt(CycleError::Publish(error)),
            ),
            _ => (state, ActionView::Nothing),
        },
    }
}

/// Where the loop is after a run of events, and the actions it asked for on
/// the way, one for each event.
pub open spec fn run(state: LoopState, events: Seq<Event>, config: Config) -> (
    LoopState,
    Seq<ActionView>,
)
    decreases events.len(),
{
    if events.len() == 0 {
        (state, Seq::empty())
    } else {
        let before = run(state, events.drop_last(), config);
        let last = transition(before.0, events.last(), config);
        (last.0, before.1.push(last.1))
    }
}

/// A snapshot is published exactly when it is sound: no listener count is
/// below zero, every record has a mount identifier, and the total fits. Then
/// the batch is the one that the mapping describes. Any other snapshot stops
/// the cycle. In particular a record without a mount identifier is never
/// published under an empty or made-up tag.
pub proof fn lemma_snapshot_published_iff_sound(
    sources: Seq<SourceView>,
    host: Seq<char>,
    timestamp: int,
)
    requires
        sources.len() <= usize::MAX,
    ensures
        counts_valid(sources) && all_named(sources) && fits_i64(total_listeners(sources))
            ==> snapshot_outcome(sources, host, timestamp) == (
            LoopState::Running(Phase::Publishing),
            ActionView::Publish(mapped_points(sources, host, timestamp)),
        ),
        !(counts_valid(sources) && all_named(sources) && fits_i64(total_listeners(sources))) ==> {
            &&& snapshot_outcome(sources, host, timestamp).0 == LoopState::Idle
            &&& snapshot_outcome(sources, host, timestamp).1 is Halt
        },
{
    lemma_validation_outcome_cases(sources);
    lemma_map_outcome_cases(sources, host, timestamp);
}

/// Each step of a cycle needs the one before it. A batch is handed out for
/// publishing only on a decoded snapshot, in a cycle that is waiting for
/// one. A cycle waits for a snapshot only after an answer with status 200,
/// and for an acknowledgement only after it handed out a batch.
pub proof fn lemma_steps_in_order(state: LoopState, event: Event, config: Config)
    ensures
        transition(state, event, config).1 is Publish ==> {
            &&& state == LoopState::Running(Phase::Parsing)
            &&& event is Parsed
            &&& transition(state, event, config).0 == LoopState::Running(Phase::Publishing)
        },
        transition(state, event, config).0 == LoopState::Running(Phase::Parsing) && state
            != LoopState::Running(Phase::Parsing) ==> {
            &&& state == LoopState::Running(Phase::Fetching)
            &&& event matches Event::Fetched { status, .. }
            &&& status == STATUS_OK
        },
        transition(state, event, config).0 == LoopState::Running(Phase::Publishing) && state
            != LoopState::Running(Phase::Publishing) ==> transition(state, event, config).1
            is Publish,
        transition(state, event, config).0 == LoopState::Running(Phase::Fetching) && state
            != LoopState::Running(Phase::Fetching) ==> state == LoopState::Idle && event is Tick,
{
}

/// A cycle never overlaps another: while a cycle runs, a tick is dropped and
/// starts nothing.
pub proof fn lemma_no_overlap(phase: Phase, config: Config)
    ensures
        transition(LoopState::Running(phase), Event::Tick, config) == (
            LoopState::Running(phase),
            ActionView::Nothing,
        ),
{
}

/// Every cycle comes to its end in `Idle`: the loop pauses only after the
/// store took the batch, and a failure of any step stops the cycle at once.
pub proof fn lemma_cycle_ends_idle(state: LoopState, event: Event, config: Config)
    ensures
        transition(state, event, config).1 is Sleep ==> {
            &&& state == LoopState::Running(Phase::Publishing)
            &&& event is Published
            &&& transition(state, event, config) == (
                LoopState::Idle,
                ActionView::Sleep(PAUSE_SECS),
            )
        },
        transition(state, event, config).1 is Halt ==> transition(state, event, config).0
            == LoopState::Idle,
{
}

/// Between cycles only a tick does anything: every other event is dropped,
/// and the loop stays idle.
pub proof fn lemma_idle_until_tick(events: Seq<Event>, config: Config)
    requires
        forall|i: int| 0 <= i < events.len() ==> !(#[trigger] events[i] is Tick),
    ensures
        run(LoopState::Idle, events, config).0 == LoopState::Idle,
        run(LoopState::Idle, events, config).1.len() == events.len(),
        forall|i: int|
            0 <= i < events.len() ==> #[trigger] run(LoopState::Idle, events, config).1[i]
                == ActionView::Nothing,
    decreases events.len(),
{
    if events.len() > 0 {
        let front = events.drop_last();
        assert forall|i: int| 0 <= i < front.len() implies !(#[trigger] front[i] is Tick) by {
            assert(front[i] == events[i]);
        }
        lemma_idle_until_tick(front, config);
        assert(!(events[events.len() - 1] is Tick));
    }
}

/// Failure fatality: an answer of the media server with any status but 200
/// stops the cycle, and nothing is published in that cycle. Whatever the
/// caller reports next, short of the tick that starts another cycle, is
/// dropped.
pub proof fn lemma_failed_fetch_publishes_nothing(
    status: u16,
    body: String,
    rest: Seq<Event>,
    config: Config,
)
    requires
        status != STATUS_OK,
        forall|i: int| 0 <= i < rest.len() ==> !(#[trigger] rest[i] is Tick),
    ensures
        transition(
            LoopState::Running(Phase::Fetching),
            Event::Fetched { status, body },
            config,
        ) == (
            LoopState::Idle,
            ActionView::Halt(CycleError::Fetch(FetchError::NonSuccess(status))),
        ),
        run(LoopState::Idle, rest, config).0 == LoopState::Idle,
        forall|i: int|
            0 <= i < rest.len() ==> !(#[trigger] run(LoopState::Idle, rest, config).1[i]
                is Publish),
{
    lemma_idle_until_tick(rest, config);
}

/// A run of events can be cut anywhere: the second part goes on from the
/// state that the first part ended in.
pub proof fn lemma_run_split(
    state: LoopState,
    first: Seq<Event>,
    second: Seq<Event>,
    config: Config,
)
    ensures
        run(state, first + second, config).0 == run(
            run(state, first, config).0,
            second,
            config,
        ).0,
        run(state, first + second, config).1 == run(state, first, config).1 + run(
            run(state, first, config).0,
            second,
            config,
        ).1,
    decreases second.len(),
{
    let middle = run(state, first, config).0;
    if second.len() == 0 {
        assert(first + second == first);
        assert(run(state, first, config).1 + run(middle, second, config).1 == run(
            state,
            first,
            config,
        ).1);
    } else {
        let whole = first + second;
        assert(whole.drop_last() == first + second.drop_last());
        assert(whole.last() == second.last());
        lemma_run_split(state, first, second.drop_last(), config);
        let before = run(middle, second.drop_last(), config);
        let last = transition(before.0, second.last(), config);
        assert(run(state, whole, config).1 == run(state, first, config).1 + before.1.push(
            last.1,
        ));
    }
}

/// A run asks for one action for each event, and what it asked for on the
/// first events does not depend on the later ones.
pub proof fn lemma_run_prefix(state: LoopState, events: Seq<Event>, n: int, config: Config)
    requires
        0 <= n <= events.len(),
    ensures
        run(state, events, config).1.len() == events.len(),
        run(state, events.take(n), config).1 == run(state, events, config).1.take(n),
{
    lemma_run_len(state, events, config);
    lemma_run_len(state, events.take(n), config);
    lemma_run_split(state, events.take(n), events.skip(n), config);
    assert(events.take(n) + events.skip(n) == events);
    assert(run(state, events.take(n), config).1 =~= run(state, events, config).1.take(n));
}

proof fn lemma_run_len(state: LoopState, events: Seq<Event>, config: Config)
    ensures
        run(state, events, config).1.len() == events.len(),
    decreases events.len(),
{
    if events.len() > 0 {
        lemma_run_len(state, events.drop_last(), config);
    }
}

/// The event is an answer of the media server with status 200.
pub open spec fn fetched_ok(event: Event) -> bool {
    event matches Event::Fetched { status, .. } && status == STATUS_OK
}

proof fn lemma_parsing_follows_success(events: Seq<Event>, config: Config)
    requires
        run(LoopState::Idle, events, config).0 == LoopState::Running(Phase::Parsing),
    ensures
        exists|j: int|
            {
                &&& 0 <= j < events.len()
                &&& #[trigger] fetched_ok(events[j])
                &&& run(LoopState::Idle, events, config).1[j] is Parse
                &&& forall|m: int|
                    j < m < events.len() ==> #[trigger] run(LoopState::Idle, events, config).1[m]
                        == ActionView::Nothing
            },
    decreases events.len(),
{
    let front = events.drop_last();
    let before = run(LoopState::Idle, front, config);
    let actions = run(LoopState::Idle, events, config).1;
    lemma_run_len(LoopState::Idle, front, config);
    if before.0 == LoopState::Running(Phase::Parsing) {
        lemma_parsing_follows_success(front, config);
        let j = choose|j: int|
            {
                &&& 0 <= j < front.len()
                &&& #[trigger] fetched_ok(front[j])
                &&& before.1[j] is Parse
                &&& forall|m: int| j < m < front.len() ==> #[trigger] before.1[m] == ActionView::Nothing
            };
        assert(fetched_ok(events[j]));
        assert(actions[j] == before.1[j]);
        assert forall|m: int| j < m < events.len() implies #[trigger] actions[m]
            == ActionView::Nothing by {
            if m < front.len() {
                assert(actions[m] == before.1[m]);
            }
        }
    } else {
        let j = events.len() - 1;
        assert(fetched_ok(events[j]));
        assert(actions[j] is Parse);
    }
}

/// Failure fatality, over whole runs: whenever a loop that started idle hands
/// out a batch for publishing, the last thing it did before was to hand out
/// a body for decoding, on an answer of the media server with status 200,
/// and it dropped every event in between. So a cycle whose read failed, or
/// was answered with another status, publishes nothing.
pub proof fn lemma_publish_follows_successful_fetch(events: Seq<Event>, k: int, config: Config)
    requires
        0 <= k < events.len(),
        run(LoopState::Idle, events, config).1[k] is Publish,
    ensures
        exists|j: int|
            {
                &&& 0 <= j < k
                &&& #[trigger] fetched_ok(events[j])
                &&& run(LoopState::Idle, events, config).1[j] is Parse
                &&& forall|m: int|
                    j < m < k ==> #[trigger] run(LoopState::Idle, events, config).1[m]
                        == ActionView::Nothing
            },
{
    let actions = run(LoopState::Idle, events, config).1;
    let prefix = events.take(k);
    let upto = events.take(k + 1);
    lemma_run_prefix(LoopState::Idle, events, k, config);
    lemma_run_prefix(LoopState::Idle, events, k + 1, config);
    assert(upto.drop_last() == prefix);
    assert(upto.last() == events[k]);
    let before = run(LoopState::Idle, prefix, config);
    assert(actions.take(k + 1)[k] == actions[k]);
    assert(actions[k] == transition(before.0, events[k], config).1);
    lemma_steps_in_order(before.0, events[k], config);
    lemma_parsing_follows_success(prefix, config);
    let j = choose|j: int|
        {
            &&& 0 <= j < prefix.len()
            &&& #[trigger] fetched_ok(prefix[j])
            &&& before.1[j] is Parse
            &&& forall|m: int| j < m < prefix.len() ==> #[trigger] before.1[m] == ActionView::Nothing
        };
    assert(fetched_ok(events[j]));
    assert(actions.take(k)[j] == actions[j]);
    assert forall|m: int| j < m < k implies #[trigger] actions[m] == ActionView::Nothing by {
        assert(actions.take(k)[m] == actions[m]);
    }
}

/// Cycle independence: the loop carries nothing from one cycle to the next.
/// After any history that ended between cycles, the events of a cycle give
/// the same actions and the same state as they give on a loop that has just
/// started.
pub proof fn lemma_cycles_independent(history: Seq<Event>, cycle: Seq<Event>, config: Config)
    requires
        run(LoopState::Idle, history, config).0 == LoopState::Idle,
    ensures
        run(LoopState::Idle, history + cycle, config).0 == run(
            LoopState::Idle,
            cycle,
            config,
        ).0,
        run(LoopState::Idle, history + cycle, config).1 == run(
            LoopState::Idle,
            history,
            config,
        ).1 + run(LoopState::Idle, cycle, config).1,
{
    lemma_run_split(LoopState::Idle, history, cycle, config);
}

/// Validates and maps a decoded snapshot.
fn snapshot_step<'a>(snapshot: &'a Icestats, host: &'a str, timestamp: i64) -> (next: (
    LoopState,
    Action<'a>,
))
    ensures
        (next.0, next.1@) == snapshot_outcome(snapshot@, host@, timestamp as int),
{
    match snapshot.validate() {
        Err(error) => (LoopState::Idle, Action::Halt(CycleError::Parse(error))),
        Ok(_) => match icecast_stats_to_measurements(snapshot, host, timestamp) {
            Err(error) => (LoopState::Idle, Action::Halt(CycleError::Mapping(error))),
            Ok(batch) => (LoopState::Running(Phase::Publishing), Action::Publish(batch)),
        },
    }
}

/// One step of the loop: takes the state and what the caller reports, and
/// gives the next state and what the caller is to do.
pub fn step<'a>(state: LoopState, event: &'a Event, config: &'a Config) -> (next: (
    LoopState,
    Action<'a>,
))
    ensures
        (next.0, next.1@) == transition(state, *event, *config),
{
    match state {
        LoopState::Idle => match event {
            Event::Tick => (
                LoopState::Running(Phase::Fetching),
                Action::Fetch(list_mounts_request(&config.icecast)),
            ),
            _ => (state, Action::Nothing),
        },
        LoopState::Running(Phase::Fetching) => match event {
            Event::Fetched { status, body } => match check_status(*status) {
                Ok(_) => (LoopState::Running(Phase::Parsing), Action::Parse(body.as_str())),
                Err(error) => (LoopState::Idle, Action::Halt(CycleError::Fetch(error))),
            },
            Event::FetchFailed => (
                LoopState::Idle,
                Action::Halt(CycleError::Fetch(FetchError::Transport)),
            ),
            _ => (state, Action::Nothing),
        },
        LoopState::Running(Phase::Parsing) => match event {
            Event::Parsed { snapshot, timestamp } => snapshot_step(
                snapshot,
                config.icecast.host.as_str(),
                *timestamp,
            ),
            Event::ParseFailed => (
                LoopState::Idle,
                Action::Halt(CycleError::Parse(ParseError::Malformed)),
            ),
            _ => (state, Action::Nothing),
        },
        LoopState::Running(Phase::Publishing) => match event {
            Event::Published => (LoopState::Idle, Action::Sleep(PAUSE_SECS)),
            Event::PublishFailed(error) => (
                LoopState::Idle,
                Action::Halt(CycleError::Publish(*error)),
            ),
            _ => (state, Action::Nothing),
        },
    }
}

} // verus!
