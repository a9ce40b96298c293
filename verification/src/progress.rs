//! Progress reporting for a copy that runs as one opaque operation.
//!
//! The copy itself reports nothing until it is done. A poller watches the
//! destination grow and turns what it sees into a stream of increments. This
//! module holds the poller's decisions as a state machine: the caller waits
//! for the next signal, hands it to [`Poller::step`], and forwards the events
//! that come back. The poller never touches the filesystem itself: it asks
//! for one look at the destination by entering [`Phase::Probing`].

use vstd::prelude::*;

verus! {

/// One item of the progress stream.
#[derive(Debug, PartialEq, Eq)]
pub enum ProgressEvent<E> {
    /// Bytes that arrived since the previous event. A zero marks the end of a
    /// copy that succeeded.
    Delta(u64),
    /// The copy failed. Nothing follows.
    Failure(E),
}

/// What the poller is doing.
#[derive(Debug, Clone, Copy, PartialEq, Eq)]
pub enum Phase {
    /// Waiting for the copy to finish, the consumer to leave, or the timer.
    Polling,
    /// The timer fired: the size of the destination is wanted.
    Probing,
    /// The stream has ended. Nothing is emitted or asked for any more.
    Closed,
}

/// What the caller saw happen.
#[derive(Debug, PartialEq, Eq)]
pub enum Signal<E> {
    /// The copy ended, with the number of bytes copied or with its error.
    Completed(Result<u64, E>),
    /// The consumer closed its end of the stream.
    Cancelled,
    /// The polling interval elapsed.
    Tick,
    /// The size of the destination, or `None` where it could not be read.
    Observed(Option<u64>),
}

/// The poller as contracts see it.
pub struct PollerView {
    /// The size last reported: the sum of all increments emitted so far.
    pub baseline: u64,
    /// The current phase.
    pub phase: Phase,
}

/// The decisions of the task that reports a copy's progress.
#[derive(Debug, Clone, Copy)]
pub struct Poller {
    baseline: u64,
    phase: Phase,
}

impl View for Poller {
    type V = PollerView;

    closed spec fn view(&self) -> PollerView {
        PollerView { baseline: self.baseline, phase: self.phase }
    }
}

/// The state in which every poller starts: nothing reported, polling.
pub open spec fn initial() -> PollerView {
    PollerView { baseline: 0, phase: Phase::Polling }
}

/// The size that counts as reported once `size` was seen at `baseline`:
/// the larger of the two. A destination that shrinks takes nothing back.
pub open spec fn advanced(baseline: u64, size: u64) -> u64 {
    if size > baseline {
        size
    } else {
        baseline
    }
}

/// The increment that brings a consumer from `baseline` to `size`, where
/// there is one.
pub open spec fn growth<E>(baseline: u64, size: u64) -> Seq<ProgressEvent<E>> {
    if size > baseline {
        seq![ProgressEvent::Delta((size - baseline) as u64)]
    } else {
        Seq::empty()
    }
}

/// What a poller at `baseline` sends once the copy has succeeded with `len`
/// bytes. It drains: first the bytes not yet reported, where there are any,
/// then the zero marker that ends the stream.
pub open spec fn drain<E>(baseline: u64, len: u64) -> Seq<ProgressEvent<E>> {
    growth::<E>(baseline, len).push(ProgressEvent::Delta(0))
}

/// The state that follows `state` on `signal`.
///
/// A closed poller stays as it is. An open one is closed by the end of the
/// copy and by cancellation, asks for a probe on a tick, and takes an
/// observation only while it is probing: an observation that could not be
/// made counts as no growth.
pub open spec fn next_state<E>(state: PollerView, signal: Signal<E>) -> PollerView {
    if state.phase == Phase::Closed {
        state
    } else {
        match signal {
            Signal::Completed(Ok(len)) => PollerView {
                baseline: advanced(state.baseline, len),
                phase: Phase::Closed,
            },
            Signal::Completed(Err(_)) => PollerView { baseline: state.baseline, phase: Phase::Closed },
            Signal::Cancelled => PollerView { baseline: state.baseline, phase: Phase::Closed },
            Signal::Tick => PollerView { baseline: state.baseline, phase: Phase::Probing },
            Signal::Observed(seen) => if state.phase == Phase::Probing {
                PollerView {
                    baseline: match seen {
                        Some(size) => advanced(state.baseline, size),
                        None => state.baseline,
                    },
                    phase: Phase::Polling,
                }
            } else {
                state
            },
        }
    }
}

/// The events that `signal` makes a poller in `state` emit, in order.
///
/// A copy that succeeded is drained and a copy that failed sends its error,
/// both in the step that closes the poller. An observation made while
/// probing sends the growth since the last report. Nothing else sends
/// anything.
pub open spec fn emitted<E>(state: PollerView, signal: Signal<E>) -> Seq<ProgressEvent<E>> {
    if state.phase == Phase::Closed {
        Seq::empty()
    } else {
        match signal {
            Signal::Completed(Ok(len)) => drain::<E>(state.baseline, len),
            Signal::Completed(Err(error)) => seq![ProgressEvent::Failure(error)],
            Signal::Cancelled => Seq::empty(),
            Signal::Tick => Seq::empty(),
            Signal::Observed(seen) => if state.phase == Phase::Probing {
                match seen {
                    Some(size) => growth::<E>(state.baseline, size),
                    None => Seq::empty(),
                }
            } else {
                Seq::empty()
            },
        }
    }
}

/// The state of a poller that started in `start` and took `signals` in turn.
pub open spec fn run_state<E>(start: PollerView, signals: Seq<Signal<E>>) -> PollerView
    decreases signals.len(),
{
    if signals.len() == 0 {
        start
    } else {
        next_state(run_state(start, signals.drop_last()), signals.last())
    }
}

/// Everything that a poller emits which starts in `start` and takes
/// `signals` in turn.
pub open spec fn run_events<E>(start: PollerView, signals: Seq<Signal<E>>) -> Seq<ProgressEvent<E>>
    decreases signals.len(),
{
    if signals.len() == 0 {
        Seq::empty()
    } else {
        run_events(start, signals.drop_last()) + emitted(
            run_state(start, signals.drop_last()),
            signals.last(),
        )
    }
}

/// The bytes that one event reports.
pub open spec fn event_bytes<E>(event: ProgressEvent<E>) -> nat {
    match event {
        ProgressEvent::Delta(bytes) => bytes as nat,
        ProgressEvent::Failure(_) => 0,
    }
}

/// The bytes that `events` report together.
pub open spec fn delta_sum<E>(events: Seq<ProgressEvent<E>>) -> nat
    decreases events.len(),
{
    if events.len() == 0 {
        0
    } else {
        delta_sum(events.drop_last()) + event_bytes(events.last())
    }
}

/// Whether `events` holds no failure.
pub open spec fn all_deltas<E>(events: Seq<ProgressEvent<E>>) -> bool {
    forall|i: int| 0 <= i < events.len() ==> (#[trigger] events[i]) is Delta
}

impl Poller {
    /// A poller for a copy that has just begun.
    pub fn new() -> (poller: Poller)
        ensures
            poller@ == initial(),
    {
        Poller { baseline: 0, phase: Phase::Polling }
    }

    /// The current phase. It tells the caller what to do next: wait for a
    /// signal, look at the destination, or stop.
    pub fn phase(&self) -> (phase: Phase)
        ensures
            phase == self@.phase,
    {
        self.phase
    }

    /// Whether the stream has ended.
    pub fn is_closed(&self) -> (closed: bool)
        ensures
            closed == (self@.phase == Phase::Closed),
    {
        match self.phase {
            Phase::Closed => true,
            _ => false,
        }
    }

    /// The bytes reported so far.
    pub fn reported(&self) -> (bytes: u64)
        ensures
            bytes == self@.baseline,
    {
        self.baseline
    }

    /// Takes one signal and returns the events to send, in order.
    pub fn step<E>(&mut self, signal: Signal<E>) -> (events: Vec<ProgressEvent<E>>)
        ensures
            final(self)@ == next_state(old(self)@, signal),
            events@ == emitted(old(self)@, signal),
    {
        let mut events: Vec<ProgressEvent<E>> = Vec::new();
        let probing = match self.phase {
            Phase::Closed => {
                assert(events@ =~= emitted(old(self)@, signal));
                return events;
            },
            Phase::Probing => true,
            Phase::Polling => false,
        };
        match signal {
            Signal::Completed(Ok(len)) => {
                if len > self.baseline {
                    events.push(ProgressEvent::Delta(len - self.baseline));
                    self.baseline = len;
                }
                events.push(ProgressEvent::Delta(0));
                self.phase = Phase::Closed;
            },
            Signal::Completed(Err(error)) => {
                events.push(ProgressEvent::Failure(error));
                self.phase = Phase::Closed;
            },
            Signal::Cancelled => {
                self.phase = Phase::Closed;
            },
            Signal::Tick => {
                self.phase = Phase::Probing;
            },
            Signal::Observed(seen) => {
                if probing {
                    match seen {
                        Some(size) => {
                            if size > self.baseline {
                                events.push(ProgressEvent::Delta(size - self.baseline));
                                self.baseline = size;
                            }
                        },
                        None => {},
                    }
                    self.phase = Phase::Polling;
                }
            },
        }
        assert(events@ =~= emitted(old(self)@, signal));
        events
    }
}

/// The bytes reported by `events` followed by `event` are those of `events`
/// and those of `event`.
pub proof fn lemma_delta_sum_push<E>(events: Seq<ProgressEvent<E>>, event: ProgressEvent<E>)
    ensures
        delta_sum(events.push(event)) == delta_sum(events) + event_bytes(event),
{
    assert(events.push(event).drop_last() =~= events);
}

/// The bytes reported by two runs of events, one after the other, are the
/// bytes of the first and the bytes of the second.
pub proof fn lemma_delta_sum_concat<E>(first: Seq<ProgressEvent<E>>, rest: Seq<ProgressEvent<E>>)
    ensures
        delta_sum(first + rest) == delta_sum(first) + delta_sum(rest),
    decreases rest.len(),
{
    if rest.len() == 0 {
        assert(first + rest =~= first);
    } else {
        lemma_delta_sum_concat(first, rest.drop_last());
        assert((first + rest).drop_last() =~= first + rest.drop_last());
    }
}

/// One step reports exactly the bytes by which it moves the baseline, and
/// the baseline never moves back.
pub proof fn lemma_step_accounts<E>(state: PollerView, signal: Signal<E>)
    ensures
        next_state(state, signal).baseline == state.baseline + delta_sum(emitted(state, signal)),
{
    let empty = Seq::<ProgressEvent<E>>::empty();
    assert(delta_sum(empty) == 0);
    assert forall|size: u64| delta_sum(growth::<E>(state.baseline, size)) + state.baseline
        == advanced(state.baseline, size) by {
        if size > state.baseline {
            let delta = ProgressEvent::<E>::Delta((size - state.baseline) as u64);
            assert(growth::<E>(state.baseline, size) =~= empty.push(delta));
            lemma_delta_sum_push(empty, delta);
        }
    }
    if state.phase != Phase::Closed {
        match signal {
            Signal::Completed(Ok(len)) => {
                lemma_delta_sum_push(growth::<E>(state.baseline, len), ProgressEvent::Delta(0));
            },
            Signal::Completed(Err(error)) => {
                assert(emitted(state, signal) =~= empty.push(ProgressEvent::Failure(error)));
                lemma_delta_sum_push(empty, ProgressEvent::Failure(error));
            },
            _ => {},
        }
    }
}

/// Taking `first` and then `rest` is taking `first + rest`: the state is
/// that of the second run started where the first one ended, and the events
/// are those of the first run followed by those of the second.
pub proof fn lemma_run_concat<E>(start: PollerView, first: Seq<Signal<E>>, rest: Seq<Signal<E>>)
    ensures
        run_state(start, first + rest) == run_state(run_state(start, first), rest),
        run_events(start, first + rest) == run_events(start, first) + run_events(
            run_state(start, first),
            rest,
        ),
    decreases rest.len(),
{
    if rest.len() == 0 {
        assert(first + rest =~= first);
        assert(run_events(start, first) + Seq::<ProgressEvent<E>>::empty() =~= run_events(
            start,
            first,
        ));
    } else {
        lemma_run_concat(start, first, rest.drop_last());
        assert((first + rest).drop_last() =~= first + rest.drop_last());
        let mid = run_state(start, first);
        let before = run_state(mid, rest.drop_last());
        assert(run_events(start, first + rest) =~= run_events(start, first) + (run_events(
            mid,
            rest.drop_last(),
        ) + emitted(before, rest.last())));
    }
}

/// Whatever the signals and their order, the increments emitted so far add
/// up to the distance that the baseline has moved: every byte is reported
/// once, none twice and none left out.
pub proof fn lemma_reports_add_up<E>(start: PollerView, signals: Seq<Signal<E>>)
    ensures
        run_state(start, signals).baseline == start.baseline + delta_sum(
            run_events(start, signals),
        ),
    decreases signals.len(),
{
    if signals.len() > 0 {
        let prefix = signals.drop_last();
        lemma_reports_add_up(start, prefix);
        lemma_step_accounts(run_state(start, prefix), signals.last());
        lemma_delta_sum_concat(
            run_events(start, prefix),
            emitted(run_state(start, prefix), signals.last()),
        );
    }
}

/// A closed poller stays closed, keeps its baseline, emits nothing and so
/// never asks for a probe, whatever it is handed.
pub proof fn lemma_closed_stays_silent<E>(state: PollerView, signals: Seq<Signal<E>>)
    requires
        state.phase == Phase::Closed,
    ensures
        run_state(state, signals) == state,
        run_events(state, signals) == Seq::<ProgressEvent<E>>::empty(),
    decreases signals.len(),
{
    if signals.len() > 0 {
        lemma_closed_stays_silent(state, signals.drop_last());
        assert(run_events(state, signals) =~= Seq::<ProgressEvent<E>>::empty());
    }
}

/// A poller that is still open has emitted no failure, and where no
/// observation exceeded `bound` it has reported no more than `bound`.
pub proof fn lemma_open_run<E>(start: PollerView, signals: Seq<Signal<E>>, bound: u64)
    requires
        run_state(start, signals).phase != Phase::Closed,
    ensures
        all_deltas(run_events(start, signals)),
        start.baseline <= bound && (forall|i: int|
            0 <= i < signals.len() ==> (#[trigger] signals[i] matches Signal::Observed(Some(size))
                ==> size <= bound)) ==> run_state(start, signals).baseline <= bound,
    decreases signals.len(),
{
    if signals.len() > 0 {
        let prefix = signals.drop_last();
        lemma_open_run(start, prefix, bound);
        assert forall|i: int| 0 <= i < prefix.len() implies prefix[i] == signals[i] by {}
    }
}

/// A copy that succeeds is reported in full. Take any signals that leave a
/// fresh poller open and in which no observation exceeds the final size
/// `len`; let the copy then complete with `len`. The stream ends with the
/// zero marker, the events before the marker are increments that add up to
/// `len`, and the poller is closed.
pub proof fn lemma_completed_copy_reports_size<E>(before: Seq<Signal<E>>, len: u64)
    requires
        run_state(initial(), before).phase != Phase::Closed,
        forall|i: int|
            0 <= i < before.len() ==> (#[trigger] before[i] matches Signal::Observed(Some(size))
                ==> size <= len),
    ensures
        ({
            let events = run_events(initial(), before.push(Signal::Completed(Ok(len))));
            &&& run_state(initial(), before.push(Signal::Completed(Ok(len)))).phase == Phase::Closed
            &&& events.len() > 0
            &&& events.last() == ProgressEvent::<E>::Delta(0)
            &&& all_deltas(events)
            &&& delta_sum(events.drop_last()) == len
            &&& delta_sum(events) == len
        }),
{
    let signal = Signal::<E>::Completed(Ok(len));
    let all = before.push(signal);
    let mid = run_state(initial(), before);
    assert(all.drop_last() =~= before);
    lemma_open_run(initial(), before, len);
    lemma_reports_add_up(initial(), before);
    lemma_reports_add_up(initial(), all);
    let events = run_events(initial(), all);
    let flushed = run_events(initial(), before) + growth::<E>(mid.baseline, len);
    assert(events =~= flushed.push(ProgressEvent::Delta(0)));
    assert(events.drop_last() =~= flushed);
    lemma_delta_sum_push(flushed, ProgressEvent::Delta(0));
}

/// Cancellation ends the reporting at once. From any state, the signal that
/// the consumer left emits nothing, leaves what was reported as it was and
/// closes the poller; whatever arrives later emits nothing and never brings
/// the poller back to probing, so the destination is not looked at again.
pub proof fn lemma_cancellation_stops_polling<E>(state: PollerView, later: Seq<Signal<E>>)
    ensures
        emitted(state, Signal::<E>::Cancelled) == Seq::<ProgressEvent<E>>::empty(),
        next_state(state, Signal::<E>::Cancelled).phase == Phase::Closed,
        next_state(state, Signal::<E>::Cancelled).baseline == state.baseline,
        run_state(next_state(state, Signal::<E>::Cancelled), later) == next_state(
            state,
            Signal::<E>::Cancelled,
        ),
        run_events(next_state(state, Signal::<E>::Cancelled), later) == Seq::<
            ProgressEvent<E>,
        >::empty(),
{
    lemma_closed_stays_silent(next_state(state, Signal::<E>::Cancelled), later);
}

/// A copy that fails is reported once. Take any signals that leave the
/// poller open, let the copy then fail with `error`, and let anything
/// follow. The stream is the increments emitted while the poller was open,
/// then the one failure, and nothing after it.
pub proof fn lemma_failed_copy_reports_one_failure<E>(
    start: PollerView,
    before: Seq<Signal<E>>,
    error: E,
    later: Seq<Signal<E>>,
)
    requires
        run_state(start, before).phase != Phase::Closed,
    ensures
        all_deltas(run_events(start, before)),
        run_events(start, before.push(Signal::Completed(Err(error))) + later) == run_events(
            start,
            before,
        ).push(ProgressEvent::Failure(error)),
        run_state(start, before.push(Signal::Completed(Err(error))) + later).phase
            == Phase::Closed,
{
    let signal = Signal::<E>::Completed(Err(error));
    let failed = before.push(signal);
    assert(failed.drop_last() =~= before);
    lemma_open_run(start, before, 0);
    lemma_run_concat(start, failed, later);
    lemma_closed_stays_silent(run_state(start, failed), later);
    assert(run_events(start, failed + later) =~= run_events(start, before).push(
        ProgressEvent::Failure(error),
    ));
}

/// In every stream a failure is the last event: no increment follows one,
/// and there is never a second.
pub proof fn lemma_failure_ends_stream<E>(start: PollerView, signals: Seq<Signal<E>>, i: int)
    requires
        0 <= i < run_events(start, signals).len(),
        run_events(start, signals)[i] is Failure,
    ensures
        i == run_events(start, signals).len() - 1,
        run_state(start, signals).phase == Phase::Closed,
    decreases signals.len(),
{
    if run_state(start, signals).phase != Phase::Closed {
        lemma_open_run(start, signals, 0);
    } else if signals.len() > 0 {
        let prefix = signals.drop_last();
        let mid = run_state(start, prefix);
        if mid.phase == Phase::Closed {
            assert(run_events(start, signals) =~= run_events(start, prefix));
            lemma_failure_ends_stream(start, prefix, i);
        } else {
            lemma_open_run(start, prefix, 0);
        }
    }
}

} // verus!
