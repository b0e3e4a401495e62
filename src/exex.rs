use crate::aggregate::{apply, apply_spec, AggregateError, AggregateState};
use crate::checkpoint::{adopts, CheckpointTracker};
use crate::model::{ChainNotification, Checkpoint};
use vstd::prelude::*;

verus! {

/// What the host hands the loop next.
#[derive(Clone, Debug)]
pub enum Event {
    /// The source delivered a notification.
    Notification(ChainNotification),
    /// The source closed cleanly.
    StreamEnded,
    /// The source yielded an error.
    SourceFailed,
    /// Sending the last acknowledgment failed.
    AckFailed,
    /// The host asked the loop to stop.
    Cancelled,
}

/// A fatal condition that ends the loop.
#[derive(Clone, Copy, Debug, PartialEq, Eq, Structural)]
pub enum LoopError {
    SourceFailure,
    SinkFailure,
    Data(AggregateError),
}

/// How the loop ended.
#[derive(Clone, Copy, Debug, PartialEq, Eq, Structural)]
pub enum Exit {
    /// The stream ended; every notification was applied and acknowledged.
    Clean,
    /// The host cancelled the loop between two notifications.
    Cancelled,
    Fatal(LoopError),
}

/// The loop's phase. The end of the stream leaves nothing in flight, since
/// each notification is applied and its acknowledgment sent before the next
/// fetch, so the loop passes from running straight to stopped.
#[derive(Clone, Copy, Debug, PartialEq, Eq, Structural)]
pub enum Phase {
    Running,
    Stopped(Exit),
}

/// What the host is to do after an event.
#[derive(Clone, Copy, Debug)]
pub enum Action {
    /// Tell the host this checkpoint is finished, then fetch the next event.
    Acknowledge(Checkpoint),
    /// Fetch the next event.
    FetchNext,
    /// Stop the loop with this exit.
    Stop(Exit),
}

/// The loop's state as contracts see it.
pub struct CounterView {
    pub totals: AggregateState,
    pub last: Option<Checkpoint>,
    pub phase: Phase,
}

/// The loop stopped with `x`, counters and checkpoint kept.
pub open spec fn stopped(v: CounterView, x: Exit) -> (CounterView, Action) {
    (CounterView { totals: v.totals, last: v.last, phase: Phase::Stopped(x) }, Action::Stop(x))
}

/// The state and action after event `ev` in state `v`. A notification's count
/// update and its checkpoint are taken together or not at all.
pub open spec fn on_event_spec(v: CounterView, ev: Event) -> (CounterView, Action) {
    match v.phase {
        Phase::Stopped(x) => (v, Action::Stop(x)),
        Phase::Running => match ev {
            Event::Notification(n) => match apply_spec(v.totals, v.last, n) {
                Err(e) => stopped(v, Exit::Fatal(LoopError::Data(e))),
                Ok(o) => {
                    if o.candidate is Some && adopts(v.last, o.candidate->0) {
                        (
                            CounterView {
                                totals: o.state,
                                last: o.candidate,
                                phase: Phase::Running,
                            },
                            Action::Acknowledge(o.candidate->0),
                        )
                    } else {
                        (
                            CounterView { totals: o.state, last: v.last, phase: Phase::Running },
                            Action::FetchNext,
                        )
                    }
                },
            },
            Event::StreamEnded => stopped(v, Exit::Clean),
            Event::SourceFailed => stopped(v, Exit::Fatal(LoopError::SourceFailure)),
            Event::AckFailed => stopped(v, Exit::Fatal(LoopError::SinkFailure)),
            Event::Cancelled => stopped(v, Exit::Cancelled),
        },
    }
}

/// The transaction counter: counters, acknowledged checkpoint and phase.
pub struct TransactionCounter {
    totals: AggregateState,
    tracker: CheckpointTracker,
    phase: Phase,
}

impl View for TransactionCounter {
    type V = CounterView;

    closed spec fn view(&self) -> CounterView {
        CounterView { totals: self.totals, last: self.tracker@, phase: self.phase }
    }
}

impl TransactionCounter {
    /// A running counter at zero that has acknowledged nothing.
    pub fn new() -> (r: TransactionCounter)
        ensures
            r@.totals.total_blocks == 0,
            r@.totals.total_transactions == 0,
            r@.last == None::<Checkpoint>,
            r@.phase == Phase::Running,
    {
        TransactionCounter {
            totals: AggregateState::new(),
            tracker: CheckpointTracker::new(),
            phase: Phase::Running,
        }
    }

    /// A running counter restored from what the host stored before a restart.
    pub fn resume(totals: AggregateState, checkpoint: Option<Checkpoint>) -> (r:
        TransactionCounter)
        ensures
            r@.totals == totals,
            r@.last == checkpoint,
            r@.phase == Phase::Running,
    {
        let tracker = match checkpoint {
            Some(c) => CheckpointTracker::resume(c),
            None => CheckpointTracker::new(),
        };
        TransactionCounter { totals, tracker, phase: Phase::Running }
    }

    /// The current counters.
    pub fn totals(&self) -> (r: AggregateState)
        ensures
            r == self@.totals,
    {
        self.totals
    }

    /// The checkpoint acknowledged last.
    pub fn last_acknowledged(&self) -> (r: Option<Checkpoint>)
        ensures
            r == self@.last,
    {
        self.tracker.last()
    }

    /// The loop's phase.
    pub fn phase(&self) -> (r: Phase)
        ensures
            r == self@.phase,
    {
        self.phase
    }

    /// Takes one event and says what the host is to do next.
    pub fn on_event(&mut self, ev: Event) -> (r: Action)
        ensures
            (final(self)@, r) == on_event_spec(old(self)@, ev),
    {
        if let Phase::Stopped(x) = self.phase {
            return Action::Stop(x);
        }
        match ev {
            Event::Notification(n) => match apply(self.totals, self.tracker.last(), &n) {
                Err(e) => self.stop(Exit::Fatal(LoopError::Data(e))),
                Ok(o) => {
                    self.totals = o.state;
                    match o.candidate {
                        Some(c) => match self.tracker.advance(c) {
                            Some(acked) => Action::Acknowledge(acked),
                            None => Action::FetchNext,
                        },
                        None => Action::FetchNext,
                    }
                },
            },
            Event::StreamEnded => self.stop(Exit::Clean),
            Event::SourceFailed => self.stop(Exit::Fatal(LoopError::SourceFailure)),
            Event::AckFailed => self.stop(Exit::Fatal(LoopError::SinkFailure)),
            Event::Cancelled => self.stop(Exit::Cancelled),
        }
    }

    fn stop(&mut self, x: Exit) -> (r: Action)
        ensures
            (final(self)@, r) == stopped(old(self)@, x),
    {
        self.phase = Phase::Stopped(x);
        Action::Stop(x)
    }
}

} // verus!
