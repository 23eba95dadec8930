//! The measurement job's status cell and the transitions that drive it.
//!
//! The cell itself holds no lock: the caller keeps one `JobOrchestrator`
//! behind a single read/write lock, so that each method below runs as one
//! critical section. Every decision that the lock serialises is made here.
use vstd::prelude::*;

verus! {

/// State of the measurement job, as every reader of the cell sees it.
#[derive(Debug)]
pub enum Status {
    /// No run has started yet.
    Pending,
    /// A run is in flight.
    Processing,
    /// The last run completed with success.
    Success,
    /// The last run failed; the message says why.
    Failed(String),
}

/// Mathematical model of [`Status`]: the message is a sequence of characters.
pub ghost enum StatusView {
    Pending,
    Processing,
    Success,
    Failed(Seq<char>),
}

impl View for Status {
    type V = StatusView;

    open spec fn view(&self) -> StatusView {
        match self {
            Status::Pending => StatusView::Pending,
            Status::Processing => StatusView::Processing,
            Status::Success => StatusView::Success,
            Status::Failed(m) => StatusView::Failed(m@),
        }
    }
}

impl Status {
    /// A copy of this status, message included.
    pub fn snapshot(&self) -> (r: Status)
        ensures
            r@ == self@,
    {
        match self {
            Status::Pending => Status::Pending,
            Status::Processing => Status::Processing,
            Status::Success => Status::Success,
            Status::Failed(m) => Status::Failed(m.clone()),
        }
    }
}

/// What the caller of [`JobOrchestrator::start`] must do next. Either way it
/// answers its own caller that the request was accepted.
#[derive(Debug, Clone, Copy, PartialEq, Eq, Structural)]
pub enum StartAction {
    /// Launch the run in the background, then report its end to `finish`.
    Launch,
    /// A run is already in flight: launch nothing.
    AlreadyRunning,
}

/// The state after an admission check on `s`, and what the caller must do.
pub open spec fn start_step(s: StatusView) -> (StatusView, StartAction) {
    if s is Processing {
        (s, StartAction::AlreadyRunning)
    } else {
        (StatusView::Processing, StartAction::Launch)
    }
}

/// Model of a run's end: `Ok` on success, `Err` with its message on failure.
pub open spec fn outcome_view(o: Result<(), String>) -> Result<(), Seq<char>> {
    match o {
        Ok(()) => Ok(()),
        Err(m) => Err(m@),
    }
}

/// The terminal state that a run's outcome leaves in the cell.
pub open spec fn finish_step(o: Result<(), Seq<char>>) -> StatusView {
    match o {
        Ok(()) => StatusView::Success,
        Err(m) => StatusView::Failed(m),
    }
}

/// What a status query answers on `s`: a failed run is reported as an error
/// carrying its message; any other state is returned as it is.
pub open spec fn query(s: StatusView) -> Result<StatusView, Seq<char>> {
    match s {
        StatusView::Failed(m) => Err(m),
        _ => Ok(s),
    }
}

/// Model of what [`JobOrchestrator::status`] returns.
pub open spec fn query_view(r: Result<Status, String>) -> Result<StatusView, Seq<char>> {
    match r {
        Ok(s) => Ok(s@),
        Err(m) => Err(m@),
    }
}

/// The single status cell of the measurement job. Beside the status it keeps,
/// as a ghost, the history of start requests and run ends that it has seen;
/// its status is always the replay of that history.
pub struct JobOrchestrator {
    status: Status,
    history: Ghost<Seq<Event>>,
}

impl View for JobOrchestrator {
    type V = StatusView;

    closed spec fn view(&self) -> StatusView {
        self.status@
    }
}

impl JobOrchestrator {
    /// The status is what the history replays to.
    #[verifier::type_invariant]
    closed spec fn matches_history(self) -> bool {
        self.status@ == replay(self.history@).status
    }

    /// The start requests and run ends that this cell has seen, in order.
    pub closed spec fn history(&self) -> Seq<Event> {
        self.history@
    }

    /// A cell in which no run has started.
    pub fn new() -> (r: JobOrchestrator)
        ensures
            r@ == StatusView::Pending,
            r.history() == Seq::<Event>::empty(),
            r@ == replay(r.history()).status,
    {
        JobOrchestrator { status: Status::Pending, history: Ghost(Seq::empty()) }
    }

    /// Admission check and, when admitted, the move to `Processing`, as one
    /// step. While a run is in flight nothing changes and nothing is launched.
    pub fn start(&mut self) -> (a: StartAction)
        ensures
            (final(self)@, a) == start_step(old(self)@),
            final(self).history() == old(self).history().push(Event::Start),
            old(self)@ == replay(old(self).history()).status,
            final(self)@ == replay(final(self).history()).status,
    {
        proof {
            use_type_invariant(&*self);
        }
        let ghost h = self.history@.push(Event::Start);
        assert(h.drop_last() =~= self.history@);
        match self.status {
            Status::Processing => {
                *self = JobOrchestrator { status: Status::Processing, history: Ghost(h) };
                StartAction::AlreadyRunning
            },
            _ => {
                *self = JobOrchestrator { status: Status::Processing, history: Ghost(h) };
                StartAction::Launch
            },
        }
    }

    /// Records how the launched run ended: exactly one terminal state.
    pub fn finish(&mut self, outcome: Result<(), String>)
        ensures
            final(self)@ == finish_step(outcome_view(outcome)),
            final(self).history() == old(self).history().push(Event::Finish(outcome_view(outcome))),
            old(self)@ == replay(old(self).history()).status,
            final(self)@ == replay(final(self).history()).status,
    {
        proof {
            use_type_invariant(&*self);
        }
        let ghost h = self.history@.push(Event::Finish(outcome_view(outcome)));
        assert(h.drop_last() =~= self.history@);
        match outcome {
            Ok(()) => {
                *self = JobOrchestrator { status: Status::Success, history: Ghost(h) };
            },
            Err(m) => {
                *self = JobOrchestrator { status: Status::Failed(m), history: Ghost(h) };
            },
        }
    }

    /// The current status; a failed run makes the query itself fail with the
    /// run's message, verbatim.
    pub fn status(&self) -> (r: Result<Status, String>)
        ensures
            query_view(r) == query(self@),
            self@ == replay(self.history()).status,
    {
        proof {
            use_type_invariant(self);
        }
        match &self.status {
            Status::Failed(m) => Err(m.clone()),
            s => Ok(s.snapshot()),
        }
    }
}

/// One thing that happens to the cell: a start request, or the end of the run
/// in flight with its outcome.
pub ghost enum Event {
    Start,
    Finish(Result<(), Seq<char>>),
}

/// The cell after a history of events, with how many runs were launched and
/// how many reported their end.
pub ghost struct Trace {
    pub status: StatusView,
    pub launched: nat,
    pub finished: nat,
}

/// Replays a history on a fresh cell through the same steps that
/// [`JobOrchestrator::start`] and [`JobOrchestrator::finish`] take.
pub open spec fn replay(events: Seq<Event>) -> Trace
    decreases events.len(),
{
    if events.len() == 0 {
        Trace { status: StatusView::Pending, launched: 0, finished: 0 }
    } else {
        let t = replay(events.drop_last());
        match events.last() {
            Event::Start => {
                let (s, a) = start_step(t.status);
                Trace {
                    status: s,
                    launched: if a == StartAction::Launch {
                        t.launched + 1
                    } else {
                        t.launched
                    },
                    finished: t.finished,
                }
            },
            Event::Finish(o) => Trace {
                status: finish_step(o),
                launched: t.launched,
                finished: t.finished + 1,
            },
        }
    }
}

/// Each end in the history is reported by a run that was launched and had not
/// yet ended: only the launched background run calls `finish`, once.
pub open spec fn ends_match_runs(events: Seq<Event>) -> bool {
    forall|i: int|
        0 <= i < events.len() && (#[trigger] events[i]) is Finish ==> replay(events.take(i)).launched
            > replay(events.take(i)).finished
}

/// Single flight: however start requests and run ends interleave, at most one
/// run is in flight at any time, and one is in flight exactly while the
/// status is `Processing`. So no second tool process is launched before the
/// first has ended. Every cell's status is the replay of its history
/// ([`JobOrchestrator::history`]), so this holds of each cell.
pub proof fn lemma_single_flight(events: Seq<Event>)
    requires
        ends_match_runs(events),
    ensures
        replay(events).finished <= replay(events).launched <= replay(events).finished + 1,
        replay(events).launched == replay(events).finished + 1 <==> replay(events).status is Processing,
    decreases events.len(),
{
    if events.len() > 0 {
        let prefix = events.drop_last();
        assert forall|i: int|
            0 <= i < prefix.len() && (#[trigger] prefix[i]) is Finish implies replay(
                prefix.take(i),
            ).launched > replay(prefix.take(i)).finished by {
            assert(prefix.take(i) == events.take(i));
            assert(prefix[i] == events[i]);
        }
        lemma_single_flight(prefix);
        assert(events.take(events.len() - 1) == prefix);
    }
}

/// A start request repeated at once: the pair launches exactly one run when
/// none was in flight and none otherwise; the second request changes nothing.
pub proof fn lemma_repeated_start(events: Seq<Event>)
    ensures
        replay(events.push(Event::Start).push(Event::Start)).launched == replay(events).launched
            + if replay(events).status is Processing {
            0nat
        } else {
            1nat
        },
        replay(events.push(Event::Start).push(Event::Start)).status is Processing,
        replay(events.push(Event::Start).push(Event::Start)).finished == replay(events).finished,
{
    let once = events.push(Event::Start);
    let twice = once.push(Event::Start);
    assert(once.drop_last() == events);
    assert(twice.drop_last() == once);
    assert(replay(once).status is Processing);
    assert(replay(once).finished == replay(events).finished);
    assert(replay(twice).launched == replay(once).launched);
}

/// An admitted run settles: once it reports its end, whatever the outcome,
/// the cell holds `Success` or `Failed`, and no run is in flight.
pub proof fn lemma_run_settles(events: Seq<Event>, o: Result<(), Seq<char>>)
    requires
        ends_match_runs(events),
        replay(events).status is Processing,
    ensures
        replay(events.push(Event::Finish(o))).status is Success || replay(
            events.push(Event::Finish(o)),
        ).status is Failed,
        replay(events.push(Event::Finish(o))).launched == replay(
            events.push(Event::Finish(o)),
        ).finished,
{
    lemma_single_flight(events);
    assert(events.push(Event::Finish(o)).drop_last() == events);
}

/// When the last run ended in failure, a status query fails with that run's
/// message, verbatim.
pub proof fn lemma_failure_reported(events: Seq<Event>, m: Seq<char>)
    ensures
        query(replay(events.push(Event::Finish(Err(m)))).status) == Err::<StatusView, Seq<char>>(m),
{
    assert(events.push(Event::Finish(Err(m))).drop_last() == events);
}

} // verus!
