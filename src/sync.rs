//! The run synchronization protocol.
//!
//! One unit of work runs a batch of runs, one after another. For each run the
//! workload sends a start message and later a stop message on the control
//! channel; metrics recording is started after the first and stopped after the
//! second. After the last run of the batch the unit of work must also be seen
//! deleted before the batch is done. The stop message and the deletion are
//! awaited together, in whichever order they come.
//!
//! [`RunSession::step`] takes one event and returns the action to perform.
use vstd::prelude::*;

verus! {

/// Why a session was abandoned.
#[derive(Clone, Copy, Debug, PartialEq, Eq, Structural)]
pub enum SyncError {
    /// A stop message came where a start message was due.
    ExpectedStart,
    /// A start message came where a stop message was due.
    ExpectedStop,
    /// A control message was not a status message.
    Undecodable,
    /// The control channel closed before the batch was done.
    ChannelClosed,
    /// The metrics service refused to start or stop recording.
    RecordingFailed,
    /// An event came that the current phase does not expect.
    OutOfOrder,
}

/// What the session is waiting for.
#[derive(Clone, Copy, Debug, PartialEq, Eq, Structural)]
pub enum Phase {
    /// Waiting for the start message of the current run.
    AwaitStart,
    /// Recording was asked to start; waiting for the metrics service.
    StartPending,
    /// Recording; waiting for the stop message (and, after the last run, for
    /// the unit of work to be deleted). `stop_requested`: recording was asked
    /// to stop; `stopped`: the metrics service confirmed it.
    AwaitStop { stop_requested: bool, stopped: bool, job_gone: bool },
    /// Every run of the batch is done.
    Done,
    /// The session was abandoned.
    Failed(SyncError),
}

/// What happened.
#[derive(Clone, Copy, Debug, PartialEq, Eq, Structural)]
pub enum Event {
    /// A control message: its status where it is a status message.
    Control(Option<bool>),
    /// The control channel closed.
    ChannelClosed,
    /// The metrics service started recording.
    RecordingStarted,
    /// The metrics service stopped recording.
    RecordingStopped,
    /// A call to the metrics service failed.
    RecordingFailed,
    /// The unit of work was deleted.
    JobDeleted,
}

/// What to do next.
#[derive(Clone, Copy, Debug, PartialEq, Eq, Structural)]
pub enum Action {
    /// Nothing: wait for the next event.
    Wait,
    /// Ask the metrics service to start recording for this run-id.
    StartRecording(i32),
    /// Ask the metrics service to stop recording for this run-id.
    StopRecording(i32),
    /// The batch is done.
    Finished,
    /// Abandon the invocation.
    Abort(SyncError),
}

/// The state of a session over a batch of runs.
pub struct RunSession {
    run_ids: Vec<i32>,
    current: usize,
    phase: Phase,
}

/// The state of a session as a value: the run-ids of the batch, the index of
/// the current run, and the phase.
pub struct SessionState {
    pub run_ids: Seq<i32>,
    pub current: nat,
    pub phase: Phase,
}

impl View for RunSession {
    type V = SessionState;

    closed spec fn view(&self) -> SessionState {
        SessionState { run_ids: self.run_ids@, current: self.current as nat, phase: self.phase }
    }
}

impl SessionState {
    /// A session is well formed when its batch is not empty and, until it is
    /// done or abandoned, its current run is one of the batch.
    pub open spec fn wf(self) -> bool {
        &&& self.run_ids.len() > 0
        &&& match self.phase {
            Phase::Done | Phase::Failed(_) => self.current <= self.run_ids.len(),
            _ => self.current < self.run_ids.len(),
        }
    }

    pub open spec fn is_last_run(self) -> bool {
        self.current + 1 == self.run_ids.len()
    }

    pub open spec fn run_id(self) -> i32 {
        self.run_ids[self.current as int]
    }

    pub open spec fn with_phase(self, phase: Phase) -> SessionState {
        SessionState { phase, ..self }
    }

    pub open spec fn fail(self, e: SyncError) -> (SessionState, Action) {
        (self.with_phase(Phase::Failed(e)), Action::Abort(e))
    }

    /// After a run is over: on to the next run, or done after the last.
    pub open spec fn advance(self) -> (SessionState, Action) {
        if self.is_last_run() {
            (SessionState { current: self.current + 1, phase: Phase::Done, ..self }, Action::Finished)
        } else {
            (SessionState { current: self.current + 1, phase: Phase::AwaitStart, ..self }, Action::Wait)
        }
    }

    /// In `AwaitStop`: the run is over once recording stopped and, for the
    /// last run, the unit of work is gone.
    pub open spec fn settle(self, stop_requested: bool, stopped: bool, job_gone: bool) -> (
        SessionState,
        Action,
    ) {
        if stopped && (job_gone || !self.is_last_run()) {
            self.advance()
        } else {
            (
                self.with_phase(Phase::AwaitStop { stop_requested, stopped, job_gone }),
                Action::Wait,
            )
        }
    }

    /// The protocol: the state and action that follow `self` on event `e`.
    pub open spec fn next(self, e: Event) -> (SessionState, Action) {
        match self.phase {
            Phase::Done => (self, Action::Finished),
            Phase::Failed(err) => (self, Action::Abort(err)),
            Phase::AwaitStart => match e {
                Event::Control(Some(true)) => (
                    self.with_phase(Phase::StartPending),
                    Action::StartRecording(self.run_id()),
                ),
                Event::Control(Some(false)) => self.fail(SyncError::ExpectedStart),
                Event::Control(None) => self.fail(SyncError::Undecodable),
                Event::ChannelClosed => self.fail(SyncError::ChannelClosed),
                _ => self.fail(SyncError::OutOfOrder),
            },
            Phase::StartPending => match e {
                Event::RecordingStarted => (
                    self.with_phase(
                        Phase::AwaitStop { stop_requested: false, stopped: false, job_gone: false },
                    ),
                    Action::Wait,
                ),
                Event::RecordingFailed => self.fail(SyncError::RecordingFailed),
                _ => self.fail(SyncError::OutOfOrder),
            },
            Phase::AwaitStop { stop_requested, stopped, job_gone } => match e {
                Event::Control(Some(false)) => if stop_requested {
                    self.fail(SyncError::OutOfOrder)
                } else {
                    (
                        self.with_phase(
                            Phase::AwaitStop { stop_requested: true, stopped, job_gone },
                        ),
                        Action::StopRecording(self.run_id()),
                    )
                },
                Event::Control(Some(true)) => self.fail(SyncError::ExpectedStop),
                Event::Control(None) => self.fail(SyncError::Undecodable),
                Event::ChannelClosed => if stop_requested {
                    self.settle(stop_requested, stopped, job_gone)
                } else {
                    self.fail(SyncError::ChannelClosed)
                },
                Event::RecordingStopped => if stop_requested && !stopped {
                    self.settle(stop_requested, true, job_gone)
                } else {
                    self.fail(SyncError::OutOfOrder)
                },
                Event::RecordingFailed => self.fail(SyncError::RecordingFailed),
                Event::JobDeleted => self.settle(stop_requested, stopped, true),
                Event::RecordingStarted => self.fail(SyncError::OutOfOrder),
            },
        }
    }
}

impl RunSession {
    /// A session over the batch `run_ids`, waiting for the first start
    /// message.
    pub fn new(run_ids: Vec<i32>) -> (s: RunSession)
        requires
            run_ids@.len() > 0,
        ensures
            s@.run_ids == run_ids@,
            s@.current == 0,
            s@.phase == Phase::AwaitStart,
            s@.wf(),
    {
        RunSession { run_ids, current: 0, phase: Phase::AwaitStart }
    }

    pub fn phase(&self) -> (p: Phase)
        ensures
            p == self@.phase,
    {
        self.phase
    }

    /// The index in the batch of the run under way.
    pub fn current(&self) -> (i: usize)
        ensures
            i == self@.current,
    {
        self.current
    }

    pub fn is_done(&self) -> (b: bool)
        ensures
            b == (self@.phase == Phase::Done),
    {
        match self.phase {
            Phase::Done => true,
            _ => false,
        }
    }

    fn fail(&mut self, e: SyncError) -> (a: Action)
        ensures
            (final(self)@, a) == old(self)@.fail(e),
    {
        self.phase = Phase::Failed(e);
        Action::Abort(e)
    }

    fn advance(&mut self) -> (a: Action)
        requires
            old(self)@.wf(),
            old(self)@.phase != Phase::Done,
            !(old(self)@.phase is Failed),
        ensures
            (final(self)@, a) == old(self)@.advance(),
    {
        let last = self.current == self.run_ids.len() - 1;
        self.current = self.current + 1;
        if last {
            self.phase = Phase::Done;
            Action::Finished
        } else {
            self.phase = Phase::AwaitStart;
            Action::Wait
        }
    }

    fn settle(&mut self, stop_requested: bool, stopped: bool, job_gone: bool) -> (a: Action)
        requires
            old(self)@.wf(),
            old(self)@.phase is AwaitStop,
        ensures
            (final(self)@, a) == old(self)@.settle(stop_requested, stopped, job_gone),
    {
        if stopped && (job_gone || self.current != self.run_ids.len() - 1) {
            self.advance()
        } else {
            self.phase = Phase::AwaitStop { stop_requested, stopped, job_gone };
            Action::Wait
        }
    }

    /// Takes one event and returns the action to perform, as the protocol
    /// [`SessionState::next`] says.
    pub fn step(&mut self, e: Event) -> (a: Action)
        requires
            old(self)@.wf(),
        ensures
            (final(self)@, a) == old(self)@.next(e),
            final(self)@.wf(),
    {
        match self.phase {
            Phase::Done => Action::Finished,
            Phase::Failed(err) => Action::Abort(err),
            Phase::AwaitStart => match e {
                Event::Control(Some(true)) => {
                    self.phase = Phase::StartPending;
                    Action::StartRecording(self.run_ids[self.current])
                },
                Event::Control(Some(false)) => self.fail(SyncError::ExpectedStart),
                Event::Control(None) => self.fail(SyncError::Undecodable),
                Event::ChannelClosed => self.fail(SyncError::ChannelClosed),
                _ => self.fail(SyncError::OutOfOrder),
            },
            Phase::StartPending => match e {
                Event::RecordingStarted => {
                    self.phase = Phase::AwaitStop {
                        stop_requested: false,
                        stopped: false,
                        job_gone: false,
                    };
                    Action::Wait
                },
                Event::RecordingFailed => self.fail(SyncError::RecordingFailed),
                _ => self.fail(SyncError::OutOfOrder),
            },
            Phase::AwaitStop { stop_requested, stopped, job_gone } => match e {
                Event::Control(Some(false)) => if stop_requested {
                    self.fail(SyncError::OutOfOrder)
                } else {
                    self.phase = Phase::AwaitStop { stop_requested: true, stopped, job_gone };
                    Action::StopRecording(self.run_ids[self.current])
                },
                Event::Control(Some(true)) => self.fail(SyncError::ExpectedStop),
                Event::Control(None) => self.fail(SyncError::Undecodable),
                Event::ChannelClosed => if stop_requested {
                    self.settle(stop_requested, stopped, job_gone)
                } else {
                    self.fail(SyncError::ChannelClosed)
                },
                Event::RecordingStopped => if stop_requested && !stopped {
                    self.settle(stop_requested, true, job_gone)
                } else {
                    self.fail(SyncError::OutOfOrder)
                },
                Event::RecordingFailed => self.fail(SyncError::RecordingFailed),
                Event::JobDeleted => self.settle(stop_requested, stopped, true),
                Event::RecordingStarted => self.fail(SyncError::OutOfOrder),
            },
        }
    }
}

/// The status carried by a control message with text `text`: the boolean
/// under `status` when the text is a JSON object that holds one, and nothing
/// otherwise.
pub uninterp spec fn control_status(text: Seq<char>) -> Option<bool>;

/// Relies on `serde_json::from_str` parsing the text as a `serde_json::Value`,
/// and on `Value::get` and `Value::as_bool` reading its `status` field.
#[verifier::external_body]
fn decode_status(text: &str) -> (r: Option<bool>)
    ensures
        r == control_status(text@),
{
    serde_json::from_str::<serde_json::Value>(text).ok().and_then(|v| v.get("status").and_then(|s| s.as_bool()))
}

/// The event for a control message with text `text`.
pub fn control_event(text: &str) -> (e: Event)
    ensures
        e == Event::Control(control_status(text@)),
{
    Event::Control(decode_status(text))
}

/// The state and the actions after the events `events`, taken in order from
/// state `s`.
pub open spec fn run_events(s: SessionState, events: Seq<Event>) -> (SessionState, Seq<Action>)
    decreases events.len(),
{
    if events.len() == 0 {
        (s, Seq::empty())
    } else {
        let (s1, a) = s.next(events[0]);
        let (s2, rest) = run_events(s1, events.drop_first());
        (s2, seq![a] + rest)
    }
}

/// The calls to the metrics service among `actions`, in order.
pub open spec fn recording_calls(actions: Seq<Action>) -> Seq<Action>
    decreases actions.len(),
{
    if actions.len() == 0 {
        Seq::empty()
    } else {
        let rest = recording_calls(actions.drop_first());
        match actions[0] {
            Action::StartRecording(_) | Action::StopRecording(_) => seq![actions[0]] + rest,
            _ => rest,
        }
    }
}

/// A fresh session over the single run `run_id`.
pub open spec fn single_run(run_id: i32) -> SessionState {
    SessionState { run_ids: seq![run_id], current: 0, phase: Phase::AwaitStart }
}

/// The events of one run once recording has started: the stop message and
/// its confirmation, with the deletion of the unit of work at place `at`
/// among them.
pub open spec fn stop_and_deletion(at: int) -> Seq<Event> {
    seq![Event::Control(Some(false)), Event::RecordingStopped].insert(at, Event::JobDeleted)
}

/// A session that has been abandoned stays so, and asks for no more recording
/// calls, whatever comes after.
pub proof fn lemma_failed_is_final(s: SessionState, e: SyncError, events: Seq<Event>)
    requires
        s.phase == Phase::Failed(e),
    ensures
        run_events(s, events).0 == s,
        recording_calls(run_events(s, events).1) == Seq::<Action>::empty(),
    decreases events.len(),
{
    if events.len() > 0 {
        lemma_failed_is_final(s, e, events.drop_first());
        let rest = run_events(s, events.drop_first()).1;
        assert((seq![Action::Abort(e)] + rest).drop_first() =~= rest);
    }
}

/// The end of recording was confirmed in state `s`.
pub open spec fn stopped_in(s: SessionState) -> bool {
    s.phase matches Phase::AwaitStop { stopped: true, .. }
}

/// The deletion of the unit of work was seen in state `s`.
pub open spec fn job_gone_in(s: SessionState) -> bool {
    s.phase matches Phase::AwaitStop { job_gone: true, .. }
}

proof fn lemma_done_needs_both_from(s: SessionState, events: Seq<Event>)
    requires
        s.run_ids.len() == 1,
        s.current == 0,
        s.phase != Phase::Done,
    ensures
        run_events(s, events).0.phase == Phase::Done ==> (stopped_in(s) || events.contains(
            Event::RecordingStopped,
        )) && (job_gone_in(s) || events.contains(Event::JobDeleted)),
    decreases events.len(),
{
    if events.len() > 0 {
        let e = events[0];
        let (s1, a) = s.next(e);
        let rest = events.drop_first();
        assert(s1.run_ids == s.run_ids);
        if e == Event::RecordingStopped {
            assert(events[0] == Event::RecordingStopped);
        }
        if e == Event::JobDeleted {
            assert(events[0] == Event::JobDeleted);
        }
        if s1.phase == Phase::Done {
            if events.len() > 1 {
                lemma_done_stays(s1, rest);
            }
        } else {
            assert(s1.current == 0);
            lemma_done_needs_both_from(s1, rest);
            if rest.contains(Event::RecordingStopped) {
                let k = choose|k: int| 0 <= k < rest.len() && rest[k] == Event::RecordingStopped;
                assert(events[k + 1] == Event::RecordingStopped);
            }
            if rest.contains(Event::JobDeleted) {
                let k = choose|k: int| 0 <= k < rest.len() && rest[k] == Event::JobDeleted;
                assert(events[k + 1] == Event::JobDeleted);
            }
        }
    }
}

proof fn lemma_done_stays(s: SessionState, events: Seq<Event>)
    requires
        s.phase == Phase::Done,
    ensures
        run_events(s, events).0 == s,
    decreases events.len(),
{
    if events.len() > 0 {
        lemma_done_stays(s, events.drop_first());
    }
}

/// For a single run, the session is done only once it has seen both the end
/// of recording and the deletion of the unit of work, in whichever order they
/// came.
pub proof fn lemma_done_needs_stop_and_deletion(run_id: i32, events: Seq<Event>)
    ensures
        run_events(single_run(run_id), events).0.phase == Phase::Done ==> events.contains(
            Event::RecordingStopped,
        ) && events.contains(Event::JobDeleted),
{
    lemma_done_needs_both_from(single_run(run_id), events);
}

/// For a single run: a start message, the start of recording, then the stop
/// message, the end of recording and the deletion of the unit of work in any
/// order, take the session to `Done` with exactly one start and one stop of
/// recording, both for that run's id.
pub proof fn lemma_start_stop_correlated(run_id: i32, at: int)
    requires
        0 <= at <= 2,
    ensures
        ({
            let events = seq![Event::Control(Some(true)), Event::RecordingStarted] + stop_and_deletion(at);
            let (s, actions) = run_events(single_run(run_id), events);
            &&& s.phase == Phase::Done
            &&& recording_calls(actions) == seq![
                Action::StartRecording(run_id),
                Action::StopRecording(run_id),
            ]
        }),
{
    let events = seq![Event::Control(Some(true)), Event::RecordingStarted] + stop_and_deletion(at);
    let s0 = single_run(run_id);
    let (s1, a1) = s0.next(events[0]);
    let (s2, a2) = s1.next(events[1]);
    let (s3, a3) = s2.next(events[2]);
    let (s4, a4) = s3.next(events[3]);
    let (s5, a5) = s4.next(events[4]);
    assert(events.len() == 5);
    let e1 = events.drop_first();
    let e2 = e1.drop_first();
    let e3 = e2.drop_first();
    let e4 = e3.drop_first();
    let e5 = e4.drop_first();
    assert(e5.len() == 0);
    assert(run_events(s5, e5) == (s5, Seq::<Action>::empty()));
    assert(run_events(s4, e4) == (s5, seq![a5]));
    assert(run_events(s3, e3) == (s5, seq![a4, a5]));
    assert(run_events(s2, e2) == (s5, seq![a3, a4, a5]));
    assert(run_events(s1, e1) == (s5, seq![a2, a3, a4, a5]));
    assert(run_events(s0, events) == (s5, seq![a1, a2, a3, a4, a5]));
    let acts = seq![a1, a2, a3, a4, a5];
    assert(acts.drop_first() =~= seq![a2, a3, a4, a5]);
    assert(seq![a2, a3, a4, a5].drop_first() =~= seq![a3, a4, a5]);
    assert(seq![a3, a4, a5].drop_first() =~= seq![a4, a5]);
    assert(seq![a4, a5].drop_first() =~= seq![a5]);
    assert(seq![a5].drop_first() =~= Seq::<Action>::empty());
    assert(s5.phase == Phase::Done);
    let empty = Seq::<Action>::empty();
    assert(a1 == Action::StartRecording(run_id) && a2 == Action::Wait);
    if at == 0 {
        assert(events[2] == Event::JobDeleted && events[3] == Event::Control(Some(false)));
    } else if at == 1 {
        assert(events[2] == Event::Control(Some(false)) && events[3] == Event::JobDeleted);
    } else {
        assert(events[2] == Event::Control(Some(false)) && events[3] == Event::RecordingStopped);
    }
    assert(a5 == Action::Finished);
    assert(recording_calls(empty) == empty);
    assert(recording_calls(seq![a5]) == empty);
    if at == 0 {
        assert(a3 == Action::Wait && a4 == Action::StopRecording(run_id));
        assert(recording_calls(seq![a4, a5]) =~= seq![a4]);
        assert(recording_calls(seq![a3, a4, a5]) =~= seq![a4]);
    } else if at == 1 {
        assert(a3 == Action::StopRecording(run_id) && a4 == Action::Wait);
        assert(recording_calls(seq![a4, a5]) =~= empty);
        assert(recording_calls(seq![a3, a4, a5]) =~= seq![a3]);
    } else {
        assert(a3 == Action::StopRecording(run_id) && a4 == Action::Wait);
        assert(recording_calls(seq![a4, a5]) =~= empty);
        assert(recording_calls(seq![a3, a4, a5]) =~= seq![a3]);
    }
    assert(recording_calls(seq![a2, a3, a4, a5]) =~= seq![Action::StopRecording(run_id)]);
    assert(recording_calls(acts) =~= seq![Action::StartRecording(run_id), Action::StopRecording(run_id)]);
}

/// A second start message where the stop message is due abandons the session
/// with [`SyncError::ExpectedStop`] before any stop of recording is asked
/// for, whatever comes after.
pub proof fn lemma_double_start_rejected(run_id: i32, rest: Seq<Event>)
    ensures
        ({
            let events = seq![
                Event::Control(Some(true)),
                Event::RecordingStarted,
                Event::Control(Some(true)),
            ] + rest;
            let (s, actions) = run_events(single_run(run_id), events);
            &&& s.phase == Phase::Failed(SyncError::ExpectedStop)
            &&& recording_calls(actions) == seq![Action::StartRecording(run_id)]
        }),
{
    let events = seq![Event::Control(Some(true)), Event::RecordingStarted, Event::Control(Some(true))]
        + rest;
    let s0 = single_run(run_id);
    let (s1, a1) = s0.next(events[0]);
    let (s2, a2) = s1.next(events[1]);
    let (s3, a3) = s2.next(events[2]);
    let e1 = events.drop_first();
    let e2 = e1.drop_first();
    let e3 = e2.drop_first();
    assert(e3 =~= rest);
    lemma_failed_is_final(s3, SyncError::ExpectedStop, rest);
    let tail = run_events(s3, rest).1;
    assert(run_events(s2, e2) == (s3, seq![a3] + tail));
    assert(run_events(s1, e1) == (s3, seq![a2] + (seq![a3] + tail)));
    assert(run_events(s0, events) == (s3, seq![a1] + (seq![a2] + (seq![a3] + tail))));
    let acts = seq![a1] + (seq![a2] + (seq![a3] + tail));
    assert(acts.drop_first() =~= seq![a2] + (seq![a3] + tail));
    assert((seq![a2] + (seq![a3] + tail)).drop_first() =~= seq![a3] + tail);
    assert((seq![a3] + tail).drop_first() =~= tail);
    assert(recording_calls(seq![a3] + tail) == recording_calls(tail));
    assert(recording_calls(seq![a2] + (seq![a3] + tail)) == recording_calls(tail));
    assert(recording_calls(acts) =~= seq![Action::StartRecording(run_id)]);
}

} // verus!
