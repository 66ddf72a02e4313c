//! The worker loop as a state machine.
//!
//! A worker asks the partitioner for a chunk, sends one request per payload,
//! retries a request that failed after a fixed delay, and hands every
//! response to the reporter. Fetching, sending and sleeping are done by
//! whoever runs the worker. [`Worker::step`] is told what happened and
//! answers with what to do next, what to report, and how far to move the
//! progress counter.

use vstd::prelude::*;
use vstd::string::*;
use crate::response::ResponseRecord;
use crate::response::ResponseRecordView;
use crate::url::substitute;
use crate::url::substituted;

verus! {

/// How often a request is sent and how long the worker waits after a
/// failure.
#[derive(Clone, Copy, Debug, PartialEq, Eq, Structural)]
pub struct RetryPolicy {
    /// The largest number of times that the request for one payload is sent.
    /// A payload is sent once even where this is zero.
    pub max_attempts: u32,
    /// The pause after a failed request, in milliseconds.
    pub delay_ms: u64,
}

impl RetryPolicy {
    /// Three attempts, a tenth of a second apart.
    pub fn standard() -> (policy: RetryPolicy)
        ensures
            policy == (RetryPolicy { max_attempts: 3, delay_ms: 100 }),
    {
        RetryPolicy { max_attempts: 3, delay_ms: 100 }
    }

    /// The number of times that the request for one payload is sent if it
    /// fails every time.
    pub open spec fn attempt_limit(self) -> nat {
        if self.max_attempts == 0 {
            1
        } else {
            self.max_attempts as nat
        }
    }
}

impl Default for RetryPolicy {
    fn default() -> (policy: RetryPolicy)
        ensures
            policy == (RetryPolicy { max_attempts: 3, delay_ms: 100 }),
    {
        RetryPolicy::standard()
    }
}

/// What a worker is waiting for.
#[derive(Clone, Copy, Debug, PartialEq, Eq, Structural)]
pub enum Phase {
    /// Not started.
    Idle,
    /// A chunk has been asked for.
    AwaitingChunk,
    /// A request is under way.
    AwaitingResponse,
    /// The pause after a failed request is running.
    AwaitingDelay,
    /// The wordlist is exhausted; the worker has stopped.
    Done,
}

/// What happened outside the worker.
#[derive(Debug)]
pub enum WorkerEvent {
    /// The worker was started.
    Start,
    /// The partitioner handed out this chunk.
    Chunk(Vec<String>),
    /// The partitioner is exhausted.
    Exhausted,
    /// The request was answered.
    Response(ResponseRecord),
    /// The request failed in transport.
    TransportError,
    /// The pause is over.
    DelayElapsed,
}

/// The mathematical content of a [`WorkerEvent`].
pub enum EventView {
    Start,
    Chunk(Seq<Seq<char>>),
    Exhausted,
    Response(ResponseRecordView),
    TransportError,
    DelayElapsed,
}

impl View for WorkerEvent {
    type V = EventView;

    open spec fn view(&self) -> EventView {
        match self {
            WorkerEvent::Start => EventView::Start,
            WorkerEvent::Chunk(chunk) => EventView::Chunk(chunk.deep_view()),
            WorkerEvent::Exhausted => EventView::Exhausted,
            WorkerEvent::Response(record) => EventView::Response(record@),
            WorkerEvent::TransportError => EventView::TransportError,
            WorkerEvent::DelayElapsed => EventView::DelayElapsed,
        }
    }
}

/// The outside work that a worker asks for.
#[derive(Clone, Debug)]
pub enum Command {
    /// Take the next chunk from the partitioner.
    FetchChunk,
    /// Send a request to this URL.
    Send(String),
    /// Pause for this many milliseconds.
    Sleep(u64),
    /// Nothing more: the worker is done.
    Stop,
    /// Nothing: the event was not one that the worker was waiting for.
    Wait,
}

/// The mathematical content of a [`Command`].
pub enum CommandView {
    FetchChunk,
    Send(Seq<char>),
    Sleep(u64),
    Stop,
    Wait,
}

impl View for Command {
    type V = CommandView;

    open spec fn view(&self) -> CommandView {
        match self {
            Command::FetchChunk => CommandView::FetchChunk,
            Command::Send(url) => CommandView::Send(url@),
            Command::Sleep(millis) => CommandView::Sleep(*millis),
            Command::Stop => CommandView::Stop,
            Command::Wait => CommandView::Wait,
        }
    }
}

/// A worker's answer to an event.
#[derive(Debug)]
pub struct Step {
    /// The response to hand to the reporter, if the event was one.
    pub report: Option<ResponseRecord>,
    /// By how much the progress counter moves: one for each payload that
    /// this event finished, answered or given up.
    pub progress: u64,
    /// What to do next.
    pub command: Command,
}

/// The mathematical content of a [`Step`].
pub struct StepView {
    pub report: Option<ResponseRecordView>,
    pub progress: nat,
    pub command: CommandView,
}

impl View for Step {
    type V = StepView;

    open spec fn view(&self) -> StepView {
        StepView {
            report: match self.report {
                Some(record) => Some(record@),
                None => None,
            },
            progress: self.progress as nat,
            command: self.command@,
        }
    }
}

/// The mathematical content of a [`Worker`].
pub struct WorkerView {
    pub template: Seq<char>,
    pub policy: RetryPolicy,
    /// The chunk that is being worked on; empty between chunks.
    pub chunk: Seq<Seq<char>>,
    /// The place in the chunk of the payload that is being worked on.
    pub index: nat,
    /// How often the request for that payload has been sent.
    pub attempts: nat,
    pub phase: Phase,
}

impl WorkerView {
    /// The worker is between chunks, in the given phase.
    pub open spec fn between_chunks(self, phase: Phase) -> WorkerView {
        WorkerView { chunk: Seq::empty(), index: 0, attempts: 0, phase, ..self }
    }

    /// The worker is working on a payload: a request for it is under way, or
    /// the pause after one.
    pub open spec fn busy(self) -> bool {
        self.phase == Phase::AwaitingResponse || self.phase == Phase::AwaitingDelay
    }

    /// What holds of every state that a worker reaches: while it works on a
    /// payload, the payload is one of the chunk, its request has been sent at
    /// least once, and no more often than the policy allows.
    pub open spec fn consistent(self) -> bool {
        if self.busy() {
            self.index < self.chunk.len() && 1 <= self.attempts <= self.policy.attempt_limit()
        } else {
            self.chunk.len() == 0 && self.index == 0 && self.attempts == 0
        }
    }

    /// The URL of the payload at `index`.
    pub open spec fn url_at(self, index: nat) -> Seq<char> {
        substituted(self.template, self.chunk[index as int])
    }
}

/// A step without a report.
pub open spec fn quiet_step(progress: nat, command: CommandView) -> StepView {
    StepView { report: None, progress, command }
}

/// The worker leaves the payload it has been working on: it sends the
/// request for the next payload of the chunk, or asks for the next chunk.
pub open spec fn move_on(state: WorkerView) -> (WorkerView, CommandView) {
    if state.index + 1 < state.chunk.len() {
        (
            WorkerView { index: state.index + 1, attempts: 1, phase: Phase::AwaitingResponse, ..state },
            CommandView::Send(state.url_at(state.index + 1)),
        )
    } else {
        (state.between_chunks(Phase::AwaitingChunk), CommandView::FetchChunk)
    }
}

/// The transition function of a worker: the state after `event`, and the
/// worker's answer to it. An event that the worker is not waiting for
/// changes nothing.
pub open spec fn worker_next(state: WorkerView, event: EventView) -> (WorkerView, StepView) {
    match (state.phase, event) {
        (Phase::Idle, EventView::Start) => (
            state.between_chunks(Phase::AwaitingChunk),
            quiet_step(0, CommandView::FetchChunk),
        ),
        (Phase::AwaitingChunk, EventView::Exhausted) => (
            state.between_chunks(Phase::Done),
            quiet_step(0, CommandView::Stop),
        ),
        (Phase::AwaitingChunk, EventView::Chunk(chunk)) => if chunk.len() == 0 {
            (state, quiet_step(0, CommandView::FetchChunk))
        } else {
            let started = WorkerView {
                chunk,
                index: 0,
                attempts: 1,
                phase: Phase::AwaitingResponse,
                ..state
            };
            (started, quiet_step(0, CommandView::Send(started.url_at(0))))
        },
        (Phase::AwaitingResponse, EventView::Response(record)) => {
            let (moved, command) = move_on(state);
            (moved, StepView { report: Some(record), progress: 1, command })
        },
        (Phase::AwaitingResponse, EventView::TransportError) => (
            WorkerView { phase: Phase::AwaitingDelay, ..state },
            quiet_step(0, CommandView::Sleep(state.policy.delay_ms)),
        ),
        (Phase::AwaitingDelay, EventView::DelayElapsed) => if state.attempts
            < state.policy.attempt_limit() {
            (
                WorkerView { attempts: state.attempts + 1, phase: Phase::AwaitingResponse, ..state },
                quiet_step(0, CommandView::Send(state.url_at(state.index))),
            )
        } else {
            let (moved, command) = move_on(state);
            (moved, quiet_step(1, command))
        },
        _ => (state, quiet_step(0, CommandView::Wait)),
    }
}

/// One worker of the pool.
pub struct Worker {
    template: String,
    policy: RetryPolicy,
    chunk: Vec<String>,
    index: usize,
    attempts: u32,
    phase: Phase,
}

impl View for Worker {
    type V = WorkerView;

    closed spec fn view(&self) -> WorkerView {
        let busy = self.phase == Phase::AwaitingResponse || self.phase == Phase::AwaitingDelay;
        WorkerView {
            template: self.template@,
            policy: self.policy,
            chunk: if busy {
                self.chunk.deep_view()
            } else {
                Seq::empty()
            },
            index: if busy {
                self.index as nat
            } else {
                0
            },
            attempts: if busy {
                self.attempts as nat
            } else {
                0
            },
            phase: self.phase,
        }
    }
}

impl Worker {
    #[verifier::type_invariant]
    spec fn well_formed(self) -> bool {
        self@.consistent()
    }

    /// A worker that has not started, for the given URL template.
    pub fn new(template: String, policy: RetryPolicy) -> (worker: Worker)
        ensures
            worker@ == (WorkerView {
                template: template@,
                policy,
                chunk: Seq::empty(),
                index: 0,
                attempts: 0,
                phase: Phase::Idle,
            }),
            worker@.consistent(),
    {
        Worker { template, policy, chunk: Vec::new(), index: 0, attempts: 0, phase: Phase::Idle }
    }

    /// What the worker is waiting for.
    pub fn phase(&self) -> (phase: Phase)
        ensures
            phase == self@.phase,
    {
        self.phase
    }

    /// How often the request for the current payload has been sent; zero
    /// while the worker is not working on a payload.
    pub fn attempts(&self) -> (attempts: u32)
        ensures
            attempts == self@.attempts,
    {
        match self.phase {
            Phase::AwaitingResponse | Phase::AwaitingDelay => self.attempts,
            _ => 0,
        }
    }

    /// Whether the worker has stopped.
    pub fn is_done(&self) -> (done: bool)
        ensures
            done == (self@.phase == Phase::Done),
    {
        match self.phase {
            Phase::Done => true,
            _ => false,
        }
    }

    /// Leaves the chunk behind.
    fn settle(&mut self, phase: Phase)
        requires
            phase != Phase::AwaitingResponse,
            phase != Phase::AwaitingDelay,
        ensures
            final(self)@ == old(self)@.between_chunks(phase),
    {
        self.phase = phase;
        self.chunk = Vec::new();
    }

    /// Stays with the payload, in another phase or at another attempt.
    fn rephase(&mut self, phase: Phase, attempts: u32)
        requires
            old(self)@.busy(),
            phase == Phase::AwaitingResponse || phase == Phase::AwaitingDelay,
            1 <= attempts <= old(self)@.policy.attempt_limit(),
        ensures
            final(self)@ == (WorkerView { attempts: attempts as nat, phase, ..old(self)@ }),
    {
        proof {
            use_type_invariant(&*self);
        }
        self.attempts = attempts;
        self.phase = phase;
    }

    /// Goes on to the next payload of the chunk, or to the next chunk.
    fn advance(&mut self) -> (command: Command)
        requires
            old(self)@.busy(),
        ensures
            (final(self)@, command@) == move_on(old(self)@),
    {
        proof {
            use_type_invariant(&*self);
        }
        assert(self.chunk.deep_view().len() == self.chunk.len());
        if self.index + 1 < self.chunk.len() {
            let next = self.index + 1;
            assert(self.chunk.deep_view()[next as int] == self.chunk@[next as int]@);
            let url = substitute(self.template.as_str(), self.chunk[next].as_str());
            self.attempts = 1;
            self.index = next;
            self.phase = Phase::AwaitingResponse;
            Command::Send(url)
        } else {
            self.settle(Phase::AwaitingChunk);
            Command::FetchChunk
        }
    }

    /// Takes `event` and answers with the next step, as [`worker_next`] has
    /// it.
    pub fn step(&mut self, event: WorkerEvent) -> (step: Step)
        ensures
            (final(self)@, step@) == worker_next(old(self)@, event@),
            final(self)@.consistent(),
    {
        proof {
            use_type_invariant(&*self);
        }
        let step = match (self.phase, event) {
            (Phase::Idle, WorkerEvent::Start) => {
                self.settle(Phase::AwaitingChunk);
                Step { report: None, progress: 0, command: Command::FetchChunk }
            },
            (Phase::AwaitingChunk, WorkerEvent::Exhausted) => {
                self.settle(Phase::Done);
                Step { report: None, progress: 0, command: Command::Stop }
            },
            (Phase::AwaitingChunk, WorkerEvent::Chunk(chunk)) => {
                if chunk.len() == 0 {
                    Step { report: None, progress: 0, command: Command::FetchChunk }
                } else {
                    assert(chunk.deep_view()[0] == chunk@[0]@);
                    let url = substitute(self.template.as_str(), chunk[0].as_str());
                    self.chunk = chunk;
                    self.index = 0;
                    self.attempts = 1;
                    self.phase = Phase::AwaitingResponse;
                    Step { report: None, progress: 0, command: Command::Send(url) }
                }
            },
            (Phase::AwaitingResponse, WorkerEvent::Response(record)) => {
                let command = self.advance();
                Step { report: Some(record), progress: 1, command }
            },
            (Phase::AwaitingResponse, WorkerEvent::TransportError) => {
                let delay = self.policy.delay_ms;
                self.rephase(Phase::AwaitingDelay, self.attempts);
                Step { report: None, progress: 0, command: Command::Sleep(delay) }
            },
            (Phase::AwaitingDelay, WorkerEvent::DelayElapsed) => {
                let limit: u32 = if self.policy.max_attempts == 0 {
                    1
                } else {
                    self.policy.max_attempts
                };
                if self.attempts < limit {
                    assert(self.chunk.deep_view()[self.index as int] == self.chunk@[self.index as int]@);
                    let url = substitute(self.template.as_str(), self.chunk[self.index].as_str());
                    self.rephase(Phase::AwaitingResponse, self.attempts + 1);
                    Step { report: None, progress: 0, command: Command::Send(url) }
                } else {
                    let command = self.advance();
                    Step { report: None, progress: 1, command }
                }
            },
            _ => Step { report: None, progress: 0, command: Command::Wait },
        };
        proof {
            lemma_step_keeps_consistent(old(self)@, event@);
        }
        step
    }
}

/// Every state that a worker reaches is consistent: an event leads from a
/// consistent state to a consistent state. In particular the request for a
/// payload is never sent more often than the policy allows, whatever the
/// transport does.
pub proof fn lemma_step_keeps_consistent(state: WorkerView, event: EventView)
    requires
        state.consistent(),
    ensures
        worker_next(state, event).0.consistent(),
        worker_next(state, event).0.template == state.template,
        worker_next(state, event).0.policy == state.policy,
{
}

/// The state after `rounds` requests in a row have failed and the pause
/// after each has run.
pub open spec fn after_failures(state: WorkerView, rounds: nat) -> WorkerView
    decreases rounds,
{
    if rounds == 0 {
        state
    } else {
        let before = after_failures(state, (rounds - 1) as nat);
        let failed = worker_next(before, EventView::TransportError).0;
        worker_next(failed, EventView::DelayElapsed).0
    }
}

/// While fewer requests have failed than the policy allows, the worker stays
/// with its payload, and has sent one request more than have failed.
pub proof fn lemma_failures_keep_payload(state: WorkerView, rounds: nat)
    requires
        state.consistent(),
        state.phase == Phase::AwaitingResponse,
        state.attempts == 1,
        rounds < state.policy.attempt_limit(),
    ensures
        after_failures(state, rounds) == (WorkerView { attempts: 1 + rounds, ..state }),
    decreases rounds,
{
    if rounds > 0 {
        lemma_failures_keep_payload(state, (rounds - 1) as nat);
    }
}

/// Retry bound: a payload whose request fails every time is sent as often as
/// the policy allows and no more. After every failure the worker asks for the
/// pause that the policy sets, before it sends again or moves on; the failed
/// attempts move the progress counter only when the payload is given up,
/// and then by one.
pub proof fn lemma_retry_bound(state: WorkerView)
    requires
        state.consistent(),
        state.phase == Phase::AwaitingResponse,
        state.attempts == 1,
    ensures
        forall|rounds: nat|
            rounds < state.policy.attempt_limit() ==> {
                let sent = #[trigger] after_failures(state, rounds);
                let (waiting, pause) = worker_next(sent, EventView::TransportError);
                &&& sent.phase == Phase::AwaitingResponse
                &&& sent.index == state.index
                &&& sent.attempts == 1 + rounds
                &&& pause == quiet_step(0, CommandView::Sleep(state.policy.delay_ms))
                &&& waiting.phase == Phase::AwaitingDelay
                &&& rounds + 1 < state.policy.attempt_limit() ==> worker_next(
                    waiting,
                    EventView::DelayElapsed,
                ).1 == quiet_step(0, CommandView::Send(state.url_at(state.index)))
                &&& rounds + 1 == state.policy.attempt_limit() ==> worker_next(
                    waiting,
                    EventView::DelayElapsed,
                ).1 == quiet_step(1, move_on(state).1)
            },
        after_failures(state, state.policy.attempt_limit()) == move_on(state).0,
{
    let limit = state.policy.attempt_limit();
    assert forall|rounds: nat| rounds < limit implies {
        let sent = #[trigger] after_failures(state, rounds);
        let (waiting, pause) = worker_next(sent, EventView::TransportError);
        &&& sent.phase == Phase::AwaitingResponse
        &&& sent.index == state.index
        &&& sent.attempts == 1 + rounds
        &&& pause == quiet_step(0, CommandView::Sleep(state.policy.delay_ms))
        &&& waiting.phase == Phase::AwaitingDelay
        &&& rounds + 1 < limit ==> worker_next(waiting, EventView::DelayElapsed).1 == quiet_step(
            0,
            CommandView::Send(state.url_at(state.index)),
        )
        &&& rounds + 1 == limit ==> worker_next(waiting, EventView::DelayElapsed).1 == quiet_step(
            1,
            move_on(state).1,
        )
    } by {
        lemma_failures_keep_payload(state, rounds);
    }
    lemma_failures_keep_payload(state, (limit - 1) as nat);
}

/// Retry bound under the standard policy: three requests, a pause of a
/// tenth of a second after each, then the next payload.
pub proof fn lemma_standard_policy_sends_three_times(state: WorkerView)
    requires
        state.consistent(),
        state.phase == Phase::AwaitingResponse,
        state.attempts == 1,
        state.policy == (RetryPolicy { max_attempts: 3, delay_ms: 100 }),
    ensures
        after_failures(state, 0).attempts == 1,
        after_failures(state, 1).attempts == 2,
        after_failures(state, 2).attempts == 3,
        after_failures(state, 3) == move_on(state).0,
        forall|rounds: nat|
            rounds < 3 ==> worker_next(
                #[trigger] after_failures(state, rounds),
                EventView::TransportError,
            ).1.command == CommandView::Sleep(100),
{
    lemma_retry_bound(state);
    assert(after_failures(state, 0).attempts == 1);
    assert(after_failures(state, 1).attempts == 2);
    assert(after_failures(state, 2).attempts == 3);
}

/// The state after a run of events.
pub open spec fn run_state(state: WorkerView, events: Seq<EventView>) -> WorkerView
    decreases events.len(),
{
    if events.len() == 0 {
        state
    } else {
        run_state(worker_next(state, events[0]).0, events.skip(1))
    }
}

/// By how much a run of events moves the progress counter.
pub open spec fn run_progress(state: WorkerView, events: Seq<EventView>) -> nat
    decreases events.len(),
{
    if events.len() == 0 {
        0
    } else {
        worker_next(state, events[0]).1.progress + run_progress(
            worker_next(state, events[0]).0,
            events.skip(1),
        )
    }
}

/// `events` take a worker that is busy with a chunk to the end of that
/// chunk, and not beyond: the worker is busy before each of them and no
/// longer after the last.
pub open spec fn finishes_chunk(state: WorkerView, events: Seq<EventView>) -> bool {
    &&& !run_state(state, events).busy()
    &&& forall|n: int| 0 <= n < events.len() ==> (#[trigger] run_state(state, events.take(n))).busy()
}

/// Progress from the middle of a chunk: the events that finish the chunk
/// move the progress counter by the number of payloads that were left,
/// whatever the events are.
pub proof fn lemma_progress_to_end_of_chunk(state: WorkerView, events: Seq<EventView>)
    requires
        state.consistent(),
        state.busy(),
        finishes_chunk(state, events),
    ensures
        run_progress(state, events) == state.chunk.len() - state.index,
        run_state(state, events) == state.between_chunks(Phase::AwaitingChunk),
    decreases events.len(),
{
    if events.len() == 0 {
        assert(run_state(state, events) == state);
    } else {
        let (next, step) = worker_next(state, events[0]);
        let rest = events.skip(1);
        lemma_step_keeps_consistent(state, events[0]);
        if next.busy() {
            assert forall|n: int| 0 <= n < rest.len() implies (#[trigger] run_state(
                next,
                rest.take(n),
            )).busy() by {
                let prefix = events.take(n + 1);
                assert(prefix[0] == events[0]);
                assert(prefix.skip(1) =~= rest.take(n));
                assert(run_state(state, prefix) == run_state(next, rest.take(n)));
            }
            lemma_progress_to_end_of_chunk(next, rest);
        } else {
            assert(rest.len() == 0) by {
                if events.len() > 1 {
                    let prefix = events.take(1);
                    assert(prefix[0] == events[0]);
                    assert(prefix.skip(1) =~= Seq::<EventView>::empty());
                    assert(run_state(next, prefix.skip(1)) == next);
                    assert(run_state(state, prefix) == next);
                    assert(run_state(state, prefix).busy());
                }
            }
            assert(run_progress(next, rest) == 0);
            assert(run_state(next, rest) == next);
        }
    }
}

/// Progress per chunk: from the moment a worker is handed a chunk of `K`
/// payloads to the moment it has finished the chunk, the progress counter
/// moves by exactly `K`, whatever the responses were and however many
/// requests failed.
pub proof fn lemma_progress_per_chunk(
    state: WorkerView,
    chunk: Seq<Seq<char>>,
    events: Seq<EventView>,
)
    requires
        state.consistent(),
        state.phase == Phase::AwaitingChunk,
        finishes_chunk(worker_next(state, EventView::Chunk(chunk)).0, events),
    ensures
        worker_next(state, EventView::Chunk(chunk)).1.progress + run_progress(
            worker_next(state, EventView::Chunk(chunk)).0,
            events,
        ) == chunk.len(),
        run_state(worker_next(state, EventView::Chunk(chunk)).0, events).phase == Phase::AwaitingChunk,
{
    let started = worker_next(state, EventView::Chunk(chunk)).0;
    if chunk.len() == 0 {
        if events.len() > 0 {
            assert(events.take(0) =~= Seq::<EventView>::empty());
            assert(run_state(started, events.take(0)) == started);
        }
    } else {
        lemma_step_keeps_consistent(state, EventView::Chunk(chunk));
        lemma_progress_to_end_of_chunk(started, events);
    }
}

} // verus!
