//! The coordinator: one partitioner, one sender and one reporter, and the
//! pool of workers that share them.
//!
//! A run goes from idle to running to done. It starts by spawning as many
//! workers as the settings ask for, and it is done when every one of them
//! has found the wordlist exhausted, not before.

use vstd::prelude::*;
use vstd::string::*;
use crate::args::FuzzerArgs;
use crate::display::Display;
use crate::display::DisplayArgs;
use crate::display::DisplayArgsView;
use crate::reader::Reader;
use crate::reader::ReaderBuilder;
use crate::sender::Sender;
use crate::sender::SenderBuilder;
use crate::sender::SenderBuilderView;
use crate::worker::Phase;
use crate::worker::RetryPolicy;
use crate::worker::Worker;
use crate::worker::WorkerView;

verus! {

/// How far a run has come.
#[derive(Clone, Copy, Debug, PartialEq, Eq, Structural)]
pub enum RunState {
    Idle,
    Running,
    Done,
}

/// What happened to the pool.
#[derive(Clone, Copy, Debug, PartialEq, Eq, Structural)]
pub enum PoolEvent {
    /// The run was started.
    Start,
    /// A worker found the wordlist exhausted and stopped.
    WorkerExhausted,
}

/// What the coordinator asks for.
#[derive(Clone, Copy, Debug, PartialEq, Eq, Structural)]
pub enum PoolAction {
    /// Spawn this many workers.
    Spawn(u8),
    /// Keep waiting: some workers are still at work.
    Wait,
    /// Every worker has stopped: the run is over.
    Finish,
    /// Nothing: the event does not belong to the state of the run.
    Ignore,
}

/// The mathematical content of a [`Coordinator`].
pub struct CoordinatorView {
    pub state: RunState,
    /// The size of the pool.
    pub workers: nat,
    /// The number of workers that have stopped.
    pub finished: nat,
}

impl CoordinatorView {
    /// What holds of every state of a run: no worker has stopped before the
    /// start, some worker is at work while the run is running, and all have
    /// stopped when it is done.
    pub open spec fn consistent(self) -> bool {
        match self.state {
            RunState::Idle => self.finished == 0,
            RunState::Running => self.finished < self.workers,
            RunState::Done => self.finished == self.workers,
        }
    }
}

/// The transition function of the coordinator.
pub open spec fn pool_next(state: CoordinatorView, event: PoolEvent) -> (CoordinatorView, PoolAction) {
    match (state.state, event) {
        (RunState::Idle, PoolEvent::Start) => if state.workers == 0 {
            (CoordinatorView { state: RunState::Done, ..state }, PoolAction::Finish)
        } else {
            (
                CoordinatorView { state: RunState::Running, ..state },
                PoolAction::Spawn(state.workers as u8),
            )
        },
        (RunState::Running, PoolEvent::WorkerExhausted) => if state.finished + 1 == state.workers {
            (
                CoordinatorView { state: RunState::Done, finished: state.finished + 1, ..state },
                PoolAction::Finish,
            )
        } else {
            (CoordinatorView { finished: state.finished + 1, ..state }, PoolAction::Wait)
        },
        _ => (state, PoolAction::Ignore),
    }
}

/// The state of a run.
pub struct Coordinator {
    state: RunState,
    workers: u8,
    finished: u8,
}

impl View for Coordinator {
    type V = CoordinatorView;

    closed spec fn view(&self) -> CoordinatorView {
        CoordinatorView {
            state: self.state,
            workers: self.workers as nat,
            finished: self.finished as nat,
        }
    }
}

impl Coordinator {
    #[verifier::type_invariant]
    spec fn well_formed(self) -> bool {
        self@.consistent()
    }

    /// The coordinator of a run with `workers` workers, before its start.
    pub fn new(workers: u8) -> (coordinator: Coordinator)
        ensures
            coordinator@ == (CoordinatorView { state: RunState::Idle, workers: workers as nat, finished: 0 }),
    {
        Coordinator { state: RunState::Idle, workers, finished: 0 }
    }

    /// How far the run has come.
    pub fn state(&self) -> (state: RunState)
        ensures
            state == self@.state,
    {
        self.state
    }

    /// The number of workers that have stopped.
    pub fn finished(&self) -> (finished: u8)
        ensures
            finished == self@.finished,
            self@.consistent(),
    {
        proof {
            use_type_invariant(self);
        }
        self.finished
    }

    /// Takes `event` and answers with what to do, as [`pool_next`] has it.
    pub fn step(&mut self, event: PoolEvent) -> (action: PoolAction)
        ensures
            (final(self)@, action) == pool_next(old(self)@, event),
            final(self)@.consistent(),
    {
        proof {
            use_type_invariant(&*self);
        }
        match (self.state, event) {
            (RunState::Idle, PoolEvent::Start) => {
                if self.workers == 0 {
                    self.state = RunState::Done;
                    PoolAction::Finish
                } else {
                    self.state = RunState::Running;
                    PoolAction::Spawn(self.workers)
                }
            },
            (RunState::Running, PoolEvent::WorkerExhausted) => {
                if self.finished + 1 == self.workers {
                    *self = Coordinator {
                        state: RunState::Done,
                        workers: self.workers,
                        finished: self.finished + 1,
                    };
                    PoolAction::Finish
                } else {
                    self.finished = self.finished + 1;
                    PoolAction::Wait
                }
            },
            _ => PoolAction::Ignore,
        }
    }
}

/// The state of a started run after `stopped` workers have stopped.
pub open spec fn after_stops(state: CoordinatorView, stopped: nat) -> CoordinatorView
    decreases stopped,
{
    if stopped == 0 {
        state
    } else {
        pool_next(after_stops(state, (stopped - 1) as nat), PoolEvent::WorkerExhausted).0
    }
}

/// The barrier: a run that was started with `n` workers is running as long
/// as fewer than `n` of them have stopped, and done once all `n` have.
pub proof fn lemma_done_when_all_workers_stopped(state: CoordinatorView, stopped: nat)
    requires
        state.state == RunState::Idle,
        state.finished == 0,
        stopped <= state.workers,
    ensures
        pool_next(state, PoolEvent::Start).1 == if state.workers == 0 {
            PoolAction::Finish
        } else {
            PoolAction::Spawn(state.workers as u8)
        },
        after_stops(pool_next(state, PoolEvent::Start).0, stopped) == (CoordinatorView {
            state: if stopped == state.workers {
                RunState::Done
            } else {
                RunState::Running
            },
            finished: stopped,
            ..state
        }),
    decreases stopped,
{
    if stopped > 0 {
        lemma_done_when_all_workers_stopped(state, (stopped - 1) as nat);
    }
}

/// A run that is done stays done: no event leads out of it.
pub proof fn lemma_done_is_final(state: CoordinatorView, event: PoolEvent)
    requires
        state.state == RunState::Done,
    ensures
        pool_next(state, event) == (state, PoolAction::Ignore),
{
}

/// A run: its settings, its three shared parts, and its state.
pub struct Fuzzer {
    pub reader: Reader,
    pub sender: Sender,
    pub display: Display,
    pub coordinator: Coordinator,
    pub args: FuzzerArgs,
}

impl Fuzzer {
    /// The builder of the reader for these settings: the wordlist at the
    /// path they name, shared among the workers they ask for.
    pub fn reader_builder(args: &FuzzerArgs) -> (builder: ReaderBuilder)
        ensures
            builder.path matches Some(path) && path@ == args.wordlist@,
            builder.threads == args.threads,
    {
        ReaderBuilder::new().with_path(args.wordlist.clone()).with_threads(args.threads)
    }

    /// The builder of the sender for these settings.
    pub fn sender_builder(args: &FuzzerArgs) -> (builder: SenderBuilder)
        ensures
            builder@ == (SenderBuilderView {
                user_agent: args.user_agent@,
                request_timeout: args.timeout,
                url: Some(args.url@),
                follow_redirect: args.follow_redirect,
                method: args.method@,
            }),
    {
        SenderBuilder::new().with_url(args.url.clone()).with_user_agent(
            args.user_agent.as_str(),
        ).with_request_timeout(args.timeout).with_follow_redirect(args.follow_redirect).with_method(
            args.method.as_str(),
        )
    }

    /// The run over a reader and a sender that were built for `args`. The
    /// reporter is made for the lines of the reader's wordlist, and the run
    /// has not started.
    pub fn new(args: &FuzzerArgs, reader: Reader, sender: Sender) -> (fuzzer: Fuzzer)
        ensures
            fuzzer.reader == reader,
            fuzzer.sender == sender,
            fuzzer.args@ == args@,
            fuzzer.coordinator@ == (CoordinatorView {
                state: RunState::Idle,
                workers: args.threads as nat,
                finished: 0,
            }),
            fuzzer.display.made_for(
                DisplayArgsView {
                    url: args.url@,
                    wordlist: args.wordlist@,
                    threads: args.threads,
                    timeout: args.timeout,
                    user_agent: args.user_agent@,
                    filtered_code: args.filtered_code@,
                    filtered_size: args.filtered_size@,
                    filtered_word: args.filtered_word.deep_view(),
                    matched_code: args.matched_code@,
                    matched_size: args.matched_size@,
                    matched_word: args.matched_word.deep_view(),
                    method: args.method@,
                },
                reader.line_count_spec() as nat,
            ),
    {
        let display = Display::new(DisplayArgs::from(args), reader.line_count());
        Fuzzer {
            reader,
            sender,
            display,
            coordinator: Coordinator::new(args.threads),
            args: args.clone(),
        }
    }

    /// A worker of this run, not yet started: it fills the URL template of
    /// the sender and retries as the standard policy says.
    pub fn worker(&self) -> (worker: Worker)
        ensures
            worker@ == (WorkerView {
                template: self.sender.args.url@,
                policy: RetryPolicy { max_attempts: 3, delay_ms: 100 },
                chunk: Seq::empty(),
                index: 0,
                attempts: 0,
                phase: Phase::Idle,
            }),
    {
        Worker::new(self.sender.args.url.clone(), RetryPolicy::standard())
    }
}

} // verus!
