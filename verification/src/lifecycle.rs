//! The course of a run: for how long it goes on, and in what order it is brought to an end.
//!
//! [`RunStage`] decides and the caller acts: it performs the [`RunAction`] that it was handed and
//! reports back with a [`RunEvent`].

use rand::Rng;
use vstd::prelude::*;

use crate::text::{parse_u64, unsigned_number};

verus! {

/// The shortest run in seconds, where no length is set.
pub const MIN_RUN_SECONDS: u64 = 180;

/// The longest run in seconds, where no length is set.
pub const MAX_RUN_SECONDS: u64 = 300;

/// For how many milliseconds to pause between two looks at what is pending.
pub const DRAIN_POLL_MILLIS: u64 = 200;

/// For how many milliseconds to wait for what is pending.
pub const DRAIN_MILLIS: u64 = 120_000;

/// For how many seconds to wait for the last batch.
pub const SUBMITTER_SECONDS: u64 = 30;

/// `rand`'s `thread_rng().gen_range(low..=high)`: some number from `low` to `high`, both of
/// which it may be. Which one is left to chance.
#[verifier::external_body]
fn random_between(low: u64, high: u64) -> (r: u64)
    requires
        low <= high,
    ensures
        low <= r <= high,
{
    rand::thread_rng().gen_range(low..=high)
}

/// The length of a run that a variable sets, in seconds.
pub open spec fn set_length(variable: Option<String>) -> Option<nat> {
    match variable {
        Some(text) => unsigned_number(text@, u64::MAX as nat),
        None => None,
    }
}

/// The length of a run: the one that the variable sets, else the one that was drawn.
pub fn run_length(variable: Option<String>, drawn: u64) -> (r: u64)
    ensures
        r == (match set_length(variable) {
            Some(seconds) => seconds as int,
            None => drawn as int,
        }),
{
    match variable {
        Some(text) => match parse_u64(text.as_str()) {
            Some(seconds) => seconds,
            None => drawn,
        },
        None => drawn,
    }
}

/// The length of a run in seconds, where zero stands for a run without end: the one that the
/// variable sets, else one of three to five minutes that is left to chance.
pub fn run_seconds(variable: Option<String>) -> (r: u64)
    ensures
        match set_length(variable) {
            Some(seconds) => r == seconds,
            None => MIN_RUN_SECONDS <= r <= MAX_RUN_SECONDS,
        },
{
    let drawn: u64 = random_between(MIN_RUN_SECONDS, MAX_RUN_SECONDS);
    run_length(variable, drawn)
}

/// Where a run stands: what it waits for the end of.
#[derive(Clone, Copy, PartialEq, Eq, Structural, Debug)]
pub enum RunStage {
    /// The report of the machine's address.
    ReportingIp,
    StartingSubmitter,
    StartingWorkers,
    StartingProducer,
    /// The run itself.
    Running,
    StoppingProducer,
    /// A look at how many numbers are pending.
    Draining,
    /// A pause between two looks.
    Resting,
    ClosingTasks,
    JoiningWorkers,
    AwaitingSubmitter,
    Over,
}

/// What happened.
#[derive(Clone, Copy, PartialEq, Eq, Structural, Debug)]
pub enum RunEvent {
    /// What was to be done is done.
    Done,
    /// How many numbers are pending, that many milliseconds after the wait for them began.
    Pending { count: usize, waited_millis: u64 },
}

/// What to do next.
#[derive(Clone, Copy, PartialEq, Eq, Structural, Debug)]
pub enum RunAction {
    ReportIp,
    StartSubmitter,
    /// Start that many workers.
    StartWorkers(usize),
    StartProducer,
    /// Let the run go on for that many seconds.
    RunFor(u64),
    /// Let the run go on without end.
    RunForever,
    StopProducer,
    CheckPending,
    /// Pause for that many milliseconds.
    Rest(u64),
    /// Tell the workers that no more numbers will come.
    CloseTasks,
    JoinWorkers,
    /// Wait for the submitter, for that many seconds at most.
    AwaitSubmitter(u64),
    Exit,
}

/// Whether the wait for what is pending is over: nothing is, or its time has run out.
pub open spec fn is_drained(event: RunEvent) -> bool {
    event matches RunEvent::Pending { count, waited_millis } && (count == 0 || waited_millis
        >= DRAIN_MILLIS)
}

/// For how long to pause after a look: until the next one, or for what is left of the time.
pub open spec fn rest_millis(event: RunEvent) -> u64 {
    match event {
        RunEvent::Pending { count, waited_millis } => if DRAIN_MILLIS - waited_millis
            < DRAIN_POLL_MILLIS {
            (DRAIN_MILLIS - waited_millis) as u64
        } else {
            DRAIN_POLL_MILLIS
        },
        RunEvent::Done => DRAIN_POLL_MILLIS,
    }
}

impl RunStage {
    /// Whether the event answers what the run waits for. A run without end waits for nothing.
    pub open spec fn expects(self, seconds: u64, event: RunEvent) -> bool {
        match event {
            RunEvent::Done => self !is Draining && self !is Over && !(self is Running && seconds
                == 0),
            RunEvent::Pending { count, waited_millis } => self is Draining,
        }
    }

    /// The stage and the action that follow an event, in a run of that many workers and seconds.
    pub open spec fn next(self, workers: usize, seconds: u64, event: RunEvent) -> (
        RunStage,
        RunAction,
    ) {
        match self {
            RunStage::ReportingIp => (RunStage::StartingSubmitter, RunAction::StartSubmitter),
            RunStage::StartingSubmitter => (
                RunStage::StartingWorkers,
                RunAction::StartWorkers(workers),
            ),
            RunStage::StartingWorkers => (RunStage::StartingProducer, RunAction::StartProducer),
            RunStage::StartingProducer => (
                RunStage::Running,
                if seconds == 0 {
                    RunAction::RunForever
                } else {
                    RunAction::RunFor(seconds)
                },
            ),
            RunStage::Running => (RunStage::StoppingProducer, RunAction::StopProducer),
            RunStage::StoppingProducer => (RunStage::Draining, RunAction::CheckPending),
            RunStage::Draining => if is_drained(event) {
                (RunStage::ClosingTasks, RunAction::CloseTasks)
            } else {
                (RunStage::Resting, RunAction::Rest(rest_millis(event)))
            },
            RunStage::Resting => (RunStage::Draining, RunAction::CheckPending),
            RunStage::ClosingTasks => (RunStage::JoiningWorkers, RunAction::JoinWorkers),
            RunStage::JoiningWorkers => (
                RunStage::AwaitingSubmitter,
                RunAction::AwaitSubmitter(SUBMITTER_SECONDS),
            ),
            RunStage::AwaitingSubmitter => (RunStage::Over, RunAction::Exit),
            RunStage::Over => (RunStage::Over, RunAction::Exit),
        }
    }

    /// Starts a run.
    pub fn start() -> (r: (RunStage, RunAction))
        ensures
            r == (RunStage::ReportingIp, RunAction::ReportIp),
    {
        (RunStage::ReportingIp, RunAction::ReportIp)
    }

    /// Takes in what happened, and says what to do next, in a run of that many workers and
    /// seconds, where zero seconds stand for a run without end.
    pub fn step(self, workers: usize, seconds: u64, event: RunEvent) -> (r: (RunStage, RunAction))
        requires
            self.expects(seconds, event),
        ensures
            r == self.next(workers, seconds, event),
    {
        match self {
            RunStage::ReportingIp => (RunStage::StartingSubmitter, RunAction::StartSubmitter),
            RunStage::StartingSubmitter => (
                RunStage::StartingWorkers,
                RunAction::StartWorkers(workers),
            ),
            RunStage::StartingWorkers => (RunStage::StartingProducer, RunAction::StartProducer),
            RunStage::StartingProducer => if seconds == 0 {
                (RunStage::Running, RunAction::RunForever)
            } else {
                (RunStage::Running, RunAction::RunFor(seconds))
            },
            RunStage::Running => (RunStage::StoppingProducer, RunAction::StopProducer),
            RunStage::StoppingProducer => (RunStage::Draining, RunAction::CheckPending),
            RunStage::Draining => match event {
                RunEvent::Pending { count, waited_millis } => if count == 0 || waited_millis
                    >= DRAIN_MILLIS {
                    (RunStage::ClosingTasks, RunAction::CloseTasks)
                } else if DRAIN_MILLIS - waited_millis < DRAIN_POLL_MILLIS {
                    (RunStage::Resting, RunAction::Rest(DRAIN_MILLIS - waited_millis))
                } else {
                    (RunStage::Resting, RunAction::Rest(DRAIN_POLL_MILLIS))
                },
                RunEvent::Done => (RunStage::Resting, RunAction::Rest(DRAIN_POLL_MILLIS)),
            },
            RunStage::Resting => (RunStage::Draining, RunAction::CheckPending),
            RunStage::ClosingTasks => (RunStage::JoiningWorkers, RunAction::JoinWorkers),
            RunStage::JoiningWorkers => (
                RunStage::AwaitingSubmitter,
                RunAction::AwaitSubmitter(SUBMITTER_SECONDS),
            ),
            RunStage::AwaitingSubmitter => (RunStage::Over, RunAction::Exit),
            RunStage::Over => (RunStage::Over, RunAction::Exit),
        }
    }

    /// The place of a stage in the course of a run.
    pub open spec fn place(self) -> nat {
        match self {
            RunStage::ReportingIp => 0,
            RunStage::StartingSubmitter => 1,
            RunStage::StartingWorkers => 2,
            RunStage::StartingProducer => 3,
            RunStage::Running => 4,
            RunStage::StoppingProducer => 5,
            RunStage::Draining => 6,
            RunStage::Resting => 6,
            RunStage::ClosingTasks => 7,
            RunStage::JoiningWorkers => 8,
            RunStage::AwaitingSubmitter => 9,
            RunStage::Over => 10,
        }
    }
}

/// A run takes its steps in one order and skips none: each event leads to the next place, except
/// that the wait for what is pending is repeated until nothing is or its time has run out.
pub proof fn law_steps_come_in_order(stage: RunStage, workers: usize, seconds: u64, event: RunEvent)
    requires
        stage.expects(seconds, event),
    ensures
        stage.place() != 6 ==> stage.next(workers, seconds, event).0.place() == stage.place() + 1,
        stage.place() == 6 ==> stage.next(workers, seconds, event).0.place() == (if is_drained(event) {
            7nat
        } else {
            6nat
        }),
{
}

/// No pause in the wait for what is pending goes beyond the time for it, and none is for nothing.
pub proof fn law_pauses_end_with_the_wait(workers: usize, seconds: u64, count: usize, waited: u64)
    ensures
        ({
            let event = RunEvent::Pending { count, waited_millis: waited };
            RunStage::Draining.next(workers, seconds, event).1 matches RunAction::Rest(millis)
                ==> 0 < millis <= DRAIN_POLL_MILLIS && waited + millis <= DRAIN_MILLIS
        }),
{
}

/// A run of zero seconds is never brought to an end.
pub proof fn law_runs_of_zero_seconds_go_on(event: RunEvent)
    ensures
        !RunStage::Running.expects(0, event),
{
}

/// A run begins with the report of the address, and then starts the submitter, as many workers as
/// it is set to, and the producer, in this order.
pub proof fn law_a_run_starts_its_parts_in_order(
    begun: (RunStage, RunAction),
    stage: RunStage,
    workers: usize,
    seconds: u64,
    r: (RunStage, RunAction),
)
    requires
        call_ensures(RunStage::start, (), begun),
        call_ensures(RunStage::step, (stage, workers, seconds, RunEvent::Done), r),
    ensures
        begun == (RunStage::ReportingIp, RunAction::ReportIp),
        stage is ReportingIp ==> r == (RunStage::StartingSubmitter, RunAction::StartSubmitter),
        stage is StartingSubmitter ==> r == (
            RunStage::StartingWorkers,
            RunAction::StartWorkers(workers),
        ),
        stage is StartingWorkers ==> r == (RunStage::StartingProducer, RunAction::StartProducer),
{
}

/// Once its parts are started a run goes on for as many seconds as it is set to, or without end
/// where that is zero; then the producer is stopped, what is pending is waited for, the workers are
/// told and joined, and the submitter is waited for, half a minute at most.
pub proof fn law_a_run_ends_its_parts_in_order(
    stage: RunStage,
    workers: usize,
    seconds: u64,
    r: (RunStage, RunAction),
)
    requires
        call_ensures(RunStage::step, (stage, workers, seconds, RunEvent::Done), r),
    ensures
        stage is StartingProducer ==> r == (
            RunStage::Running,
            if seconds == 0 {
                RunAction::RunForever
            } else {
                RunAction::RunFor(seconds)
            },
        ),
        stage is Running ==> r == (RunStage::StoppingProducer, RunAction::StopProducer),
        stage is StoppingProducer ==> r == (RunStage::Draining, RunAction::CheckPending),
        stage is Resting ==> r == (RunStage::Draining, RunAction::CheckPending),
        stage is ClosingTasks ==> r == (RunStage::JoiningWorkers, RunAction::JoinWorkers),
        stage is JoiningWorkers ==> r == (
            RunStage::AwaitingSubmitter,
            RunAction::AwaitSubmitter(30),
        ),
        stage is AwaitingSubmitter ==> r == (RunStage::Over, RunAction::Exit),
{
}

/// What is pending is waited for until nothing is, two minutes at most, with a look every fifth of
/// a second; the last pause is no longer than what is left.
pub proof fn law_what_is_pending_is_waited_for(
    workers: usize,
    seconds: u64,
    count: usize,
    waited_millis: u64,
    r: (RunStage, RunAction),
)
    requires
        call_ensures(
            RunStage::step,
            (RunStage::Draining, workers, seconds, RunEvent::Pending { count, waited_millis }),
            r,
        ),
    ensures
        count == 0 || waited_millis >= 120000 ==> r == (
            RunStage::ClosingTasks,
            RunAction::CloseTasks,
        ),
        count > 0 && waited_millis <= 119800 ==> r == (RunStage::Resting, RunAction::Rest(200)),
        count > 0 && 119800 < waited_millis < 120000 ==> r.0 is Resting && r.1 is Rest
            && r.1->Rest_0 == 120000 - waited_millis,
{
}

/// A run takes in each event of the kind that it waits for; one without end waits for nothing.
pub proof fn law_runs_take_in_what_they_wait_for(
    stage: RunStage,
    seconds: u64,
    count: usize,
    waited_millis: u64,
)
    ensures
        stage is Draining ==> stage.expects(seconds, RunEvent::Pending { count, waited_millis }),
        !(stage is Draining) && !(stage is Over) && !(stage is Running && seconds == 0)
            ==> stage.expects(seconds, RunEvent::Done),
{
}

/// A run takes as many seconds as the variable says, where it is a whole number of them, and
/// otherwise three to five minutes.
pub proof fn law_a_run_takes_as_long_as_it_is_set_to(
    variable: Option<String>,
    drawn: u64,
    set: u64,
    r: u64,
)
    requires
        call_ensures(run_length, (variable, drawn), set),
        call_ensures(run_seconds, (variable,), r),
    ensures
        ({
            let number = unsigned_number(variable->0@, 18446744073709551615);
            if variable is Some && number is Some {
                r == number->0 && set == number->0
            } else {
                180 <= r <= 300 && set == drawn
            }
        }),
{
}

} // verus!
