//! A whole run: the producer, the workers and the submitter side by side, with two queues between
//! them.
//!
//! The producer puts tracking numbers into the one queue. Each worker takes a number out, looks it
//! up to the end, puts the result into the other queue unless the request was refused, and takes
//! the next. The submitter takes the results out. A run is any sequence of the steps that these
//! may take, in any order in which they may get their turn; the course of the run decides when
//! each starts and stops. A queue hands on what was put into it, in order, each entry once, and a
//! worker that finds the queue of numbers empty leaves only if the queue is closed.

use vstd::multiset::Multiset;
use vstd::prelude::*;
use vstd::seq_lib::lemma_multiset_commutative;

use crate::fetch::{FetchActionView, FetchEventView, FetchView};
use crate::json::JsonView;
use crate::lifecycle::{RunEvent, RunStage};
use crate::pipeline::{
    due_rows, events_of, forwarded, law_a_run_hands_in_what_is_due, replies, Arrival,
};
use crate::producer::{ProducerEventView, ProducerView};
use crate::submitter::handed_in;
use crate::worker::is_forbidden;

verus! {

/// What a run is set to.
pub ghost struct Settings {
    pub workers: usize,
    /// For how many seconds the run goes on; zero stands for a run without end.
    pub seconds: u64,
    pub proxies: nat,
}

/// What a worker is at.
pub ghost enum WorkerView {
    /// It waits for a number.
    Free,
    /// It looks a number up.
    Busy(FetchView),
    /// No more numbers will come.
    Left,
}

/// Where a run stands, and what came of it so far.
pub ghost struct SystemView {
    pub stage: RunStage,
    pub producer: ProducerView,
    /// The numbers that wait for a worker.
    pub queue: Seq<Seq<char>>,
    pub workers: Seq<WorkerView>,
    /// The results that wait for the submitter.
    pub results: Seq<JsonView>,
    /// The numbers that were put into the queue, in order.
    pub queued: Seq<Seq<char>>,
    /// The numbers that the workers took, in order.
    pub taken: Seq<Seq<char>>,
    /// The numbers that were looked up, each with its result, in the order in which the look-ups
    /// ended.
    pub looked_up: Seq<(Seq<char>, JsonView)>,
    /// What the submitter saw.
    pub arrivals: Seq<Arrival>,
}

/// One step of a run.
pub ghost enum SystemStep {
    /// The course of the run goes on at an event.
    Course(RunEvent),
    /// The producer goes on at an event.
    Produce(ProducerEventView),
    /// A worker takes a number.
    Take(int),
    /// The look-up of a worker goes on at an event.
    LookUp(int, FetchEventView),
    /// A worker leaves.
    Leave(int),
    /// A result arrives at the submitter.
    Deliver,
    /// No result arrives in time.
    Wait,
    /// The submitter finds that no more results will come.
    Close,
}

/// The numbers that were looked up.
pub open spec fn numbers_of_look_ups(looked_up: Seq<(Seq<char>, JsonView)>) -> Seq<Seq<char>> {
    looked_up.map_values(|entry: (Seq<char>, JsonView)| entry.0)
}

/// The results of look-ups.
pub open spec fn results_of_look_ups(looked_up: Seq<(Seq<char>, JsonView)>) -> Seq<JsonView> {
    looked_up.map_values(|entry: (Seq<char>, JsonView)| entry.1)
}

impl SystemView {
    /// A run at its beginning.
    pub open spec fn begun() -> SystemView {
        SystemView {
            stage: RunStage::ReportingIp,
            producer: ProducerView::begun(),
            queue: Seq::empty(),
            workers: Seq::empty(),
            results: Seq::empty(),
            queued: Seq::empty(),
            taken: Seq::empty(),
            looked_up: Seq::empty(),
            arrivals: Seq::empty(),
        }
    }

    /// Whether the producer was started and not yet stopped.
    pub open spec fn produces(self) -> bool {
        self.stage is Running || self.stage is StoppingProducer
    }

    /// Whether the workers were started.
    pub open spec fn has_workers(self) -> bool {
        self.stage.place() > RunStage::StartingWorkers.place()
    }

    /// Whether the queue of numbers is closed.
    pub open spec fn is_closed(self) -> bool {
        self.stage.place() > RunStage::ClosingTasks.place()
    }

    pub open spec fn all_left(self) -> bool {
        forall|i: int| 0 <= i < self.workers.len() ==> (#[trigger] self.workers[i]) is Left
    }

    /// Whether the submitter has come to its end.
    pub open spec fn is_submitted(self) -> bool {
        self.arrivals.len() > 0 && self.arrivals.last() is Closed
    }

    /// Whether the submitter was started and has not come to its end.
    pub open spec fn submits(self) -> bool {
        self.stage.place() > RunStage::StartingSubmitter.place() && !self.is_submitted()
    }

    /// Whether the step can be taken. The workers are joined once all have left; the submitter
    /// finds its queue closed once all have left and nothing waits in it.
    pub open spec fn can(self, settings: Settings, step: SystemStep) -> bool {
        match step {
            SystemStep::Course(event) => self.stage.expects(settings.seconds, event) && (
            self.stage is JoiningWorkers ==> self.all_left()),
            SystemStep::Produce(event) => self.produces() && self.producer.expects(event),
            SystemStep::Take(i) => 0 <= i < self.workers.len() && self.workers[i] is Free
                && self.queue.len() > 0,
            SystemStep::LookUp(i, event) => 0 <= i < self.workers.len() && (match self.workers[i] {
                WorkerView::Busy(look_up) => look_up.expects(event),
                _ => false,
            }),
            SystemStep::Leave(i) => 0 <= i < self.workers.len() && self.workers[i] is Free
                && self.is_closed() && self.queue.len() == 0,
            SystemStep::Deliver => self.submits() && self.results.len() > 0,
            SystemStep::Wait => self.submits(),
            SystemStep::Close => self.submits() && self.has_workers() && self.all_left()
                && self.results.len() == 0,
        }
    }

    /// The course goes on; the workers are there once starting them is done.
    pub open spec fn course(self, settings: Settings, event: RunEvent) -> SystemView {
        SystemView {
            stage: self.stage.next(settings.workers, settings.seconds, event).0,
            workers: if self.stage is StartingWorkers {
                Seq::new(settings.workers as nat, |i: int| WorkerView::Free)
            } else {
                self.workers
            },
            ..self
        }
    }

    /// The producer goes on. Where it is told that a number was taken into the queue, it is there.
    pub open spec fn produced(self, event: ProducerEventView) -> SystemView {
        let producer = self.producer.next(event).0;
        if event == ProducerEventView::Enqueued(true) {
            let number = self.producer.numbers[self.producer.looked_at as int];
            SystemView {
                producer,
                queue: self.queue.push(number),
                queued: self.queued.push(number),
                ..self
            }
        } else {
            SystemView { producer, ..self }
        }
    }

    /// A worker begins to look the next number up.
    pub open spec fn took(self, settings: Settings, i: int) -> SystemView {
        let number = self.queue[0];
        SystemView {
            queue: self.queue.skip(1),
            taken: self.taken.push(number),
            workers: self.workers.update(
                i,
                WorkerView::Busy(FetchView::begun(number, settings.proxies)),
            ),
            ..self
        }
    }

    /// A look-up goes on. At its end the worker forwards the result, unless the request was
    /// refused, and is free again.
    pub open spec fn went_on(self, i: int, look_up: FetchView, event: FetchEventView) -> SystemView {
        let (after, action) = look_up.next(event);
        match action {
            FetchActionView::Finish(result) => SystemView {
                workers: self.workers.update(i, WorkerView::Free),
                looked_up: self.looked_up.push((look_up.number, result)),
                results: if is_forbidden(result) {
                    self.results
                } else {
                    self.results.push(result)
                },
                ..self
            },
            _ => SystemView { workers: self.workers.update(i, WorkerView::Busy(after)), ..self },
        }
    }

    pub open spec fn saw(self, arrival: Arrival) -> SystemView {
        SystemView { arrivals: self.arrivals.push(arrival), ..self }
    }

    /// The state that follows a step.
    pub open spec fn after(self, settings: Settings, step: SystemStep) -> SystemView {
        match step {
            SystemStep::Course(event) => self.course(settings, event),
            SystemStep::Produce(event) => self.produced(event),
            SystemStep::Take(i) => self.took(settings, i),
            SystemStep::LookUp(i, event) => match self.workers[i] {
                WorkerView::Busy(look_up) => self.went_on(i, look_up, event),
                _ => self,
            },
            SystemStep::Leave(i) => SystemView {
                workers: self.workers.update(i, WorkerView::Left),
                ..self
            },
            SystemStep::Deliver => SystemView { results: self.results.skip(1), ..self }.saw(
                Arrival::Reply(self.results[0]),
            ),
            SystemStep::Wait => self.saw(Arrival::Idle),
            SystemStep::Close => self.saw(Arrival::Closed),
        }
    }
}

/// The state after steps, from the beginning.
pub open spec fn state_after(settings: Settings, steps: Seq<SystemStep>) -> SystemView
    decreases steps.len(),
{
    if steps.len() == 0 {
        SystemView::begun()
    } else {
        state_after(settings, steps.drop_last()).after(settings, steps.last())
    }
}

/// Whether each of the steps can be taken when it is its turn.
pub open spec fn is_run(settings: Settings, steps: Seq<SystemStep>) -> bool
    decreases steps.len(),
{
    steps.len() == 0 || (is_run(settings, steps.drop_last()) && state_after(
        settings,
        steps.drop_last(),
    ).can(settings, steps.last()))
}

/// The number that a worker looks up, if any.
pub open spec fn number_of(worker: WorkerView) -> Seq<Seq<char>> {
    match worker {
        WorkerView::Busy(look_up) => seq![look_up.number],
        _ => Seq::empty(),
    }
}

/// The numbers that workers look up.
pub open spec fn in_flight(workers: Seq<WorkerView>) -> Seq<Seq<char>>
    decreases workers.len(),
{
    if workers.len() == 0 {
        Seq::empty()
    } else {
        in_flight(workers.drop_last()) + number_of(workers.last())
    }
}

proof fn lemma_in_flight_of_both(a: Seq<WorkerView>, b: Seq<WorkerView>)
    ensures
        in_flight(a + b) == in_flight(a) + in_flight(b),
    decreases b.len(),
{
    if b.len() == 0 {
        assert(a + b =~= a);
    } else {
        lemma_in_flight_of_both(a, b.drop_last());
        assert((a + b).drop_last() =~= a + b.drop_last());
    }
    assert(in_flight(a + b) =~= in_flight(a) + in_flight(b));
}

proof fn lemma_in_flight_around(workers: Seq<WorkerView>, i: int)
    requires
        0 <= i < workers.len(),
    ensures
        in_flight(workers).to_multiset() == in_flight(workers.take(i)).to_multiset().add(
            in_flight(workers.skip(i + 1)).to_multiset(),
        ).add(number_of(workers[i]).to_multiset()),
{
    let front = workers.take(i);
    let one = seq![workers[i]];
    let back = workers.skip(i + 1);
    assert(workers =~= front + one + back);
    lemma_in_flight_of_both(front + one, back);
    lemma_in_flight_of_both(front, one);
    assert(one.drop_last() =~= Seq::empty());
    assert(in_flight(one.drop_last()) =~= Seq::empty());
    assert(in_flight(one) =~= number_of(workers[i]));
    lemma_multiset_commutative(in_flight(front) + in_flight(one), in_flight(back));
    lemma_multiset_commutative(in_flight(front), in_flight(one));
    assert(in_flight(workers).to_multiset() =~= in_flight(front).to_multiset().add(
        in_flight(back).to_multiset(),
    ).add(number_of(workers[i]).to_multiset()));
}

/// When one worker turns to something else, the numbers that are looked up change by its own.
proof fn lemma_in_flight_changes(workers: Seq<WorkerView>, i: int, worker: WorkerView)
    requires
        0 <= i < workers.len(),
    ensures
        in_flight(workers.update(i, worker)).to_multiset().add(number_of(workers[i]).to_multiset())
            == in_flight(workers).to_multiset().add(number_of(worker).to_multiset()),
{
    let changed = workers.update(i, worker);
    lemma_in_flight_around(workers, i);
    lemma_in_flight_around(changed, i);
    assert(changed.take(i) =~= workers.take(i));
    assert(changed.skip(i + 1) =~= workers.skip(i + 1));
    assert(in_flight(changed).to_multiset().add(number_of(workers[i]).to_multiset()) =~= in_flight(
        workers,
    ).to_multiset().add(number_of(worker).to_multiset()));
}

proof fn lemma_none_in_flight(workers: Seq<WorkerView>)
    requires
        forall|i: int| 0 <= i < workers.len() ==> !((#[trigger] workers[i]) is Busy),
    ensures
        in_flight(workers) == Seq::<Seq<char>>::empty(),
    decreases workers.len(),
{
    if workers.len() > 0 {
        let front = workers.drop_last();
        assert(forall|i: int| 0 <= i < front.len() ==> front[i] == workers[i]);
        lemma_none_in_flight(front);
        assert(!(workers[workers.len() - 1] is Busy));
        assert(in_flight(workers) =~= Seq::empty());
    }
}

proof fn lemma_pushed(s: Seq<Seq<char>>, number: Seq<char>)
    ensures
        s.push(number).to_multiset() == s.to_multiset().add(seq![number].to_multiset()),
{
    lemma_multiset_commutative(s, seq![number]);
    assert(s + seq![number] =~= s.push(number));
}

proof fn lemma_nothing()
    ensures
        forall|m: Multiset<Seq<char>>|
            m == #[trigger] m.add(Seq::<Seq<char>>::empty().to_multiset()),
{
    broadcast use vstd::seq_lib::group_to_multiset_ensures;

    let nothing = Seq::<Seq<char>>::empty();
    assert forall|m: Multiset<Seq<char>>| m == #[trigger] m.add(nothing.to_multiset()) by {
        assert forall|n: Seq<char>| nothing.to_multiset().count(n) == 0 by {
            assert(!nothing.contains(n));
        }
        assert(m =~= m.add(nothing.to_multiset()));
    }
}

impl SystemView {
    /// What holds of a run between two steps.
    spec fn is_kept(self, settings: Settings) -> bool {
        &&& self.queued == self.taken + self.queue
        &&& self.taken.to_multiset() == numbers_of_look_ups(self.looked_up).to_multiset().add(
            in_flight(self.workers).to_multiset(),
        )
        &&& forwarded(results_of_look_ups(self.looked_up)) == replies(self.arrivals) + self.results
        &&& self.workers.len() == (if self.has_workers() {
            settings.workers as nat
        } else {
            0
        })
        &&& forall|i: int|
            0 <= i < self.workers.len() && (#[trigger] self.workers[i]) is Left ==> self.is_closed()
                && self.queue.len() == 0
        &&& self.stage.place() > RunStage::JoiningWorkers.place() ==> self.all_left()
        &&& self.is_submitted() ==> self.has_workers() && self.all_left() && self.results.len() == 0
    }
}

proof fn lemma_course_keeps(state: SystemView, settings: Settings, event: RunEvent)
    requires
        state.is_kept(settings),
        state.can(settings, SystemStep::Course(event)),
    ensures
        state.course(settings, event).is_kept(settings),
{
    let after = state.course(settings, event);
    if state.stage is StartingWorkers {
        lemma_none_in_flight(after.workers);
        assert(state.workers =~= Seq::empty());
        assert(!state.is_submitted());
    }
    assert(after.is_kept(settings));
}

proof fn lemma_take_keeps(state: SystemView, settings: Settings, i: int)
    requires
        state.is_kept(settings),
        state.can(settings, SystemStep::Take(i)),
    ensures
        state.took(settings, i).is_kept(settings),
{
    let after = state.took(settings, i);
    let number = state.queue[0];
    let worker = WorkerView::Busy(FetchView::begun(number, settings.proxies));
    let done = numbers_of_look_ups(state.looked_up).to_multiset();
    assert(state.taken + state.queue =~= after.taken + after.queue);
    lemma_in_flight_changes(state.workers, i, worker);
    lemma_nothing();
    lemma_pushed(state.taken, number);
    assert(number_of(worker) =~= seq![number]);
    assert(after.taken.to_multiset() =~= done.add(in_flight(after.workers).to_multiset()));
    assert(!(state.workers[i] is Left));
    assert forall|k: int| 0 <= k < after.workers.len() && (#[trigger] after.workers[k]) is Left implies
        false by {
        assert(k != i);
        assert(state.workers[k] is Left);
    }
}

proof fn lemma_look_up_keeps(
    state: SystemView,
    settings: Settings,
    i: int,
    look_up: FetchView,
    event: FetchEventView,
)
    requires
        state.is_kept(settings),
        state.can(settings, SystemStep::LookUp(i, event)),
        state.workers[i] == WorkerView::Busy(look_up),
    ensures
        state.went_on(i, look_up, event).is_kept(settings),
{
    let after = state.went_on(i, look_up, event);
    let number = look_up.number;
    let done = numbers_of_look_ups(state.looked_up);
    assert(!(state.workers[i] is Left));
    assert forall|k: int| 0 <= k < after.workers.len() && (#[trigger] after.workers[k]) is Left implies
        after.is_closed() && after.queue.len() == 0 by {
        assert(k != i);
        assert(state.workers[k] is Left);
    }
    assert(number_of(state.workers[i]) =~= seq![number]);
    lemma_in_flight_changes(state.workers, i, after.workers[i]);
    match look_up.next(event).1 {
        FetchActionView::Finish(result) => {
            let found = results_of_look_ups(state.looked_up);
            lemma_nothing();
            lemma_pushed(done, number);
            assert(numbers_of_look_ups(after.looked_up) =~= done.push(number));
            assert(after.taken.to_multiset() =~= numbers_of_look_ups(
                after.looked_up,
            ).to_multiset().add(in_flight(after.workers).to_multiset()));
            assert(results_of_look_ups(after.looked_up) =~= found.push(result));
            assert(found.push(result).drop_last() =~= found);
            assert(forwarded(found.push(result)) =~= replies(after.arrivals) + after.results);
        },
        _ => {
            assert(number_of(after.workers[i]) =~= seq![number]);
            assert(in_flight(after.workers).to_multiset() =~= in_flight(
                state.workers,
            ).to_multiset()) by {
                assert forall|n: Seq<char>|
                    in_flight(after.workers).to_multiset().count(n) == in_flight(
                        state.workers,
                    ).to_multiset().count(n) by {
                    let one = seq![number].to_multiset();
                    assert(in_flight(after.workers).to_multiset().add(one).count(n) == in_flight(
                        state.workers,
                    ).to_multiset().add(one).count(n));
                }
            }
        },
    }
}

proof fn lemma_leave_keeps(state: SystemView, settings: Settings, i: int)
    requires
        state.is_kept(settings),
        state.can(settings, SystemStep::Leave(i)),
    ensures
        state.after(settings, SystemStep::Leave(i)).is_kept(settings),
{
    let after = state.after(settings, SystemStep::Leave(i));
    lemma_in_flight_changes(state.workers, i, WorkerView::Left);
    lemma_nothing();
    assert(in_flight(after.workers).to_multiset() == in_flight(state.workers).to_multiset());
}

proof fn lemma_arrival_keeps(state: SystemView, settings: Settings, step: SystemStep)
    requires
        state.is_kept(settings),
        state.can(settings, step),
        step is Deliver || step is Wait || step is Close,
    ensures
        state.after(settings, step).is_kept(settings),
{
    let after = state.after(settings, step);
    assert(after.arrivals.drop_last() =~= state.arrivals);
    assert(replies(after.arrivals) + after.results =~= replies(state.arrivals) + state.results);
}

proof fn lemma_steps_keep(settings: Settings, steps: Seq<SystemStep>)
    requires
        is_run(settings, steps),
    ensures
        state_after(settings, steps).is_kept(settings),
    decreases steps.len(),
{
    if steps.len() == 0 {
        let state = SystemView::begun();
        lemma_nothing();
        assert(numbers_of_look_ups(state.looked_up) =~= Seq::empty());
        assert(results_of_look_ups(state.looked_up) =~= Seq::empty());
        assert(state.queued =~= state.taken + state.queue);
        assert(forwarded(Seq::empty()) =~= replies(state.arrivals) + state.results);
    } else {
        let front = steps.drop_last();
        lemma_steps_keep(settings, front);
        let state = state_after(settings, front);
        match steps.last() {
            SystemStep::Course(event) => lemma_course_keeps(state, settings, event),
            SystemStep::Produce(event) => {
                let after = state.produced(event);
                assert(after.queued =~= after.taken + after.queue);
                assert(after.is_kept(settings));
            },
            SystemStep::Take(i) => lemma_take_keeps(state, settings, i),
            SystemStep::LookUp(i, event) => match state.workers[i] {
                WorkerView::Busy(look_up) => {
                    lemma_look_up_keeps(state, settings, i, look_up, event);
                },
                _ => {},
            },
            SystemStep::Leave(i) => lemma_leave_keeps(state, settings, i),
            step => lemma_arrival_keeps(state, settings, step),
        }
    }
}

/// A run that comes to its end, and whose submitter does too, loses nothing: the workers took
/// every number that was put into the queue, once and in order; every one of them was looked up,
/// once for each time that it was queued; and what was handed in, the last batch included, is the
/// rows that are due for the results of those look-ups. A run without workers looks nothing up.
pub proof fn law_a_whole_run_loses_nothing(settings: Settings, steps: Seq<SystemStep>)
    requires
        settings.workers > 0,
        is_run(settings, steps),
        state_after(settings, steps).stage is Over,
        state_after(settings, steps).is_submitted(),
    ensures
        ({
            let end = state_after(settings, steps);
            &&& end.taken == end.queued
            &&& numbers_of_look_ups(end.looked_up).to_multiset() == end.queued.to_multiset()
            &&& handed_in(Seq::empty(), events_of(end.arrivals)) == due_rows(
                results_of_look_ups(end.looked_up),
            )
        }),
{
    let end = state_after(settings, steps);
    lemma_steps_keep(settings, steps);
    assert(end.workers[0] is Left);
    assert(end.taken + end.queue =~= end.taken);
    lemma_none_in_flight(end.workers);
    lemma_nothing();
    assert(replies(end.arrivals) + end.results =~= replies(end.arrivals));
    law_a_run_hands_in_what_is_due(results_of_look_ups(end.looked_up), end.arrivals);
}

/// At every point of a run, ended or not, each number that was put into the queue is in one place
/// only: it still waits there, a worker looks it up, or it was looked up.
pub proof fn law_every_queued_number_is_somewhere(settings: Settings, steps: Seq<SystemStep>)
    requires
        is_run(settings, steps),
    ensures
        ({
            let state = state_after(settings, steps);
            &&& state.queued == state.taken + state.queue
            &&& state.taken.to_multiset() == numbers_of_look_ups(
                state.looked_up,
            ).to_multiset().add(in_flight(state.workers).to_multiset())
        }),
{
    lemma_steps_keep(settings, steps);
}

} // verus!
