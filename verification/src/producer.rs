//! Feeding the workers: which of the tracking numbers that come in are new, and when to wait.
//!
//! [`Producer`] decides and the caller acts: it performs the [`ProducerAction`] that it was handed
//! and reports back with a [`ProducerEvent`].

use vstd::hash_set::StringHashSet;
use vstd::prelude::*;

use crate::text::texts;

verus! {

/// How many tracking numbers are asked for at a time.
pub const ROUND: usize = 34;

/// For how many seconds to pause when there is nothing to do.
pub const PAUSE_SECONDS: u64 = 10;

/// How many numbers are remembered from one round to the next.
pub const MAX_SEEN: usize = 10000;

/// How many numbers may wait for the workers before more are asked for.
pub const MAX_QUEUED: usize = 500;

/// What the producer waits for.
#[derive(Clone, Copy, PartialEq, Eq, Structural, Debug)]
pub enum ProducerStage {
    /// Whether to go on.
    Poll,
    /// Tracking numbers.
    Numbers,
    /// The end of a pause after which it asks again.
    Empty,
    /// Whether a number was taken into the queue.
    Offer,
    /// How many numbers are queued.
    Queue,
    /// The end of a pause after which the queue is looked at again.
    Full,
    /// Nothing: it is over.
    Done,
}

/// What happened.
pub enum ProducerEvent {
    /// Whether the run is to stop.
    Polled { shutdown: bool },
    /// Tracking numbers came; none where asking failed.
    Fetched(Vec<String>),
    /// The pause is over.
    Woke,
    /// Whether the number was taken into the queue.
    Enqueued(bool),
    /// How many numbers are queued, and whether the run is to stop.
    Queue { queued: usize, shutdown: bool },
}

/// What to do next.
pub enum ProducerAction {
    /// See whether the run is to stop.
    Poll,
    /// Ask for that many tracking numbers.
    Fetch(usize),
    /// Pause for that many seconds.
    Sleep(u64),
    /// Put the number into the queue.
    Enqueue(String),
    /// See how many numbers are queued, and whether the run is to stop.
    CheckQueue,
    Stop,
}

/// The producer of tracking numbers.
pub struct Producer {
    /// The numbers that were put into the queue.
    seen: StringHashSet,
    /// The numbers of this round.
    numbers: Vec<String>,
    /// How many of them were looked at.
    looked_at: usize,
    stage: ProducerStage,
}

pub ghost struct ProducerView {
    pub seen: Set<Seq<char>>,
    pub numbers: Seq<Seq<char>>,
    pub looked_at: nat,
    pub stage: ProducerStage,
}

pub ghost enum ProducerEventView {
    Polled { shutdown: bool },
    Fetched(Seq<Seq<char>>),
    Woke,
    Enqueued(bool),
    Queue { queued: nat, shutdown: bool },
}

pub ghost enum ProducerActionView {
    Poll,
    Fetch(nat),
    Sleep(nat),
    Enqueue(Seq<char>),
    CheckQueue,
    Stop,
}

impl View for Producer {
    type V = ProducerView;

    closed spec fn view(&self) -> ProducerView {
        ProducerView {
            seen: self.seen@,
            numbers: texts(self.numbers@),
            looked_at: self.looked_at as nat,
            stage: self.stage,
        }
    }
}

impl View for ProducerEvent {
    type V = ProducerEventView;

    open spec fn view(&self) -> ProducerEventView {
        match self {
            ProducerEvent::Polled { shutdown } => ProducerEventView::Polled { shutdown: *shutdown },
            ProducerEvent::Fetched(numbers) => ProducerEventView::Fetched(texts(numbers@)),
            ProducerEvent::Woke => ProducerEventView::Woke,
            ProducerEvent::Enqueued(taken) => ProducerEventView::Enqueued(*taken),
            ProducerEvent::Queue { queued, shutdown } => ProducerEventView::Queue {
                queued: *queued as nat,
                shutdown: *shutdown,
            },
        }
    }
}

impl View for ProducerAction {
    type V = ProducerActionView;

    open spec fn view(&self) -> ProducerActionView {
        match self {
            ProducerAction::Poll => ProducerActionView::Poll,
            ProducerAction::Fetch(num) => ProducerActionView::Fetch(*num as nat),
            ProducerAction::Sleep(seconds) => ProducerActionView::Sleep(*seconds as nat),
            ProducerAction::Enqueue(number) => ProducerActionView::Enqueue(number@),
            ProducerAction::CheckQueue => ProducerActionView::CheckQueue,
            ProducerAction::Stop => ProducerActionView::Stop,
        }
    }
}

/// The position, from `from` on, of the first number that was not seen; the end where there is
/// none.
pub open spec fn first_new(numbers: Seq<Seq<char>>, from: nat, seen: Set<Seq<char>>) -> nat
    decreases numbers.len() - from,
{
    if from >= numbers.len() {
        numbers.len()
    } else if seen.contains(numbers[from as int]) {
        first_new(numbers, from + 1, seen)
    } else {
        from
    }
}

impl ProducerView {
    /// The producer at its beginning.
    pub open spec fn begun() -> ProducerView {
        ProducerView {
            seen: Set::empty(),
            numbers: Seq::empty(),
            looked_at: 0,
            stage: ProducerStage::Poll,
        }
    }

    /// What holds of the producer between two events.
    pub open spec fn wf(self) -> bool {
        &&& self.seen.finite()
        &&& self.stage !is Offer && self.stage !is Done ==> self.seen.len() <= MAX_SEEN
        &&& self.stage is Offer ==> self.looked_at < self.numbers.len() && !self.seen.contains(
            self.numbers[self.looked_at as int],
        )
    }

    /// Whether the event answers what the producer waits for.
    pub open spec fn expects(self, event: ProducerEventView) -> bool {
        match event {
            ProducerEventView::Polled { shutdown } => self.stage is Poll,
            ProducerEventView::Fetched(_) => self.stage is Numbers,
            ProducerEventView::Woke => self.stage is Empty || self.stage is Full,
            ProducerEventView::Enqueued(_) => self.stage is Offer,
            ProducerEventView::Queue { queued, shutdown } => self.stage is Queue,
        }
    }

    pub open spec fn at(self, stage: ProducerStage) -> ProducerView {
        ProducerView { stage, ..self }
    }

    /// Offers the next number of the round that was not seen. Where none is left, what was seen
    /// is forgotten if it is too much, and the queue is looked at.
    pub open spec fn offered(self, from: nat) -> (ProducerView, ProducerActionView) {
        let next = first_new(self.numbers, from, self.seen);
        let moved = ProducerView { looked_at: next, ..self };
        if next < self.numbers.len() {
            (
                moved.at(ProducerStage::Offer),
                ProducerActionView::Enqueue(self.numbers[next as int]),
            )
        } else {
            (
                ProducerView {
                    seen: if self.seen.len() > MAX_SEEN {
                        Set::empty()
                    } else {
                        self.seen
                    },
                    ..moved
                }.at(ProducerStage::Queue),
                ProducerActionView::CheckQueue,
            )
        }
    }

    /// The state and the action that follow an event.
    pub open spec fn next(self, event: ProducerEventView) -> (ProducerView, ProducerActionView) {
        match event {
            ProducerEventView::Polled { shutdown } => if shutdown {
                (self.at(ProducerStage::Done), ProducerActionView::Stop)
            } else {
                (self.at(ProducerStage::Numbers), ProducerActionView::Fetch(ROUND as nat))
            },
            ProducerEventView::Fetched(numbers) => if numbers.len() == 0 {
                (
                    ProducerView { numbers, looked_at: 0, ..self }.at(ProducerStage::Empty),
                    ProducerActionView::Sleep(PAUSE_SECONDS as nat),
                )
            } else {
                ProducerView { numbers, looked_at: 0, ..self }.offered(0)
            },
            ProducerEventView::Woke => if self.stage is Full {
                (self.at(ProducerStage::Queue), ProducerActionView::CheckQueue)
            } else {
                (self.at(ProducerStage::Poll), ProducerActionView::Poll)
            },
            ProducerEventView::Enqueued(taken) => if taken {
                ProducerView {
                    seen: self.seen.insert(self.numbers[self.looked_at as int]),
                    ..self
                }.offered(self.looked_at + 1)
            } else {
                (self.at(ProducerStage::Done), ProducerActionView::Stop)
            },
            ProducerEventView::Queue { queued, shutdown } => if queued > MAX_QUEUED && !shutdown {
                (
                    self.at(ProducerStage::Full),
                    ProducerActionView::Sleep(PAUSE_SECONDS as nat),
                )
            } else {
                (self.at(ProducerStage::Poll), ProducerActionView::Poll)
            },
        }
    }
}

impl Producer {
    /// Starts the producer.
    pub fn start() -> (r: (Producer, ProducerAction))
        ensures
            r.0@ == ProducerView::begun(),
            r.0@.wf(),
            r.1@ is Poll,
    {
        let producer = Producer {
            seen: StringHashSet::new(),
            numbers: Vec::new(),
            looked_at: 0,
            stage: ProducerStage::Poll,
        };
        assert(producer@.numbers =~= Seq::empty());
        (producer, ProducerAction::Poll)
    }

    /// What it waits for.
    pub fn stage(&self) -> (r: ProducerStage)
        ensures
            r == self@.stage,
    {
        self.stage
    }

    /// How many numbers it remembers.
    pub fn remembered(&self) -> (r: usize)
        ensures
            r == self@.seen.len(),
    {
        self.seen.len()
    }

    fn offer(&mut self, from: usize) -> (r: ProducerAction)
        requires
            old(self)@.seen.finite(),
            from <= old(self)@.numbers.len(),
        ensures
            (final(self)@, r@) == old(self)@.offered(from as nat),
            final(self)@.wf(),
    {
        let ghost numbers = self@.numbers;
        let ghost seen = self@.seen;
        let n: usize = self.numbers.len();
        let mut i: usize = from;
        while i < n && self.seen.contains(self.numbers[i].as_str())
            invariant
                from <= i <= n == numbers.len(),
                *self == *old(self),
                self@.numbers == numbers,
                self@.seen == seen,
                n == self.numbers@.len(),
                first_new(numbers, from as nat, seen) == first_new(numbers, i as nat, seen),
            decreases n - i,
        {
            assert(numbers[i as int] == self.numbers@[i as int]@);
            i = i + 1;
        }
        assert(i < n ==> numbers[i as int] == self.numbers@[i as int]@);
        assert(first_new(numbers, i as nat, seen) == i);
        self.looked_at = i;
        if i < n {
            self.stage = ProducerStage::Offer;
            ProducerAction::Enqueue(self.numbers[i].clone())
        } else {
            if self.seen.len() > MAX_SEEN {
                self.seen.clear();
            }
            self.stage = ProducerStage::Queue;
            ProducerAction::CheckQueue
        }
    }

    /// Takes in what happened, and says what to do next.
    pub fn step(&mut self, event: ProducerEvent) -> (r: ProducerAction)
        requires
            old(self)@.wf(),
            old(self)@.expects(event@),
        ensures
            (final(self)@, r@) == old(self)@.next(event@),
            final(self)@.wf(),
    {
        match event {
            ProducerEvent::Polled { shutdown } => if shutdown {
                self.stage = ProducerStage::Done;
                ProducerAction::Stop
            } else {
                self.stage = ProducerStage::Numbers;
                ProducerAction::Fetch(ROUND)
            },
            ProducerEvent::Fetched(numbers) => {
                self.numbers = numbers;
                self.looked_at = 0;
                if self.numbers.len() == 0 {
                    self.stage = ProducerStage::Empty;
                    ProducerAction::Sleep(PAUSE_SECONDS)
                } else {
                    self.offer(0)
                }
            },
            ProducerEvent::Woke => match self.stage {
                ProducerStage::Full => {
                    self.stage = ProducerStage::Queue;
                    ProducerAction::CheckQueue
                },
                _ => {
                    self.stage = ProducerStage::Poll;
                    ProducerAction::Poll
                },
            },
            ProducerEvent::Enqueued(taken) => if taken {
                let n: usize = self.numbers.len();
                assert(self.looked_at < n);
                let number = self.numbers[self.looked_at].clone();
                self.seen.insert(number);
                let from: usize = self.looked_at + 1;
                self.offer(from)
            } else {
                self.stage = ProducerStage::Done;
                ProducerAction::Stop
            },
            ProducerEvent::Queue { queued, shutdown } => if queued > MAX_QUEUED && !shutdown {
                self.stage = ProducerStage::Full;
                ProducerAction::Sleep(PAUSE_SECONDS)
            } else {
                self.stage = ProducerStage::Poll;
                ProducerAction::Poll
            },
        }
    }
}

/// The numbers that are new: those that were not seen, in the order in which they first stand in
/// the list.
pub open spec fn new_numbers(numbers: Seq<Seq<char>>, seen: Set<Seq<char>>) -> Seq<Seq<char>>
    decreases numbers.len(),
{
    if numbers.len() == 0 {
        Seq::empty()
    } else if seen.contains(numbers[0]) {
        new_numbers(numbers.skip(1), seen)
    } else {
        seq![numbers[0]] + new_numbers(numbers.skip(1), seen.insert(numbers[0]))
    }
}

/// The first number that was not seen is found between where the look starts and the end, it was
/// not seen, and what it passes over is not new.
pub proof fn lemma_first_new(numbers: Seq<Seq<char>>, from: nat, seen: Set<Seq<char>>)
    requires
        from <= numbers.len(),
    ensures
        from <= first_new(numbers, from, seen) <= numbers.len(),
        new_numbers(numbers.skip(from as int), seen) == new_numbers(
            numbers.skip(first_new(numbers, from, seen) as int),
            seen,
        ),
        first_new(numbers, from, seen) < numbers.len() ==> !seen.contains(
            numbers[first_new(numbers, from, seen) as int],
        ),
    decreases numbers.len() - from,
{
    if from < numbers.len() && seen.contains(numbers[from as int]) {
        lemma_first_new(numbers, from + 1, seen);
        assert(numbers.skip(from as int).skip(1) =~= numbers.skip((from + 1) as int));
    }
}

/// The numbers that the producer goes on to put into the queue, where each is taken.
pub open spec fn still_queued(state: ProducerView) -> Seq<Seq<char>>
    decreases state.numbers.len() - state.looked_at,
{
    if state.stage is Offer && state.looked_at < state.numbers.len() {
        proof {
            lemma_first_new(
                state.numbers,
                state.looked_at + 1,
                state.seen.insert(state.numbers[state.looked_at as int]),
            );
        }
        seq![state.numbers[state.looked_at as int]] + still_queued(
            state.next(ProducerEventView::Enqueued(true)).0,
        )
    } else {
        Seq::empty()
    }
}

proof fn lemma_offered(state: ProducerView, from: nat)
    requires
        from <= state.numbers.len(),
    ensures
        still_queued(state.offered(from).0) == new_numbers(
            state.numbers.skip(from as int),
            state.seen,
        ),
    decreases state.numbers.len() - from,
{
    let next = first_new(state.numbers, from, state.seen);
    lemma_first_new(state.numbers, from, state.seen);
    let rest = state.numbers.skip(next as int);
    if next < state.numbers.len() {
        let number = state.numbers[next as int];
        let offer = state.offered(from).0;
        let after = ProducerView { seen: state.seen.insert(number), ..offer };
        lemma_offered(after, next + 1);
        assert(rest.skip(1) =~= state.numbers.skip((next + 1) as int));
        assert(rest[0] == number);
        assert(offer.next(ProducerEventView::Enqueued(true)).0 == after.offered(next + 1).0);
    } else {
        assert(rest =~= Seq::empty());
    }
}

/// A round puts into the queue what is new in it, in the order in which it came, and nothing
/// else.
pub proof fn law_rounds_queue_what_is_new(state: ProducerView, numbers: Seq<Seq<char>>)
    requires
        state.wf(),
        state.stage is Numbers,
    ensures
        still_queued(state.next(ProducerEventView::Fetched(numbers)).0) == new_numbers(
            numbers,
            state.seen,
        ),
{
    if numbers.len() > 0 {
        lemma_offered(ProducerView { numbers, looked_at: 0, ..state }, 0);
        assert(numbers.skip(0) =~= numbers);
    }
}

/// What is new was not seen and is listed once, and every number of a list was seen or is new.
pub proof fn law_new_numbers_are_unseen(numbers: Seq<Seq<char>>, seen: Set<Seq<char>>)
    ensures
        new_numbers(numbers, seen).no_duplicates(),
        forall|n: Seq<char>| #[trigger]
            new_numbers(numbers, seen).contains(n) ==> !seen.contains(n) && numbers.contains(n),
        forall|n: Seq<char>| #[trigger]
            numbers.contains(n) ==> seen.contains(n) || new_numbers(numbers, seen).contains(n),
    decreases numbers.len(),
{
    if numbers.len() > 0 {
        let first = numbers[0];
        let rest = numbers.skip(1);
        let new = new_numbers(numbers, seen);
        assert(numbers =~= seq![first] + rest);
        assert forall|n: Seq<char>| rest.contains(n) implies numbers.contains(n) by {
            let k = choose|k: int| 0 <= k < rest.len() && rest[k] == n;
            assert(numbers[k + 1] == n);
        }
        assert(forall|n: Seq<char>| numbers.contains(n) ==> n == first || rest.contains(n)) by {
            assert forall|n: Seq<char>| numbers.contains(n) implies n == first || rest.contains(n) by {
                let k = choose|k: int| 0 <= k < numbers.len() && numbers[k] == n;
                if k > 0 {
                    assert(rest[k - 1] == n);
                }
            }
        }
        assert(numbers.contains(first));
        if seen.contains(first) {
            law_new_numbers_are_unseen(rest, seen);
        } else {
            let now = seen.insert(first);
            law_new_numbers_are_unseen(rest, now);
            let later = new_numbers(rest, now);
            assert(new =~= seq![first] + later);
            assert(!later.contains(first));
            assert(new[0] == first);
            assert(forall|k: int| 0 <= k < later.len() ==> new[k + 1] == later[k]);
            assert forall|i: int, j: int| 0 <= i < new.len() && 0 <= j < new.len() && i != j implies new[i]
                != new[j] by {
                if i == 0 {
                    assert(new[j] == later[j - 1]);
                    assert(later.contains(later[j - 1]));
                } else if j == 0 {
                    assert(new[i] == later[i - 1]);
                    assert(later.contains(later[i - 1]));
                } else {
                    assert(new[i] == later[i - 1] && new[j] == later[j - 1]);
                }
            }
            assert forall|n: Seq<char>| #[trigger] new.contains(n) implies !seen.contains(n)
                && numbers.contains(n) by {
                let k = choose|k: int| 0 <= k < new.len() && new[k] == n;
                if k > 0 {
                    assert(later[k - 1] == n);
                    assert(later.contains(n));
                }
            }
            assert forall|n: Seq<char>| #[trigger] numbers.contains(n) implies seen.contains(n)
                || new.contains(n) by {
                if n != first && !seen.contains(n) {
                    assert(later.contains(n));
                    let k = choose|k: int| 0 <= k < later.len() && later[k] == n;
                    assert(new[k + 1] == n);
                }
            }
        }
    }
}

/// A number is put into the queue only if it is not remembered; once it was taken it is
/// remembered, unless so many are that all are forgotten at the end of the round.
pub proof fn law_no_remembered_number_is_queued(state: ProducerView, event: ProducerEventView)
    requires
        state.wf(),
        state.expects(event),
    ensures
        state.next(event).0.wf(),
        state.next(event).1 matches ProducerActionView::Enqueue(n) ==> !state.next(
            event,
        ).0.seen.contains(n),
        event == ProducerEventView::Enqueued(true) ==> state.next(event).0.seen.contains(
            state.numbers[state.looked_at as int],
        ) || (state.seen.len() >= MAX_SEEN && state.next(event).0.seen.len() == 0),
{
    match event {
        ProducerEventView::Fetched(numbers) => {
            lemma_first_new(numbers, 0, state.seen);
        },
        ProducerEventView::Enqueued(taken) => {
            let number = state.numbers[state.looked_at as int];
            let seen = state.seen.insert(number);
            lemma_first_new(state.numbers, state.looked_at + 1, seen);
        },
        _ => {},
    }
}

/// The producer begins with nothing remembered. It asks for thirty-four numbers at a time, unless
/// the run is to stop; then it stops. Neither changes what it remembers.
pub proof fn law_numbers_are_asked_for_until_the_run_stops(
    begun: (Producer, ProducerAction),
    producer: &mut Producer,
    shutdown: bool,
    r: ProducerAction,
)
    requires
        call_ensures(Producer::start, (), begun),
        call_ensures(Producer::step, (producer, ProducerEvent::Polled { shutdown }), r),
        old(producer)@.stage is Poll,
    ensures
        begun.0@.seen == Set::<Seq<char>>::empty(),
        begun.0@.stage is Poll && begun.1 is Poll,
        shutdown ==> r is Stop && final(producer)@.stage is Done,
        !shutdown ==> r == ProducerAction::Fetch(34) && final(producer)@.stage is Numbers,
        final(producer)@.seen == old(producer)@.seen,
{
}

/// The number is handed out to be queued which comes first among those of the round, from a
/// position on, that are not remembered; where all are, the queue is looked at, and what is
/// remembered is forgotten if it is more than ten thousand numbers.
pub open spec fn hands_out_the_next(
    remembered: Set<Seq<char>>,
    numbers: Seq<Seq<char>>,
    from: int,
    after: ProducerView,
    action: ProducerAction,
) -> bool {
    &&& after.numbers == numbers
    &&& action is Enqueue || action is CheckQueue
    &&& action is Enqueue ==> {
        let i = after.looked_at as int;
        &&& from <= i < numbers.len()
        &&& action->Enqueue_0@ == numbers[i]
        &&& !remembered.contains(numbers[i])
        &&& forall|k: int| from <= k < i ==> remembered.contains(#[trigger] numbers[k])
        &&& after.seen == remembered
        &&& after.stage is Offer
    }
    &&& action is CheckQueue ==> {
        &&& forall|k: int|
            from <= k < numbers.len() ==> remembered.contains(#[trigger] numbers[k])
        &&& after.seen == (if remembered.len() > 10000 {
            Set::<Seq<char>>::empty()
        } else {
            remembered
        })
        &&& after.stage is Queue
    }
}

proof fn lemma_first_new_passes_over(numbers: Seq<Seq<char>>, from: nat, seen: Set<Seq<char>>)
    requires
        from <= numbers.len(),
    ensures
        forall|k: int|
            from <= k < first_new(numbers, from, seen) ==> seen.contains(#[trigger] numbers[k]),
    decreases numbers.len() - from,
{
    if from < numbers.len() && seen.contains(numbers[from as int]) {
        lemma_first_new_passes_over(numbers, from + 1, seen);
    }
}

proof fn lemma_hands_out(state: ProducerView, from: nat, action: ProducerAction)
    requires
        from <= state.numbers.len(),
        action@ == state.offered(from).1,
    ensures
        hands_out_the_next(
            state.seen,
            state.numbers,
            from as int,
            state.offered(from).0,
            action,
        ),
{
    lemma_first_new(state.numbers, from, state.seen);
    lemma_first_new_passes_over(state.numbers, from, state.seen);
}

/// Of the numbers that came, the first that is not remembered is handed out to be queued. Where
/// none came there is a pause of ten seconds, and what is remembered stays.
pub proof fn law_the_first_new_number_is_queued(
    producer: &mut Producer,
    numbers: Vec<String>,
    r: ProducerAction,
)
    requires
        call_ensures(Producer::step, (producer, ProducerEvent::Fetched(numbers)), r),
        old(producer)@.stage is Numbers,
    ensures
        numbers@.len() == 0 ==> r == ProducerAction::Sleep(10) && final(producer)@.stage is Empty
            && final(producer)@.seen == old(producer)@.seen,
        numbers@.len() > 0 ==> hands_out_the_next(
            old(producer)@.seen,
            texts(numbers@),
            0,
            final(producer)@,
            r,
        ),
{
    let state = ProducerView { numbers: texts(numbers@), looked_at: 0, ..old(producer)@ };
    if numbers@.len() > 0 {
        lemma_hands_out(state, 0, r);
    }
}

/// A number that was taken into the queue is remembered, and of those behind it the next that is
/// not remembered is handed out. Where the queue takes no more, the producer stops.
pub proof fn law_queued_numbers_are_remembered(
    producer: &mut Producer,
    taken: bool,
    r: ProducerAction,
)
    requires
        call_ensures(Producer::step, (producer, ProducerEvent::Enqueued(taken)), r),
        old(producer)@.stage is Offer,
        old(producer)@.looked_at < old(producer)@.numbers.len(),
    ensures
        taken ==> hands_out_the_next(
            old(producer)@.seen.insert(old(producer)@.numbers[old(producer)@.looked_at as int]),
            old(producer)@.numbers,
            (old(producer)@.looked_at + 1) as int,
            final(producer)@,
            r,
        ),
        !taken ==> r is Stop && final(producer)@.stage is Done && final(producer)@.seen == old(producer)@.seen,
{
    if taken {
        let before = old(producer)@;
        let state = ProducerView {
            seen: before.seen.insert(before.numbers[before.looked_at as int]),
            ..before
        };
        lemma_hands_out(state, before.looked_at + 1, r);
    }
}

/// While more than five hundred numbers are queued and the run goes on, the queue is looked at every
/// ten seconds; else the next round begins. After a pause for want of numbers the next round begins
/// too. None of this changes what is remembered.
pub proof fn law_pauses_forget_nothing(
    producer: &mut Producer,
    event: ProducerEvent,
    r: ProducerAction,
)
    requires
        call_ensures(Producer::step, (producer, event), r),
        (event is Queue && old(producer)@.stage is Queue) || (event is Woke && (old(producer)@.stage is Empty || old(producer)@.stage is Full)),
    ensures
        final(producer)@.seen == old(producer)@.seen,
        event is Queue && event->queued > 500 && !event->Queue_shutdown ==> r
            == ProducerAction::Sleep(10) && final(producer)@.stage is Full,
        event is Queue && (event->queued <= 500 || event->Queue_shutdown) ==> r is Poll && final(producer)@.stage is Poll,
        event is Woke && old(producer)@.stage is Full ==> r is CheckQueue && final(producer)@.stage
            is Queue,
        event is Woke && old(producer)@.stage is Empty ==> r is Poll && final(producer)@.stage is Poll,
{
}

/// The producer takes in each event of the kind that it waits for.
pub proof fn law_the_producer_takes_in_what_it_waits_for(
    state: ProducerView,
    shutdown: bool,
    numbers: Seq<Seq<char>>,
    taken: bool,
    queued: nat,
)
    ensures
        state.stage is Poll ==> state.expects(ProducerEventView::Polled { shutdown }),
        state.stage is Numbers ==> state.expects(ProducerEventView::Fetched(numbers)),
        state.stage is Empty || state.stage is Full ==> state.expects(ProducerEventView::Woke),
        state.stage is Offer ==> state.expects(ProducerEventView::Enqueued(taken)),
        state.stage is Queue ==> state.expects(ProducerEventView::Queue { queued, shutdown }),
{
}

/// The producer after events, from the beginning, and what it was last told to do.
pub open spec fn producer_after(events: Seq<ProducerEventView>) -> (
    ProducerView,
    ProducerActionView,
)
    decreases events.len(),
{
    if events.len() == 0 {
        (ProducerView::begun(), ProducerActionView::Poll)
    } else {
        producer_after(events.drop_last()).0.next(events.last())
    }
}

/// Whether the events are ones that the producer waits for, each when it comes.
pub open spec fn are_expected(events: Seq<ProducerEventView>) -> bool
    decreases events.len(),
{
    events.len() == 0 || (are_expected(events.drop_last()) && producer_after(
        events.drop_last(),
    ).0.expects(events.last()))
}

/// At the last of the events a round ended with more than ten thousand numbers remembered.
pub open spec fn forgets_at_the_end_of(events: Seq<ProducerEventView>) -> bool {
    let before = producer_after(events.drop_last()).0;
    let remembered = if events.last() == ProducerEventView::Enqueued(true) {
        before.seen.insert(before.numbers[before.looked_at as int])
    } else {
        before.seen
    };
    &&& events.len() > 0
    &&& events.last() is Fetched || events.last() == ProducerEventView::Enqueued(true)
    &&& producer_after(events).1 is CheckQueue
    &&& remembered.len() > 10000
}

proof fn lemma_the_producer_stays_well_formed(events: Seq<ProducerEventView>)
    requires
        are_expected(events),
    ensures
        producer_after(events).0.wf(),
        producer_after(events).0.stage is Offer ==> producer_after(events).1
            == ProducerActionView::Enqueue(
            producer_after(events).0.numbers[producer_after(events).0.looked_at as int],
        ),
        producer_after(events).1 is Enqueue ==> producer_after(events).0.stage is Offer,
    decreases events.len(),
{
    if events.len() > 0 {
        let front = events.drop_last();
        lemma_the_producer_stays_well_formed(front);
        law_no_remembered_number_is_queued(producer_after(front).0, events.last());
    }
}

/// In one step nothing is forgotten, unless a round ends with more than ten thousand remembered.
pub proof fn law_nothing_is_forgotten_in_a_round(events: Seq<ProducerEventView>)
    requires
        are_expected(events),
        events.len() > 0,
        !forgets_at_the_end_of(events),
    ensures
        producer_after(events.drop_last()).0.seen.subset_of(producer_after(events).0.seen),
        events.last() == ProducerEventView::Enqueued(true) ==> producer_after(
            events.drop_last(),
        ).1 is Enqueue && producer_after(events).0.seen.contains(
            producer_after(events.drop_last()).1->Enqueue_0,
        ),
{
    lemma_the_producer_stays_well_formed(events.drop_last());
}

/// A number that was taken into the queue stays remembered, and is not handed out to be queued
/// again, however many rounds, pauses and looks at the queue follow, unless a round has ended since
/// with more than ten thousand remembered.
pub proof fn law_no_number_is_queued_twice(
    events: Seq<ProducerEventView>,
    i: int,
    number: Seq<char>,
)
    requires
        are_expected(events),
        0 <= i < events.len(),
        events[i] == ProducerEventView::Enqueued(true),
        producer_after(events.take(i)).1 == ProducerActionView::Enqueue(number),
        forall|k: int|
            i < k <= events.len() ==> !forgets_at_the_end_of(#[trigger] events.take(k)),
    ensures
        producer_after(events).0.seen.contains(number),
        producer_after(events).1 != ProducerActionView::Enqueue(number),
    decreases events.len(),
{
    let front = events.drop_last();
    assert(events.take(events.len() as int) =~= events);
    assert(!forgets_at_the_end_of(events.take(events.len() as int)));
    law_nothing_is_forgotten_in_a_round(events);
    lemma_the_producer_stays_well_formed(events);
    if i == events.len() - 1 {
        assert(events.take(i) =~= front);
    } else {
        assert(front.take(i) =~= events.take(i));
        assert forall|k: int| i < k <= front.len() implies !forgets_at_the_end_of(
            #[trigger] front.take(k),
        ) by {
            assert(front.take(k) =~= events.take(k));
        }
        law_no_number_is_queued_twice(front, i, number);
    }
}

} // verus!
