//! Gathering rows into batches: when a batch is handed in.

use vstd::prelude::*;

use crate::json::{Json, JsonView};
use crate::numbers::row_texts;
use crate::reply::{parse_danhao_json, reply_row};
use crate::text::texts;

verus! {

/// How many rows make a full batch.
pub const FULL_BATCH: usize = 30;

/// For how many seconds the submitter waits for the next reply before it hands in what it has.
pub const IDLE_SECONDS: u64 = 8;

/// The rows that wait to be handed in.
pub struct Submitter {
    batch: Vec<Vec<String>>,
    /// How many replies were taken in.
    total: usize,
}

/// What happened.
pub enum SubmitterEvent {
    /// A reply came, with the row that it has, if any.
    Received(Option<Vec<String>>),
    /// No reply came in time.
    Idle,
    /// No more replies will come.
    Closed,
}

/// What to do next.
pub struct SubmitterStep {
    /// The batch to hand in, if any.
    pub submit: Option<Vec<Vec<String>>>,
    /// Whether that was all.
    pub stop: bool,
}

/// A row, as its texts.
pub type RowView = Seq<Seq<char>>;

pub ghost struct SubmitterView {
    /// The rows that wait, in order.
    pub waiting: Seq<RowView>,
    /// How many replies were taken in.
    pub total: nat,
}

pub ghost enum SubmitterEventView {
    Received(Option<RowView>),
    Idle,
    Closed,
}

/// What is handed in, if anything, and whether that was all.
pub ghost struct StepView {
    pub submit: Option<Seq<RowView>>,
    pub stop: bool,
}

impl View for Submitter {
    type V = SubmitterView;

    closed spec fn view(&self) -> SubmitterView {
        SubmitterView { waiting: row_texts(self.batch@), total: self.total as nat }
    }
}

impl View for SubmitterEvent {
    type V = SubmitterEventView;

    open spec fn view(&self) -> SubmitterEventView {
        match self {
            SubmitterEvent::Received(row) => SubmitterEventView::Received(
                match row {
                    Some(fields) => Some(texts(fields@)),
                    None => None,
                },
            ),
            SubmitterEvent::Idle => SubmitterEventView::Idle,
            SubmitterEvent::Closed => SubmitterEventView::Closed,
        }
    }
}

impl View for SubmitterStep {
    type V = StepView;

    open spec fn view(&self) -> StepView {
        StepView {
            submit: match self.submit {
                Some(rows) => Some(row_texts(rows@)),
                None => None,
            },
            stop: self.stop,
        }
    }
}

/// What the arrival of a reply is to the submitter.
pub open spec fn reply_event(reply: JsonView) -> SubmitterEventView {
    SubmitterEventView::Received(reply_row(reply))
}

/// What the arrival of a reply is to the submitter: the row of the reply came, if it has one.
pub fn received_reply(result: &Json) -> (r: SubmitterEvent)
    ensures
        r@ == reply_event(result@),
{
    SubmitterEvent::Received(parse_danhao_json(result))
}

/// The rows of an event: one, or none.
pub open spec fn rows_of(event: SubmitterEventView) -> Seq<RowView> {
    match event {
        SubmitterEventView::Received(Some(row)) => seq![row],
        _ => Seq::empty(),
    }
}

/// Whether the rows that wait are handed in at an event: when they make a full batch, and when
/// no reply comes in time or ever again.
pub open spec fn is_due(rows: Seq<RowView>, event: SubmitterEventView) -> bool {
    match event {
        SubmitterEventView::Received(_) => rows.len() >= FULL_BATCH,
        _ => rows.len() > 0,
    }
}

/// The rows that wait after an event, and what is handed in at it.
pub open spec fn next(waiting: Seq<RowView>, event: SubmitterEventView) -> (
    Seq<RowView>,
    StepView,
) {
    let rows = waiting + rows_of(event);
    let stop = event is Closed;
    if is_due(rows, event) {
        (Seq::empty(), StepView { submit: Some(rows), stop })
    } else {
        (rows, StepView { submit: None, stop })
    }
}

impl Submitter {
    /// Nothing waits.
    pub fn new() -> (r: Submitter)
        ensures
            r@ == (SubmitterView { waiting: Seq::empty(), total: 0 }),
    {
        let submitter = Submitter { batch: Vec::new(), total: 0 };
        assert(submitter@.waiting =~= Seq::empty());
        submitter
    }

    /// How many replies were taken in.
    pub fn total(&self) -> (r: usize)
        ensures
            r == self@.total,
    {
        self.total
    }

    /// Hands the rows that wait out.
    fn flush(&mut self) -> (r: Vec<Vec<String>>)
        ensures
            row_texts(r@) == old(self)@.waiting,
            final(self)@.waiting =~= Seq::<RowView>::empty(),
            final(self)@.total == old(self)@.total,
    {
        let mut rows: Vec<Vec<String>> = Vec::new();
        std::mem::swap(&mut rows, &mut self.batch);
        rows
    }

    /// Takes in what happened, and says what to do next.
    pub fn step(&mut self, event: SubmitterEvent) -> (r: SubmitterStep)
        requires
            event is Received ==> old(self)@.total < usize::MAX,
        ensures
            (final(self)@.waiting, r@) == next(old(self)@.waiting, event@),
            final(self)@.total == old(self)@.total + (if event is Received {
                1int
            } else {
                0int
            }),
    {
        let ghost rows = old(self)@.waiting + rows_of(event@);
        match event {
            SubmitterEvent::Received(row) => {
                match row {
                    Some(fields) => {
                        self.batch.push(fields);
                    },
                    None => {},
                }
                assert(self@.waiting =~= rows);
                self.total = self.total + 1;
                if self.batch.len() >= FULL_BATCH {
                    SubmitterStep { submit: Some(self.flush()), stop: false }
                } else {
                    SubmitterStep { submit: None, stop: false }
                }
            },
            SubmitterEvent::Idle => {
                assert(self@.waiting =~= rows);
                if self.batch.len() > 0 {
                    SubmitterStep { submit: Some(self.flush()), stop: false }
                } else {
                    SubmitterStep { submit: None, stop: false }
                }
            },
            SubmitterEvent::Closed => {
                assert(self@.waiting =~= rows);
                if self.batch.len() > 0 {
                    SubmitterStep { submit: Some(self.flush()), stop: true }
                } else {
                    SubmitterStep { submit: None, stop: true }
                }
            },
        }
    }
}

/// The rows that a run of events brings, in order.
pub open spec fn received(events: Seq<SubmitterEventView>) -> Seq<RowView>
    decreases events.len(),
{
    if events.len() == 0 {
        Seq::empty()
    } else {
        received(events.drop_last()) + rows_of(events.last())
    }
}

/// The rows that wait after a run of events.
pub open spec fn waiting_after(waiting: Seq<RowView>, events: Seq<SubmitterEventView>) -> Seq<
    RowView,
>
    decreases events.len(),
{
    if events.len() == 0 {
        waiting
    } else {
        next(waiting_after(waiting, events.drop_last()), events.last()).0
    }
}

/// The rows that are handed in over a run of events, in order.
pub open spec fn handed_in(waiting: Seq<RowView>, events: Seq<SubmitterEventView>) -> Seq<RowView>
    decreases events.len(),
{
    if events.len() == 0 {
        Seq::empty()
    } else {
        let before = handed_in(waiting, events.drop_last());
        match next(waiting_after(waiting, events.drop_last()), events.last()).1.submit {
            Some(rows) => before + rows,
            None => before,
        }
    }
}

/// No row is lost, handed in twice or out of turn: what was handed in, followed by what still
/// waits, is what waited at first followed by what came.
pub proof fn law_no_row_is_lost(waiting: Seq<RowView>, events: Seq<SubmitterEventView>)
    ensures
        handed_in(waiting, events) + waiting_after(waiting, events) == waiting + received(events),
    decreases events.len(),
{
    if events.len() > 0 {
        let front = events.drop_last();
        law_no_row_is_lost(waiting, front);
        let before = waiting_after(waiting, front);
        let new = rows_of(events.last());
        let handed = handed_in(waiting, front);
        assert((handed + before) + new =~= handed + (before + new));
        assert((waiting + received(front)) + new =~= waiting + (received(front) + new));
    }
    assert(handed_in(waiting, events) + waiting_after(waiting, events) =~= waiting + received(
        events,
    ));
}

/// Fewer rows wait than make a full batch, and a batch that is handed in is never empty and never
/// more than full; nothing waits once no reply came in time or none will come.
pub proof fn law_batches_are_bounded(waiting: Seq<RowView>, event: SubmitterEventView)
    requires
        waiting.len() < FULL_BATCH,
    ensures
        next(waiting, event).0.len() < FULL_BATCH,
        next(waiting, event).1.submit matches Some(rows) ==> 0 < rows.len() <= FULL_BATCH,
        event !is Received ==> next(waiting, event).0.len() == 0,
{
}

/// Nothing waits at first. A row that came waits behind those that came before it, as it is; with
/// the thirtieth all of them are handed in, in the order in which they came, and nothing waits. A
/// reply without a row changes nothing of what waits.
pub proof fn law_thirty_rows_make_a_batch(
    begun: Submitter,
    submitter: &mut Submitter,
    row: Option<Vec<String>>,
    r: SubmitterStep,
)
    requires
        call_ensures(Submitter::new, (), begun),
        call_ensures(Submitter::step, (submitter, SubmitterEvent::Received(row)), r),
        old(submitter)@.waiting.len() < 30,
    ensures
        begun@.waiting.len() == 0 && begun@.total == 0,
        final(submitter)@.total == old(submitter)@.total + 1,
        !r.stop,
        row is None ==> r.submit is None && final(submitter)@.waiting == old(submitter)@.waiting,
        row is Some && old(submitter)@.waiting.len() < 29 ==> r.submit is None && final(submitter)@.waiting == old(submitter)@.waiting.push(texts(row->0@)),
        row is Some && old(submitter)@.waiting.len() == 29 ==> {
            &&& r.submit is Some && r.submit->0@.len() == 30
            &&& forall|i: int|
                0 <= i < 29 ==> texts((#[trigger] r.submit->0@[i])@) == old(submitter)@.waiting[i]
            &&& texts(r.submit->0@[29]@) == texts(row->0@)
            &&& final(submitter)@.waiting.len() == 0
        },
{
    let waiting = old(submitter)@.waiting;
    if row is Some {
        assert(waiting + seq![texts(row->0@)] =~= waiting.push(texts(row->0@)));
        if waiting.len() == 29 {
            let rows = r.submit->0@;
            assert(row_texts(rows) == waiting.push(texts(row->0@)));
            assert(row_texts(rows).len() == rows.len());
            assert forall|i: int| 0 <= i < 29 implies texts((#[trigger] rows[i])@) == waiting[i] by {
                assert(row_texts(rows)[i] == texts(rows[i]@));
            }
            assert(row_texts(rows)[29] == texts(rows[29]@));
        }
    } else {
        assert(waiting + Seq::<RowView>::empty() =~= waiting);
    }
}

/// When no reply comes in eight seconds, and when no more will come, whatever waits is handed in, in order
/// and as it is, and nothing waits; where nothing waits, nothing is handed in. That no more will
/// come is the end.
pub proof fn law_whatever_waits_is_handed_in_at_last(
    submitter: &mut Submitter,
    event: SubmitterEvent,
    r: SubmitterStep,
)
    requires
        call_ensures(Submitter::step, (submitter, event), r),
        event is Idle || event is Closed,
    ensures
        IDLE_SECONDS == 8,
        r.stop <==> event is Closed,
        final(submitter)@.waiting.len() == 0,
        final(submitter)@.total == old(submitter)@.total,
        old(submitter)@.waiting.len() == 0 ==> r.submit is None,
        old(submitter)@.waiting.len() > 0 ==> {
            &&& r.submit is Some
            &&& r.submit->0@.len() == old(submitter)@.waiting.len()
            &&& forall|i: int|
                0 <= i < r.submit->0@.len() ==> texts((#[trigger] r.submit->0@[i])@) == old(submitter)@.waiting[i]
        },
{
    let waiting = old(submitter)@.waiting;
    assert(waiting + Seq::<RowView>::empty() =~= waiting);
    if waiting.len() > 0 {
        let rows = r.submit->0@;
        assert(row_texts(rows) == waiting);
        assert(row_texts(rows).len() == rows.len());
        assert forall|i: int| 0 <= i < rows.len() implies texts((#[trigger] rows[i])@)
            == waiting[i] by {
            assert(row_texts(rows)[i] == texts(rows[i]@));
        }
    }
}

/// The arrival of a reply brings the row that is made of the reply, and none where none is.
pub proof fn law_a_reply_brings_its_row(
    result: &Json,
    row: Option<Vec<String>>,
    event: SubmitterEvent,
)
    requires
        call_ensures(parse_danhao_json, (result,), row),
        call_ensures(received_reply, (result,), event),
    ensures
        event is Received,
        event->Received_0 is Some <==> row is Some,
        row is Some ==> texts(event->Received_0->0@) == texts(row->0@),
{
}

/// What is handed in over a run is what is handed in at each step of it, one after the other, and
/// what waits after it is what waits after the last.
pub proof fn law_a_run_hands_in_step_by_step(
    waiting: Seq<RowView>,
    events: Seq<SubmitterEventView>,
    submitter: &mut Submitter,
    event: SubmitterEvent,
    r: SubmitterStep,
)
    requires
        call_ensures(Submitter::step, (submitter, event), r),
        old(submitter)@.waiting == waiting_after(waiting, events),
    ensures
        waiting_after(waiting, Seq::empty()) == waiting,
        handed_in(waiting, Seq::empty()).len() == 0,
        waiting_after(waiting, events.push(event@)) == final(submitter)@.waiting,
        r.submit is None ==> handed_in(waiting, events.push(event@)) == handed_in(waiting, events),
        r.submit is Some ==> handed_in(waiting, events.push(event@)) == handed_in(waiting, events)
            + Seq::new(r.submit->0@.len(), |i: int| texts(r.submit->0@[i]@)),
{
    assert(events.push(event@).drop_last() =~= events);
    if r.submit is Some {
        assert(row_texts(r.submit->0@) =~= Seq::new(
            r.submit->0@.len(),
            |i: int| texts(r.submit->0@[i]@),
        ));
    }
}

} // verus!
