//! From the results of look-ups to the rows that are handed in, over a whole run.
//!
//! The workers look numbers up side by side and forward the results, the submitter takes them in
//! as they arrive, and the rows that they have are handed in batch by batch. The laws here say
//! what all batches of a run hold together.

use vstd::prelude::*;
use vstd::seq_lib::lemma_multiset_commutative;

use crate::json::{Json, JsonView};
use crate::reply::{parse_danhao_json, reply_row};
use crate::submitter::{
    handed_in, law_no_row_is_lost, received, reply_event, waiting_after, RowView,
    SubmitterEventView,
};
use crate::text::texts;
use crate::worker::{is_forbidden, worker, WorkerAction};

verus! {

/// What the submitter sees of the queue of results.
pub ghost enum Arrival {
    /// A result came.
    Reply(JsonView),
    /// None came in time.
    Idle,
    /// No more will come.
    Closed,
}

/// What an arrival is to the submitter.
pub open spec fn event_of(arrival: Arrival) -> SubmitterEventView {
    match arrival {
        Arrival::Reply(result) => reply_event(result),
        Arrival::Idle => SubmitterEventView::Idle,
        Arrival::Closed => SubmitterEventView::Closed,
    }
}

/// What arrivals are to the submitter, in order.
pub open spec fn events_of(arrivals: Seq<Arrival>) -> Seq<SubmitterEventView> {
    arrivals.map_values(|arrival: Arrival| event_of(arrival))
}

/// The results among arrivals, in order.
pub open spec fn replies(arrivals: Seq<Arrival>) -> Seq<JsonView>
    decreases arrivals.len(),
{
    if arrivals.len() == 0 {
        Seq::empty()
    } else {
        match arrivals.last() {
            Arrival::Reply(result) => replies(arrivals.drop_last()).push(result),
            _ => replies(arrivals.drop_last()),
        }
    }
}

/// The results that the workers forward, in order: all but those of refused requests.
pub open spec fn forwarded(results: Seq<JsonView>) -> Seq<JsonView>
    decreases results.len(),
{
    if results.len() == 0 {
        Seq::empty()
    } else if is_forbidden(results.last()) {
        forwarded(results.drop_last())
    } else {
        forwarded(results.drop_last()).push(results.last())
    }
}

/// The row that is due for a result: none where the request was refused or the reply has none.
pub open spec fn due_row(result: JsonView) -> Seq<RowView> {
    if is_forbidden(result) {
        Seq::empty()
    } else {
        match reply_row(result) {
            Some(row) => seq![row],
            None => Seq::empty(),
        }
    }
}

/// The rows that are due for results, in order.
pub open spec fn due_rows(results: Seq<JsonView>) -> Seq<RowView>
    decreases results.len(),
{
    if results.len() == 0 {
        Seq::empty()
    } else {
        due_rows(results.drop_last()) + due_row(results.last())
    }
}

/// The rows that replies have, in order.
spec fn rows_in(replies: Seq<JsonView>) -> Seq<RowView>
    decreases replies.len(),
{
    if replies.len() == 0 {
        Seq::empty()
    } else {
        match reply_row(replies.last()) {
            Some(row) => rows_in(replies.drop_last()).push(row),
            None => rows_in(replies.drop_last()),
        }
    }
}

proof fn lemma_received_rows(arrivals: Seq<Arrival>)
    ensures
        received(events_of(arrivals)) == rows_in(replies(arrivals)),
    decreases arrivals.len(),
{
    let events = events_of(arrivals);
    if arrivals.len() > 0 {
        let front = arrivals.drop_last();
        lemma_received_rows(front);
        assert(events.drop_last() =~= events_of(front));
        match arrivals.last() {
            Arrival::Reply(result) => {
                assert(replies(front).push(result).drop_last() =~= replies(front));
            },
            _ => {},
        }
        assert(received(events) =~= rows_in(replies(arrivals)));
    }
}

proof fn lemma_due_rows(results: Seq<JsonView>)
    ensures
        due_rows(results) == rows_in(forwarded(results)),
    decreases results.len(),
{
    if results.len() > 0 {
        let front = results.drop_last();
        lemma_due_rows(front);
        if !is_forbidden(results.last()) {
            assert(forwarded(results).drop_last() =~= forwarded(front));
        }
        assert(due_rows(results) =~= rows_in(forwarded(results)));
    }
}

/// A run hands in exactly the rows that are due, in the order of the results: each result that
/// was forwarded arrives once, the run ends when no more will come, and what then still waits is
/// handed in too, full batch or not.
pub proof fn law_a_run_hands_in_what_is_due(results: Seq<JsonView>, arrivals: Seq<Arrival>)
    requires
        arrivals.len() > 0,
        arrivals.last() is Closed,
        replies(arrivals) == forwarded(results),
    ensures
        handed_in(Seq::empty(), events_of(arrivals)) == due_rows(results),
{
    let events = events_of(arrivals);
    law_no_row_is_lost(Seq::empty(), events);
    assert(events.last() is Closed);
    assert(waiting_after(Seq::empty(), events) =~= Seq::empty());
    lemma_received_rows(arrivals);
    lemma_due_rows(results);
    assert(handed_in(Seq::empty(), events) =~= due_rows(results));
}

proof fn lemma_due_rows_of_both(a: Seq<JsonView>, b: Seq<JsonView>)
    ensures
        due_rows(a + b) == due_rows(a) + due_rows(b),
    decreases b.len(),
{
    if b.len() == 0 {
        assert(a + b =~= a);
    } else {
        lemma_due_rows_of_both(a, b.drop_last());
        assert((a + b).drop_last() =~= a + b.drop_last());
    }
    assert(due_rows(a + b) =~= due_rows(a) + due_rows(b));
}

proof fn lemma_due_rows_in_any_order(a: Seq<JsonView>, b: Seq<JsonView>)
    requires
        a.to_multiset() == b.to_multiset(),
    ensures
        due_rows(a).to_multiset() == due_rows(b).to_multiset(),
    decreases a.len(),
{
    broadcast use vstd::seq_lib::group_to_multiset_ensures;

    assert(a.len() == a.to_multiset().len());
    assert(b.len() == b.to_multiset().len());
    if a.len() > 0 {
        let last = a.last();
        assert(a.contains(last)) by {
            assert(a[a.len() - 1] == last);
        }
        assert(a.to_multiset().count(last) > 0);
        assert(b.to_multiset().count(last) > 0);
        assert(b.contains(last));
        let i = choose|i: int| 0 <= i < b.len() && b[i] == last;
        let front = b.take(i);
        let back = b.skip(i + 1);
        assert(b =~= front + seq![last] + back);
        assert(b.remove(i) =~= front + back);
        assert(a.remove(a.len() - 1) =~= a.drop_last());
        lemma_due_rows_in_any_order(a.drop_last(), front + back);
        lemma_due_rows_of_both(front + seq![last], back);
        lemma_due_rows_of_both(front, seq![last]);
        lemma_due_rows_of_both(front, back);
        assert(seq![last].drop_last() =~= Seq::empty());
        assert(due_rows(seq![last]) =~= due_row(last)) by {
            assert(due_rows(seq![last].drop_last()) =~= Seq::empty());
        }
        lemma_multiset_commutative(due_rows(a.drop_last()), due_row(last));
        lemma_multiset_commutative(due_rows(front) + due_row(last), due_rows(back));
        lemma_multiset_commutative(due_rows(front), due_row(last));
        lemma_multiset_commutative(due_rows(front), due_rows(back));
        assert(due_rows(a).to_multiset() =~= due_rows(b).to_multiset());
    } else {
        assert(b =~= a);
    }
}

/// It does not matter in what order the workers get done: a run hands in the rows that are due
/// for the results, each as often as it is due, whatever the order in which they arrive.
pub proof fn law_the_order_of_results_loses_no_row(
    results: Seq<JsonView>,
    arrived: Seq<JsonView>,
    arrivals: Seq<Arrival>,
)
    requires
        arrived.to_multiset() == results.to_multiset(),
        arrivals.len() > 0,
        arrivals.last() is Closed,
        replies(arrivals) == forwarded(arrived),
    ensures
        handed_in(Seq::empty(), events_of(arrivals)).to_multiset() == due_rows(
            results,
        ).to_multiset(),
{
    law_a_run_hands_in_what_is_due(arrived, arrivals);
    lemma_due_rows_in_any_order(arrived, results);
}

/// What is due for a result is the row that is made of it, as it is, where the worker hands the
/// result on and there is a row; else nothing. What is due for two runs of results, one after the
/// other, is what is due for the one followed by what is due for the other.
pub proof fn law_rows_are_due_for_what_is_forwarded(
    result: Json,
    action: WorkerAction,
    row: Option<Vec<String>>,
    before: Seq<JsonView>,
    behind: Seq<JsonView>,
)
    requires
        call_ensures(worker, (result,), action),
        call_ensures(parse_danhao_json, (&result,), row),
    ensures
        action is Forward && row is Some ==> due_rows(seq![result@]) == seq![texts(row->0@)],
        action is Drop || row is None ==> due_rows(seq![result@]).len() == 0,
        due_rows(before + behind) == due_rows(before) + due_rows(behind),
{
    lemma_due_rows_of_both(before, behind);
    let one = seq![result@];
    assert(one.drop_last() =~= Seq::empty());
    assert(due_rows(one.drop_last()) =~= Seq::empty());
    assert(due_rows(one) =~= due_row(result@));
}

} // verus!
