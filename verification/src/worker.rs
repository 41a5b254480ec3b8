//! What a worker does with the result of a look-up.

use vstd::prelude::*;

use crate::fetch::{failure, lemma_report_keys, refusal};
use crate::json::{
    is_blank, json_document, member, text_member, unsigned_member, unsigned_tree, Json, JsonView,
};
use crate::reply::{or_empty, reply_row, NOT_AVAILABLE};
use crate::text::occurs_in;

verus! {

/// The status with which the carrier refuses a request.
pub const FORBIDDEN: u64 = 403;

/// What to do with a result. Either way one number fewer is pending.
pub enum WorkerAction {
    /// Leave it: the request was refused.
    Drop,
    /// Hand it to the submitter.
    Forward(Json),
}

/// Whether a result carries the status of a refused request.
pub open spec fn is_forbidden(tree: JsonView) -> bool {
    unsigned_member(tree, "status"@) == Some(FORBIDDEN)
}

/// What a worker does with the result of a look-up.
pub fn worker(result: Json) -> (r: WorkerAction)
    ensures
        match r {
            WorkerAction::Drop => is_forbidden(result@),
            WorkerAction::Forward(json) => !is_forbidden(result@) && json@ == result@,
        },
{
    match result.get_u64("status") {
        Some(status) => if status == FORBIDDEN {
            WorkerAction::Drop
        } else {
            WorkerAction::Forward(result)
        },
        None => WorkerAction::Forward(result),
    }
}

/// Of the results that a look-up makes up itself, those are dropped that stand for a reply with
/// the status of a refused request.
pub proof fn law_forbidden_look_ups_are_dropped(number: Seq<char>, error: Seq<char>, status: u16)
    ensures
        is_forbidden(refusal(number, error, status)) <==> status == FORBIDDEN,
        !is_forbidden(failure(number, error)),
{
    lemma_report_keys();
}

/// A look-up that was answered with an error document has a row if the document's message says
/// that tracking is not available, and the row is made of the number and that message.
pub proof fn law_unavailable_numbers_get_a_row(
    number: Seq<char>,
    text: Seq<char>,
    status: u16,
    document: JsonView,
    error: JsonView,
    message: Seq<char>,
)
    requires
        json_document(text) == Some(document),
        member(document, "error"@) == Some(error),
        text_member(error, "message"@) == Some(message),
        occurs_in(message, NOT_AVAILABLE@),
    ensures
        reply_row(refusal(number, text, status)) == Some(
            seq![number, NOT_AVAILABLE@, message, Seq::empty()],
        ),
{
    lemma_report_keys();
    let map = error->Object_0;
    assert(map.contains_key("message"@));
    assert(!is_blank(error));
    let tree = refusal(number, text, status);
    assert(text_member(tree, "trackingNumber"@) == Some(number));
    assert(member(tree, "error"@) == Some(JsonView::Text(text)));
}

/// A look-up that failed for a reason which is no JSON, and does not say that tracking is not
/// available, has no row.
pub proof fn law_failed_look_ups_get_no_row(number: Seq<char>, error: Seq<char>, status: u16)
    requires
        json_document(error) is None,
        !occurs_in(error, NOT_AVAILABLE@),
    ensures
        reply_row(failure(number, error)) is None,
        reply_row(refusal(number, error, status)) is None,
{
    lemma_report_keys();
    assert(member(failure(number, error), "error"@) == Some(JsonView::Text(error)));
    assert(member(refusal(number, error, status), "error"@) == Some(JsonView::Text(error)));
}

/// A result is left exactly if it is an object whose `status` is the number 403; any other is
/// handed on as it is.
pub proof fn law_only_refused_results_are_dropped(result: Json, r: WorkerAction)
    requires
        call_ensures(worker, (result,), r),
    ensures
        ({
            let refused = result@ is Object && result@->Object_0.contains_key("status"@)
                && result@->Object_0["status"@] is Number && result@->Object_0["status"@]->unsigned
                == Some(403u64);
            &&& refused <==> r is Drop
            &&& !refused ==> r is Forward && r->Forward_0@ == result@
        }),
{
}

} // verus!
