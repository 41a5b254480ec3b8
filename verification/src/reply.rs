//! What a tracking reply says: the row that is submitted for it.
//!
//! A reply is a JSON object. It reports an error under `error`, or the state of the parcel under
//! `status`, `statusSummary`, `trackingEvents` and `mailPieceIntakeDate`.

use vstd::prelude::*;

use crate::dates::{
    is_plain_form, long_date, month_name, standard_time, to_standard_time, CalendarDate,
};
use crate::json::{
    is_blank, is_empty_obj, json_document, json_text, member, starts_with_capital, text_member, Json,
    JsonView,
};
use crate::text::{
    all_digits, contains, is_white_space, lemma_occurs_between, occurs_at, occurs_in, same_text, texts,
};

verus! {

/// The title of a row for a parcel that cannot be tracked, and the words in an error's message
/// that say so.
pub const NOT_AVAILABLE: &'static str = "Tracking is not available";

/// The title for an error that says anything else: no row is submitted for it.
pub const UNKNOWN: &'static str = "Unknow";

/// A date in running text, such as `January 5, 2024`.
pub const MONTH_DATE: &'static str =
    "(?:January|February|March|April|May|June|July|August|September|October|November|December)\\s+\\d{1,2},\\s+\\d{4}";

/// What the first match of a regular expression in a text is, as `Regex::find` has it; nothing
/// where there is no match or the expression is none.
pub uninterp spec fn regex_find(pattern: Seq<char>, text: Seq<char>) -> Option<Seq<char>>;

/// `s[from..to]` is white space, and not empty.
pub open spec fn spaces_between(s: Seq<char>, from: int, to: int) -> bool {
    0 <= from < to <= s.len() && forall|k: int| from <= k < to ==> is_white_space(#[trigger] s[k])
}

/// `s[i..year_at + 4]` is a month's name, white space, the day in one or two digits from `day_at`
/// up to a comma, white space, and the year in four digits from `year_at`.
pub open spec fn month_date_parts(
    s: Seq<char>,
    i: int,
    month: int,
    day_at: int,
    comma: int,
    year_at: int,
) -> bool {
    &&& 1 <= month <= 12
    &&& occurs_at(s, month_name(month), i)
    &&& spaces_between(s, i + month_name(month).len(), day_at)
    &&& day_at < comma <= day_at + 2
    &&& comma < s.len()
    &&& all_digits(s.subrange(day_at, comma))
    &&& s[comma] == ','
    &&& spaces_between(s, comma + 1, year_at)
    &&& year_at + 4 <= s.len()
    &&& all_digits(s.subrange(year_at, year_at + 4))
}

/// `s[i..j]` is a date in running text.
pub open spec fn month_date_at(s: Seq<char>, i: int, j: int) -> bool {
    exists|month: int, day_at: int, comma: int, year_at: int|
        #[trigger] month_date_parts(s, i, month, day_at, comma, year_at) && j == year_at + 4
}

/// `s[i..j]` is the first date in running text.
pub open spec fn first_month_date(s: Seq<char>, i: int, j: int) -> bool {
    month_date_at(s, i, j) && no_month_date_before(s, i)
}

/// No date in running text starts before position `i`.
pub open spec fn no_month_date_before(s: Seq<char>, i: int) -> bool {
    forall|k: int, l: int| k < i ==> !#[trigger] month_date_at(s, k, l)
}

/// `found` stands in `s` at position `i`, with no date in running text before it, and where one
/// starts at `i` it is that date.
pub open spec fn is_found_at(s: Seq<char>, found: Seq<char>, i: int) -> bool {
    &&& occurs_at(s, found, i)
    &&& no_month_date_before(s, i)
    &&& forall|j: int| #[trigger] month_date_at(s, i, j) ==> j == i + found.len()
}

pub open spec fn is_ascii_text(s: Seq<char>) -> bool {
    forall|k: int| 0 <= k < s.len() ==> #[trigger] s[k] <= '\u{7f}'
}

/// `Regex::new` and then `Regex::find`: the text of the first match, under the name
/// [`regex_find`]. It stands in the searched text. For [`MONTH_DATE`] there is a match where there
/// is a date in running text, no such date stands before the match, and one that starts where the
/// match does is the match. In a text in ASCII, where `\d` is an ASCII digit, the match is itself
/// such a date. What else `\d` is, in a text that is not in ASCII, is left unsaid.
#[verifier::external_body]
fn find_match(pattern: &str, text: &str) -> (r: Option<String>)
    ensures
        match r {
            Some(found) => regex_find(pattern@, text@) == Some(found@),
            None => regex_find(pattern@, text@) is None,
        },
        r matches Some(found) ==> occurs_in(text@, found@),
        pattern@ == MONTH_DATE@ ==> match r {
            Some(found) => exists|i: int| #[trigger]
                is_found_at(text@, found@, i) && (is_ascii_text(text@) ==> month_date_at(
                    text@,
                    i,
                    i + found@.len(),
                )),
            None => forall|i: int, j: int| !#[trigger] month_date_at(text@, i, j),
        },
{
    match regex::Regex::new(pattern) {
        Ok(expression) => expression.find(text).map(|found| found.as_str().to_string()),
        Err(_) => None,
    }
}

/// The first date in running text. There is none in the text where none is found, and in a text
/// in ASCII what is found is such a date.
pub fn find_month_date(text: &str) -> (r: Option<String>)
    ensures
        match r {
            Some(found) => regex_find(MONTH_DATE@, text@) == Some(found@),
            None => regex_find(MONTH_DATE@, text@) is None,
        },
        r matches Some(found) ==> occurs_in(text@, found@),
        match r {
            Some(found) => exists|i: int| #[trigger] is_found_at(text@, found@, i),
            None => forall|i: int, j: int| !#[trigger] month_date_at(text@, i, j),
        },
        is_ascii_text(text@) && r is Some ==> exists|i: int, j: int| #[trigger]
            first_month_date(text@, i, j) && r->0@ == text@.subrange(i, j),
        forall|i: int, j: int| #[trigger]
            first_month_date(text@, i, j) && is_ascii_text(text@) ==> r is Some && r->0@
                == text@.subrange(i, j),
{
    let found = find_match(MONTH_DATE, text);
    proof {
        if found is Some && is_ascii_text(text@) {
            let at = choose|i: int| #[trigger]
                is_found_at(text@, found->0@, i) && month_date_at(text@, i, i + found->0@.len());
            assert(first_month_date(text@, at, at + found->0@.len()));
            assert forall|i: int, j: int| #[trigger] first_month_date(text@, i, j) implies found->0@
                == text@.subrange(i, j) by {
                assert(month_date_at(text@, i, j));
                assert(month_date_at(text@, at, at + found->0@.len()));
                assert(i == at);
            }
        }
    }
    found
}

/// The error object with the given message.
pub open spec fn message_tree(message: Seq<char>) -> JsonView {
    JsonView::Object(Map::empty().insert("message"@, JsonView::Text(message)))
}

/// The error that the text under `error` reports, where `document` is what the text reads as: a
/// text that is no JSON is itself the message, and one that is JSON reports what it has under
/// `error`, if that is not blank.
pub open spec fn error_in(text: Seq<char>, document: Option<JsonView>) -> Option<JsonView> {
    match document {
        Some(tree) => match member(tree, "error"@) {
            Some(error) => if is_blank(error) {
                None
            } else {
                Some(error)
            },
            None => None,
        },
        None => Some(message_tree(text)),
    }
}

/// The error that a reply reports. What stands under `error` and is no text is reported as its
/// own JSON text.
pub open spec fn reported_error(tree: JsonView) -> Option<JsonView> {
    match member(tree, "error"@) {
        None => None,
        Some(JsonView::Text(text)) => error_in(text, json_document(text)),
        Some(other) => Some(message_tree(json_text(other))),
    }
}

/// The error object with the given message.
fn error_message(message: String) -> (r: Json)
    ensures
        r@ == message_tree(message@),
{
    let mut entries: Vec<(String, Json)> = Vec::new();
    entries.push(("message".to_string(), Json::text(message)));
    proof {
        let named = crate::json::named_trees(entries@);
        assert(named.drop_last() =~= Seq::empty());
        reveal_with_fuel(crate::json::members, 2);
        assert(named.last() == ("message"@, JsonView::Text(message@)));
        assert(crate::json::members(named.drop_last()) =~= Map::empty());
    }
    Json::object(entries)
}

/// The error that the text under `error` reports, given what the text reads as.
pub fn error_in_text(text: &str, document: Option<Json>) -> (r: Option<Json>)
    ensures
        ({
            let tree = match document {
                Some(json) => Some(json@),
                None => None,
            };
            match r {
                Some(error) => error_in(text@, tree) == Some(error@),
                None => error_in(text@, tree) is None,
            }
        }),
{
    match document {
        Some(json) => match json.get("error") {
            Some(error) => if is_empty_obj(&error) {
                None
            } else {
                Some(error)
            },
            None => None,
        },
        None => Some(error_message(text.to_string())),
    }
}

/// The error that a reply reports. A text with a capital letter in front is no JSON, and so is
/// itself the message.
pub fn extract_error(j: &Json) -> (r: Option<Json>)
    ensures
        match r {
            Some(error) => reported_error(j@) == Some(error@),
            None => reported_error(j@) is None,
        },
        forall|text: Seq<char>|
            text_member(j@, "error"@) == Some(text) && #[trigger] starts_with_capital(text)
                ==> reported_error(j@) == Some(message_tree(text)),
{
    match j.get("error") {
        None => None,
        Some(value) => match value.as_str() {
            Some(text) => error_in_text(text, Json::parse(text)),
            None => Some(error_message(value.to_text())),
        },
    }
}

/// The given characters, or none.
pub open spec fn or_empty(text: Option<Seq<char>>) -> Seq<char> {
    match text {
        Some(chars) => chars,
        None => Seq::empty(),
    }
}

/// The date that the text under `key` writes.
pub open spec fn time_member(tree: JsonView, key: Seq<char>) -> Option<Seq<char>> {
    match text_member(tree, key) {
        Some(text) => if text.len() > 0 {
            standard_time(text)
        } else {
            None
        },
        None => None,
    }
}

/// The latest event of a reply, which comes first.
pub open spec fn first_event(tree: JsonView) -> Option<JsonView> {
    match member(tree, "trackingEvents"@) {
        Some(JsonView::Array(events)) => if events.len() > 0 {
            Some(events[0])
        } else {
            None
        },
        _ => None,
    }
}

/// The date that the first event of a reply has under `key`.
pub open spec fn event_time(tree: JsonView, key: Seq<char>) -> Option<Seq<char>> {
    match first_event(tree) {
        Some(event) => time_member(event, key),
        None => None,
    }
}

/// `text`, or the next candidate where `text` is empty.
pub open spec fn unless_empty(text: Seq<char>, next: Option<Seq<char>>) -> Seq<char> {
    if text.len() == 0 {
        or_empty(next)
    } else {
        text
    }
}

/// The date of a row: the event's own, else the event's in GMT, else the date of intake, else the
/// date that the summary speaks of.
pub open spec fn chosen_time(
    gmt: Option<Seq<char>>,
    event: Option<Seq<char>>,
    intake: Option<Seq<char>>,
    in_summary: Option<Seq<char>>,
) -> Seq<char> {
    let from_event = if event is Some {
        or_empty(event)
    } else {
        or_empty(gmt)
    };
    unless_empty(unless_empty(from_event, intake), in_summary)
}

/// The row for a reply: tracking number, title, description and date. `error` is the message of
/// the error that the reply reports, if it reports one; without one, the reply's own status, its
/// summary and the date make the row. There is no row without a description, nor under the title
/// for unknown errors.
pub open spec fn row_of(
    number: Seq<char>,
    error: Option<Seq<char>>,
    status: Seq<char>,
    summary: Seq<char>,
    time: Seq<char>,
) -> Option<Seq<Seq<char>>> {
    match error {
        Some(message) => if occurs_in(message, NOT_AVAILABLE@) {
            Some(seq![number, NOT_AVAILABLE@, message, Seq::empty()])
        } else {
            None
        },
        None => if status == UNKNOWN@ || summary.len() == 0 {
            None
        } else {
            Some(seq![number, status, summary, time])
        },
    }
}

/// The message of the error that a reply reports.
pub open spec fn reported_message(tree: JsonView) -> Option<Seq<char>> {
    match reported_error(tree) {
        Some(error) => Some(or_empty(text_member(error, "message"@))),
        None => None,
    }
}

/// The date of a reply.
pub open spec fn reply_time(tree: JsonView) -> Seq<char> {
    chosen_time(
        event_time(tree, "GMTTimestamp"@),
        event_time(tree, "eventTimestamp"@),
        time_member(tree, "mailPieceIntakeDate"@),
        regex_find(MONTH_DATE@, or_empty(text_member(tree, "statusSummary"@))),
    )
}

/// The row that is submitted for a reply.
pub open spec fn reply_row(tree: JsonView) -> Option<Seq<Seq<char>>> {
    row_of(
        or_empty(text_member(tree, "trackingNumber"@)),
        reported_message(tree),
        or_empty(text_member(tree, "status"@)),
        or_empty(text_member(tree, "statusSummary"@)),
        reply_time(tree),
    )
}

/// The characters of an optional string.
pub open spec fn chars(text: Option<String>) -> Option<Seq<char>> {
    match text {
        Some(s) => Some(s@),
        None => None,
    }
}

/// The date of a row, from the candidates for it.
pub fn choose_time(
    gmt: Option<String>,
    event: Option<String>,
    intake: Option<String>,
    in_summary: Option<String>,
) -> (r: String)
    ensures
        r@ == chosen_time(chars(gmt), chars(event), chars(intake), chars(in_summary)),
{
    let mut time = String::new();
    match gmt {
        Some(t) => {
            time = t;
        },
        None => {},
    }
    match event {
        Some(t) => {
            time = t;
        },
        None => {},
    }
    if time.as_str().is_empty() {
        time = or_blank(intake);
    }
    if time.as_str().is_empty() {
        time = or_blank(in_summary);
    }
    time
}

/// The string, or an empty one.
fn or_blank(text: Option<String>) -> (r: String)
    ensures
        r@ == or_empty(chars(text)),
{
    match text {
        Some(s) => s,
        None => String::new(),
    }
}

/// The row for a reply, from what the reply holds.
pub fn build_row(
    number: String,
    error: Option<String>,
    status: String,
    summary: String,
    time: String,
) -> (r: Option<Vec<String>>)
    ensures
        match r {
            Some(row) => row_of(number@, chars(error), status@, summary@, time@) == Some(texts(row@)),
            None => row_of(number@, chars(error), status@, summary@, time@) is None,
        },
{
    let title: String;
    let description: String;
    let when: String;
    match error {
        Some(message) => {
            if !contains(message.as_str(), NOT_AVAILABLE) {
                return None;
            }
            title = NOT_AVAILABLE.to_string();
            description = message;
            when = String::new();
            assert(description@.len() > 0) by {
                reveal_strlit("Tracking is not available");
            }
        },
        None => {
            if same_text(status.as_str(), UNKNOWN) {
                return None;
            }
            if summary.as_str().is_empty() {
                return None;
            }
            title = status;
            description = summary;
            when = time;
        },
    }
    let ghost expected = seq![number@, title@, description@, when@];
    let mut row: Vec<String> = Vec::new();
    row.push(number);
    row.push(title);
    row.push(description);
    row.push(when);
    assert(texts(row@) =~= expected);
    Some(row)
}

/// The date that the text under `key` writes.
fn time_under(j: &Json, key: &str) -> (r: Option<String>)
    ensures
        chars(r) == time_member(j@, key@),
{
    match j.get_str(key) {
        Some(text) => if text.as_str().is_empty() {
            None
        } else {
            to_standard_time(text.as_str())
        },
        None => None,
    }
}

/// The dates of the reply's first event: in GMT, and the event's own.
fn event_times(j: &Json) -> (r: (Option<String>, Option<String>))
    ensures
        chars(r.0) == event_time(j@, "GMTTimestamp"@),
        chars(r.1) == event_time(j@, "eventTimestamp"@),
{
    match j.get("trackingEvents") {
        Some(events) => match events.first() {
            Some(event) => (time_under(&event, "GMTTimestamp"), time_under(&event, "eventTimestamp")),
            None => (None, None),
        },
        None => (None, None),
    }
}

/// The date of a reply.
fn find_time(j: &Json, summary: &str) -> (r: String)
    requires
        summary@ == or_empty(text_member(j@, "statusSummary"@)),
    ensures
        r@ == reply_time(j@),
{
    let (gmt, event) = event_times(j);
    let intake = time_under(j, "mailPieceIntakeDate");
    let time = choose_time(gmt, event, intake, None);
    if time.as_str().is_empty() {
        or_blank(find_month_date(summary))
    } else {
        time
    }
}

/// The row that is submitted for a reply: tracking number, title, description and date. An error
/// in plain words, with a capital letter in front, has a row only if it says that tracking is not
/// available.
pub fn parse_danhao_json(j: &Json) -> (r: Option<Vec<String>>)
    ensures
        match r {
            Some(row) => reply_row(j@) == Some(texts(row@)),
            None => reply_row(j@) is None,
        },
        forall|text: Seq<char>|
            text_member(j@, "error"@) == Some(text) && #[trigger] starts_with_capital(text) ==> (r is Some
                <==> occurs_in(text, NOT_AVAILABLE@)),
{
    let number = or_blank(j.get_str("trackingNumber"));
    let status = or_blank(j.get_str("status"));
    let summary = or_blank(j.get_str("statusSummary"));
    match extract_error(j) {
        Some(error) => {
            let message = or_blank(error.get_str("message"));
            build_row(number, Some(message), status, summary, String::new())
        },
        None => {
            let time = find_time(j, summary.as_str());
            build_row(number, None, status, summary, time)
        },
    }
}

/// Every row has a tracking number, a title, a description and a date, in that order; the
/// number is the reply's, the title is never the one for unknown errors, and the description is
/// never empty.
pub proof fn law_rows_are_complete(tree: JsonView)
    ensures
        reply_row(tree) matches Some(row) ==> row.len() == 4 && row[0] == or_empty(
            text_member(tree, "trackingNumber"@),
        ) && row[1] != UNKNOWN@ && row[2].len() > 0,
{
    reveal_strlit("Tracking is not available");
    reveal_strlit("Unknow");
}

/// A reply whose error says that tracking is not available has a row of that title, with the
/// error's message for description and no date; one with any other error has none.
pub proof fn law_errors_decide_the_row(tree: JsonView, message: Seq<char>)
    requires
        reported_message(tree) == Some(message),
    ensures
        occurs_in(message, NOT_AVAILABLE@) ==> reply_row(tree) == Some(
            seq![
                or_empty(text_member(tree, "trackingNumber"@)),
                NOT_AVAILABLE@,
                message,
                Seq::empty(),
            ],
        ),
        !occurs_in(message, NOT_AVAILABLE@) ==> reply_row(tree) is None,
{
}

/// A reply that reports no error has a row of its status, its summary and its date, unless it has
/// no summary or its status is the title for unknown errors.
pub proof fn law_the_state_makes_the_row(tree: JsonView)
    requires
        reported_error(tree) is None,
    ensures
        ({
            let status = or_empty(text_member(tree, "status"@));
            let summary = or_empty(text_member(tree, "statusSummary"@));
            reply_row(tree) == (if status == UNKNOWN@ || summary.len() == 0 {
                None
            } else {
                Some(
                    seq![
                        or_empty(text_member(tree, "trackingNumber"@)),
                        status,
                        summary,
                        reply_time(tree),
                    ],
                )
            })
        }),
{
}

/// A date that was read is not empty.
proof fn lemma_times_are_not_empty(text: Seq<char>)
    ensures
        standard_time(text) matches Some(time) ==> time.len() > 0,
{
    reveal_strlit(", ");
}

/// The date of a reply is that of its first event, where that can be read; else the event's in
/// GMT; else that of intake; else the first that its summary speaks of.
pub proof fn law_dates_are_taken_in_order(tree: JsonView)
    ensures
        ({
            let event = event_time(tree, "eventTimestamp"@);
            let gmt = event_time(tree, "GMTTimestamp"@);
            let intake = time_member(tree, "mailPieceIntakeDate"@);
            let summary = or_empty(text_member(tree, "statusSummary"@));
            reply_time(tree) == (if event is Some {
                event->0
            } else if gmt is Some {
                gmt->0
            } else if intake is Some {
                intake->0
            } else {
                or_empty(regex_find(MONTH_DATE@, summary))
            })
        }),
{
    assert forall|text: Seq<char>| (#[trigger] standard_time(text)) is Some implies standard_time(
        text,
    )->0.len() > 0 by {
        lemma_times_are_not_empty(text);
    }
}

/// The object has a member under the key.
pub open spec fn has_member(tree: JsonView, key: Seq<char>) -> bool {
    tree is Object && tree->Object_0.contains_key(key)
}

/// The text that the object has under the key; an empty one where it has none there.
pub open spec fn says(tree: JsonView, key: Seq<char>, text: Seq<char>) -> bool {
    if has_member(tree, key) && tree->Object_0[key] is Text {
        text == tree->Object_0[key]->Text_0
    } else {
        text.len() == 0
    }
}

/// What a reply reports under `error`. A text that is no JSON is itself the message. A text that is
/// JSON reports what it has under `error` in turn, if that is neither null nor an empty object, with
/// the text under `message` there. Whatever is no text is the message as JSON writes it.
pub open spec fn reports(
    tree: JsonView,
    text: &str,
    parsed: Option<Json>,
    other: &Json,
    written: String,
    message: Option<Seq<char>>,
) -> bool {
    &&& call_ensures(Json::parse, (text,), parsed)
    &&& call_ensures(Json::to_text, (other,), written)
    &&& if !has_member(tree, "error"@) {
        message is None
    } else if tree->Object_0["error"@] is Text {
        &&& text@ == tree->Object_0["error"@]->Text_0
        &&& parsed is None ==> message == Some(text@)
        &&& parsed is Some && !has_member(parsed->0@, "error"@) ==> message is None
        &&& parsed is Some && has_member(parsed->0@, "error"@) ==> {
            let error = parsed->0@->Object_0["error"@];
            if error is Null || (error is Object && forall|key: Seq<char>|
                !#[trigger] error->Object_0.contains_key(key)) {
                message is None
            } else {
                message is Some && says(error, "message"@, message->0)
            }
        }
    } else {
        other@ == tree->Object_0["error"@] && message == Some(written@)
    }
}

proof fn lemma_reports(
    tree: JsonView,
    text: &str,
    parsed: Option<Json>,
    other: &Json,
    written: String,
    message: Option<Seq<char>>,
)
    requires
        reports(tree, text, parsed, other, written, message),
    ensures
        reported_message(tree) == message,
        message is None ==> reported_error(tree) is None,
{
    if has_member(tree, "error"@) && tree->Object_0["error"@] is Text && parsed is Some
        && has_member(parsed->0@, "error"@) {
        let error = parsed->0@->Object_0["error"@];
        if error is Object {
            if forall|key: Seq<char>| !#[trigger] error->Object_0.contains_key(key) {
                assert(error->Object_0 =~= Map::empty());
            }
        }
        if message is Some {
            assert(or_empty(text_member(error, "message"@)) =~= message->0);
        }
    } else if message is Some {
        let shown = message_tree(message->0);
        assert(text_member(shown, "message"@) == Some(message->0));
    }
}

/// The row of a reply is made of four texts. Where the reply reports an error, there is a row
/// exactly if the message says that tracking is not available: the number, those words, the whole
/// message and no date. Where it reports none, there is a row exactly if it has a summary and its
/// status is not the word for unknown errors: the number, the status and the summary, each as it
/// is, and a date.
pub proof fn law_the_row_of_a_reply(
    j: &Json,
    number: Seq<char>,
    status: Seq<char>,
    summary: Seq<char>,
    text: &str,
    parsed: Option<Json>,
    other: &Json,
    written: String,
    message: Option<Seq<char>>,
    r: Option<Vec<String>>,
)
    requires
        call_ensures(parse_danhao_json, (j,), r),
        says(j@, "trackingNumber"@, number),
        says(j@, "status"@, status),
        says(j@, "statusSummary"@, summary),
        reports(j@, text, parsed, other, written, message),
    ensures
        r is Some ==> r->0@.len() == 4 && r->0@[0]@ == number,
        message is Some ==> (r is Some <==> exists|a: Seq<char>, b: Seq<char>|
            message->0 == #[trigger] (a + "Tracking is not available"@ + b)),
        message is Some && r is Some ==> r->0@[1]@ == "Tracking is not available"@ && r->0@[2]@
            == message->0 && r->0@[3]@.len() == 0,
        message is None ==> (r is Some <==> status != "Unknow"@ && summary.len() > 0),
        message is None && r is Some ==> r->0@[1]@ == status && r->0@[2]@ == summary,
{
    lemma_reports(j@, text, parsed, other, written, message);
    assert(or_empty(text_member(j@, "trackingNumber"@)) =~= number);
    assert(or_empty(text_member(j@, "status"@)) =~= status);
    assert(or_empty(text_member(j@, "statusSummary"@)) =~= summary);
    if message is Some {
        lemma_occurs_between(message->0, "Tracking is not available"@);
    }
    if r is Some {
        let row = r->0@;
        assert(texts(row).len() == row.len());
        assert(texts(row)[0] == row[0]@);
        assert(texts(row)[1] == row[1]@);
        assert(texts(row)[2] == row[2]@);
        assert(texts(row)[3] == row[3]@);
    }
}

/// The date that is read from the text under the key, all of it; none where there is no text there,
/// or an empty one, or one that is no date.
pub open spec fn dates(
    tree: JsonView,
    key: Seq<char>,
    text: &str,
    read: Option<String>,
    date: Option<Seq<char>>,
) -> bool {
    &&& call_ensures(to_standard_time, (text,), read)
    &&& if has_member(tree, key) && tree->Object_0[key] is Text && tree->Object_0[key]->Text_0.len()
        > 0 {
        &&& text@ == tree->Object_0[key]->Text_0
        &&& date is Some <==> read is Some
        &&& read is Some ==> date->0 == read->0@
    } else {
        date is None
    }
}

proof fn lemma_dates(
    tree: JsonView,
    key: Seq<char>,
    text: &str,
    read: Option<String>,
    date: Option<Seq<char>>,
)
    requires
        dates(tree, key, text, read, date),
    ensures
        time_member(tree, key) == date,
        date is Some ==> date->0.len() > 0,
{
    if has_member(tree, key) && tree->Object_0[key] is Text {
        lemma_times_are_not_empty(tree->Object_0[key]->Text_0);
    }
}

/// The first event of a reply; null where it has none.
pub open spec fn is_first_event(tree: JsonView, event: JsonView) -> bool {
    if has_member(tree, "trackingEvents"@) && tree->Object_0["trackingEvents"@] is Array
        && tree->Object_0["trackingEvents"@]->Array_0.len() > 0 {
        event == tree->Object_0["trackingEvents"@]->Array_0[0]
    } else {
        event == JsonView::Null
    }
}

/// The date of a row is what is read from the first event's own time; where nothing is, from its
/// time in GMT; where nothing is, from the day of intake; else it is the first date that the summary
/// speaks of, as it stands there, and empty where it speaks of none.
pub proof fn law_the_date_of_a_row(
    j: &Json,
    text: &str,
    parsed: Option<Json>,
    other: &Json,
    written: String,
    event: JsonView,
    own_text: &str,
    own_read: Option<String>,
    own: Option<Seq<char>>,
    gmt_text: &str,
    gmt_read: Option<String>,
    gmt: Option<Seq<char>>,
    intake_text: &str,
    intake_read: Option<String>,
    intake: Option<Seq<char>>,
    summary: &str,
    found: Option<String>,
    r: Option<Vec<String>>,
)
    requires
        call_ensures(parse_danhao_json, (j,), r),
        r is Some,
        reports(j@, text, parsed, other, written, None),
        is_first_event(j@, event),
        dates(event, "eventTimestamp"@, own_text, own_read, own),
        dates(event, "GMTTimestamp"@, gmt_text, gmt_read, gmt),
        dates(j@, "mailPieceIntakeDate"@, intake_text, intake_read, intake),
        says(j@, "statusSummary"@, summary@),
        call_ensures(find_month_date, (summary,), found),
    ensures
        r->0@.len() == 4,
        r->0@[3]@ == (if own is Some {
            own->0
        } else if gmt is Some {
            gmt->0
        } else if intake is Some {
            intake->0
        } else if found is Some {
            found->0@
        } else {
            Seq::empty()
        }),
{
    lemma_reports(j@, text, parsed, other, written, None);
    lemma_dates(event, "eventTimestamp"@, own_text, own_read, own);
    lemma_dates(event, "GMTTimestamp"@, gmt_text, gmt_read, gmt);
    lemma_dates(j@, "mailPieceIntakeDate"@, intake_text, intake_read, intake);
    assert(or_empty(text_member(j@, "statusSummary"@)) =~= summary@);
    if has_member(j@, "trackingEvents"@) && j@->Object_0["trackingEvents"@] is Array
        && j@->Object_0["trackingEvents"@]->Array_0.len() > 0 {
        assert(first_event(j@) == Some(event));
    } else {
        assert(first_event(j@) is None);
    }
    law_dates_are_taken_in_order(j@);
    let row = r->0@;
    assert(texts(row).len() == row.len());
    assert(texts(row)[3] == row[3]@);
}

/// A first event whose own time is in one of the plain forms of a date, whatever its time of day and
/// offset, gives the row that date; so does its time in GMT where it has no time of its own, and the
/// day of intake where there is no event.
pub proof fn law_plain_dates_date_the_row(
    j: &Json,
    event: JsonView,
    text: &str,
    read: Option<String>,
    date: CalendarDate,
    r: Option<Vec<String>>,
)
    requires
        call_ensures(parse_danhao_json, (j,), r),
        r is Some,
        !has_member(j@, "error"@),
        is_first_event(j@, event),
        call_ensures(to_standard_time, (text,), read),
        is_plain_form(text@, date),
        ({
            ||| has_member(event, "eventTimestamp"@) && event->Object_0["eventTimestamp"@]
                == JsonView::Text(text@)
            ||| !has_member(event, "eventTimestamp"@) && has_member(event, "GMTTimestamp"@)
                && event->Object_0["GMTTimestamp"@] == JsonView::Text(text@)
            ||| event is Null && has_member(j@, "mailPieceIntakeDate"@)
                && j@->Object_0["mailPieceIntakeDate"@] == JsonView::Text(text@)
        }),
    ensures
        r->0@.len() == 4,
        r->0@[3]@ == long_date(date),
{
    assert(reported_error(j@) is None);
    if has_member(j@, "trackingEvents"@) && j@->Object_0["trackingEvents"@] is Array
        && j@->Object_0["trackingEvents"@]->Array_0.len() > 0 {
        assert(first_event(j@) == Some(event));
    } else {
        assert(first_event(j@) is None);
    }
    lemma_times_are_not_empty(text@);
    law_dates_are_taken_in_order(j@);
    let row = r->0@;
    assert(texts(row).len() == row.len());
    assert(texts(row)[3] == row[3]@);
}

/// The error of a reply, as a value: the one inside a JSON text, as it is, or an object with nothing
/// but a message.
pub proof fn law_errors_are_found(
    j: &Json,
    text: &str,
    parsed: Option<Json>,
    other: &Json,
    written: String,
    message: Option<Seq<char>>,
    r: Option<Json>,
)
    requires
        call_ensures(extract_error, (j,), r),
        reports(j@, text, parsed, other, written, message),
    ensures
        r is Some <==> message is Some,
        r is Some ==> says(r->0@, "message"@, message->0),
        r is Some && j@->Object_0["error"@] is Text && parsed is Some ==> r->0@
            == parsed->0@->Object_0["error"@],
        r is Some && !(j@->Object_0["error"@] is Text && parsed is Some) ==> r->0@ is Object && (
        forall|key: Seq<char>| #[trigger]
            r->0@->Object_0.contains_key(key) <==> key == "message"@),
{
    lemma_reports(j@, text, parsed, other, written, message);
}

/// Of the candidates for a date the event's own counts before the one in GMT; where the one that
/// counts is missing or empty, the day of intake counts, and then what the summary says.
pub proof fn law_candidates_count_in_order(
    gmt: Option<String>,
    event: Option<String>,
    intake: Option<String>,
    in_summary: Option<String>,
    r: String,
)
    requires
        call_ensures(choose_time, (gmt, event, intake, in_summary), r),
    ensures
        ({
            let from_event = if event is Some {
                event->0@
            } else if gmt is Some {
                gmt->0@
            } else {
                Seq::empty()
            };
            &&& from_event.len() > 0 ==> r@ == from_event
            &&& from_event.len() == 0 && intake is Some && intake->0@.len() > 0 ==> r@ == intake->0@
            &&& from_event.len() == 0 && (intake is None || intake->0@.len() == 0) && in_summary
                is Some ==> r@ == in_summary->0@
            &&& from_event.len() == 0 && (intake is None || intake->0@.len() == 0) && in_summary
                is None ==> r@.len() == 0
        }),
{
}

/// A row holds what it is built from, each text as it is.
pub proof fn law_rows_hold_their_parts(
    number: String,
    error: Option<String>,
    status: String,
    summary: String,
    time: String,
    r: Option<Vec<String>>,
)
    requires
        call_ensures(build_row, (number, error, status, summary, time), r),
    ensures
        error is None ==> (r is Some <==> status@ != "Unknow"@ && summary@.len() > 0),
        error is None && r is Some ==> r->0@.len() == 4 && r->0@[0]@ == number@ && r->0@[1]@
            == status@ && r->0@[2]@ == summary@ && r->0@[3]@ == time@,
        error is Some ==> (r is Some <==> exists|a: Seq<char>, b: Seq<char>|
            error->0@ == #[trigger] (a + "Tracking is not available"@ + b)),
        error is Some && r is Some ==> r->0@.len() == 4 && r->0@[0]@ == number@ && r->0@[1]@
            == "Tracking is not available"@ && r->0@[2]@ == error->0@ && r->0@[3]@.len() == 0,
{
    if error is Some {
        lemma_occurs_between(error->0@, "Tracking is not available"@);
    }
    if r is Some {
        let row = r->0@;
        assert(texts(row).len() == row.len());
        assert(texts(row)[0] == row[0]@);
        assert(texts(row)[1] == row[1]@);
        assert(texts(row)[2] == row[2]@);
        assert(texts(row)[3] == row[3]@);
    }
}

/// A text that is no JSON is itself the message of its error; one that is JSON has the error that
/// stands under `error` in it, as it is, and none where nothing stands there, or null, or an empty
/// object.
pub proof fn law_errors_in_texts_are_found(text: &str, document: Option<Json>, r: Option<Json>)
    requires
        call_ensures(error_in_text, (text, document), r),
    ensures
        document is None ==> r is Some && says(r->0@, "message"@, text@) && (forall|key: Seq<char>|
            #[trigger] r->0@->Object_0.contains_key(key) <==> key == "message"@),
        document is Some ==> {
            let error = document->0@->Object_0["error"@];
            let blank = error is Null || (error is Object && forall|key: Seq<char>|
                !#[trigger] error->Object_0.contains_key(key));
            &&& r is Some <==> has_member(document->0@, "error"@) && !blank
            &&& r is Some ==> r->0@ == error
        },
{
    if document is Some && has_member(document->0@, "error"@) {
        let error = document->0@->Object_0["error"@];
        if error is Object {
            if forall|key: Seq<char>| !#[trigger] error->Object_0.contains_key(key) {
                assert(error->Object_0 =~= Map::empty());
            }
        }
    }
}

/// What is found in a text is what the pattern of a month's name, a day of one or two digits, a
/// comma and a year of four digits first matches there, and nothing where it matches nothing.
pub proof fn law_dates_are_found_by_their_pattern(text: &str, r: Option<String>)
    requires
        call_ensures(find_month_date, (text,), r),
    ensures
        ({
            let found = regex_find(
                "(?:January|February|March|April|May|June|July|August|September|October|November|December)\\s+\\d{1,2},\\s+\\d{4}"@,
                text@,
            );
            &&& r is Some <==> found is Some
            &&& r is Some ==> r->0@ == found->0
        }),
{
}

/// A date in running text is found: of something before it in which no date starts, the date, and
/// whatever is behind it, the date is what is found.
pub proof fn law_the_first_date_in_a_text_is_found(
    front: Seq<char>,
    month: int,
    gap: Seq<char>,
    day: Seq<char>,
    space: Seq<char>,
    year: Seq<char>,
    back: Seq<char>,
    text: &str,
    r: Option<String>,
)
    requires
        call_ensures(find_month_date, (text,), r),
        1 <= month <= 12,
        gap.len() > 0,
        forall|i: int| 0 <= i < gap.len() ==> is_white_space(#[trigger] gap[i]),
        1 <= day.len() <= 2,
        forall|i: int| 0 <= i < day.len() ==> '0' <= #[trigger] day[i] <= '9',
        space.len() > 0,
        forall|i: int| 0 <= i < space.len() ==> is_white_space(#[trigger] space[i]),
        year.len() == 4,
        forall|i: int| 0 <= i < year.len() ==> '0' <= #[trigger] year[i] <= '9',
        text@ == front + (month_name(month) + gap + day + seq![','] + space + year) + back,
    ensures
        r is Some,
        is_ascii_text(text@) && no_month_date_before(text@, front.len() as int) ==> r->0@
            == month_name(month) + gap + day + seq![','] + space + year,
{
    let s = text@;
    let name = month_name(month);
    let date = name + gap + day + seq![','] + space + year;
    let i = front.len() as int;
    let day_at = i + name.len() + gap.len();
    let comma = day_at + day.len();
    let year_at = comma + 1 + space.len();
    assert(s.subrange(i, i + name.len()) =~= name);
    assert forall|k: int| i + name.len() <= k < day_at implies is_white_space(#[trigger] s[k]) by {
        assert(s[k] == gap[k - i - name.len()]);
    }
    assert(s.subrange(day_at, comma) =~= day);
    assert(all_digits(day));
    assert(s[comma] == ',');
    assert forall|k: int| comma + 1 <= k < year_at implies is_white_space(#[trigger] s[k]) by {
        assert(s[k] == space[k - comma - 1]);
    }
    assert(s.subrange(year_at, year_at + 4) =~= year);
    assert(all_digits(year));
    assert(month_date_parts(s, i, month, day_at, comma, year_at));
    assert(month_date_at(s, i, year_at + 4));
    assert(s.subrange(i, year_at + 4) =~= date);
    if is_ascii_text(s) && no_month_date_before(s, i) {
        assert(first_month_date(s, i, year_at + 4));
    }
}

} // verus!
