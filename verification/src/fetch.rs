//! Looking one tracking number up: when to ask, when to wait and ask again, and when to give up.
//!
//! [`Fetch`] decides and the caller acts: it performs the [`FetchAction`] that it was handed and
//! reports back with a [`FetchEvent`].

use vstd::arithmetic::power2::{lemma2_to64, pow2};
use vstd::prelude::*;
use vstd::string::*;

use crate::json::{members, named_trees, text_member, unsigned_tree, Json, JsonView};
use crate::text::{parse_u64, unsigned_number};

verus! {

/// What stands before the tracking number in the address of a look-up.
pub const TRACKING_URL: &'static str = "https://apis.usps.com/tracking/v3/tracking/";

/// What stands behind it.
pub const TRACKING_QUERY: &'static str = "?expand=DETAIL";

/// How often a look-up is tried, switches of the proxy aside.
pub const MAX_ATTEMPTS: u32 = 3;

/// The least number of proxy failures after which a look-up is given up.
pub const MIN_PROXY_SWITCHES: usize = 10;

/// What a look-up waits for.
#[derive(Clone, Copy, PartialEq, Eq, Structural, Debug)]
pub enum FetchStage {
    /// A token.
    Token,
    /// The status of the reply.
    Reply,
    /// The JSON body of a reply.
    Document,
    /// The text of a reply with the given status.
    Message(u16),
    /// The end of a pause.
    Pause,
    /// Nothing: it is over.
    Done,
}

/// What happened.
pub enum FetchEvent {
    TokenReady(String),
    TokenFailed,
    /// A reply came, with its status and its `Retry-After` header.
    Replied { status: u16, retry_after: Option<String> },
    /// No reply came; whether no connection was made, and whether the time ran out.
    SendFailed { connect: bool, timeout: bool },
    /// The body was read; nothing where it is no JSON.
    DocumentRead(Option<Json>),
    /// The body was read.
    MessageRead(String),
    /// The pause is over.
    Woke,
}

/// What to do next.
pub enum FetchAction {
    GetToken,
    /// Ask at the address, with the given `Authorization` header.
    Send { url: String, authorization: String },
    ReadDocument,
    ReadMessage,
    /// Pause for that many seconds.
    Sleep(u64),
    /// Stop, with that result.
    Finish(Json),
}

/// A look-up of one tracking number.
pub struct Fetch {
    tracking_number: String,
    /// How many proxies there are.
    proxies: usize,
    /// How many attempts were used up.
    attempt: u32,
    /// How often a proxy failed.
    proxy_switches: usize,
    stage: FetchStage,
}

pub ghost struct FetchView {
    pub number: Seq<char>,
    pub proxies: nat,
    pub attempt: nat,
    pub switches: nat,
    pub stage: FetchStage,
}

pub ghost enum FetchEventView {
    TokenReady(Seq<char>),
    TokenFailed,
    Replied { status: u16, retry_after: Option<Seq<char>> },
    SendFailed { connect: bool, timeout: bool },
    DocumentRead(Option<JsonView>),
    MessageRead(Seq<char>),
    Woke,
}

pub ghost enum FetchActionView {
    GetToken,
    Send { url: Seq<char>, authorization: Seq<char> },
    ReadDocument,
    ReadMessage,
    Sleep(nat),
    Finish(JsonView),
}

impl View for Fetch {
    type V = FetchView;

    closed spec fn view(&self) -> FetchView {
        FetchView {
            number: self.tracking_number@,
            proxies: self.proxies as nat,
            attempt: self.attempt as nat,
            switches: self.proxy_switches as nat,
            stage: self.stage,
        }
    }
}

impl View for FetchEvent {
    type V = FetchEventView;

    open spec fn view(&self) -> FetchEventView {
        match self {
            FetchEvent::TokenReady(token) => FetchEventView::TokenReady(token@),
            FetchEvent::TokenFailed => FetchEventView::TokenFailed,
            FetchEvent::Replied { status, retry_after } => FetchEventView::Replied {
                status: *status,
                retry_after: match retry_after {
                    Some(text) => Some(text@),
                    None => None,
                },
            },
            FetchEvent::SendFailed { connect, timeout } => FetchEventView::SendFailed {
                connect: *connect,
                timeout: *timeout,
            },
            FetchEvent::DocumentRead(document) => FetchEventView::DocumentRead(
                match document {
                    Some(json) => Some(json@),
                    None => None,
                },
            ),
            FetchEvent::MessageRead(text) => FetchEventView::MessageRead(text@),
            FetchEvent::Woke => FetchEventView::Woke,
        }
    }
}

impl View for FetchAction {
    type V = FetchActionView;

    open spec fn view(&self) -> FetchActionView {
        match self {
            FetchAction::GetToken => FetchActionView::GetToken,
            FetchAction::Send { url, authorization } => FetchActionView::Send {
                url: url@,
                authorization: authorization@,
            },
            FetchAction::ReadDocument => FetchActionView::ReadDocument,
            FetchAction::ReadMessage => FetchActionView::ReadMessage,
            FetchAction::Sleep(seconds) => FetchActionView::Sleep(*seconds as nat),
            FetchAction::Finish(json) => FetchActionView::Finish(json@),
        }
    }
}

/// After how many proxy failures a look-up is given up; without proxies there are none.
pub open spec fn switch_limit(proxies: nat) -> nat {
    if proxies == 0 {
        0
    } else if proxies < MIN_PROXY_SWITCHES {
        MIN_PROXY_SWITCHES as nat
    } else {
        proxies
    }
}

/// The address of a look-up.
pub open spec fn tracking_address(number: Seq<char>) -> Seq<char> {
    TRACKING_URL@ + number + TRACKING_QUERY@
}

/// The result of a look-up that found nothing out, and why.
pub open spec fn failure(number: Seq<char>, error: Seq<char>) -> JsonView {
    JsonView::Object(
        Map::empty().insert("trackingNumber"@, JsonView::Text(number)).insert(
            "error"@,
            JsonView::Text(error),
        ),
    )
}

/// The result of a look-up that was answered with a status other than success.
pub open spec fn refusal(number: Seq<char>, error: Seq<char>, status: u16) -> JsonView {
    JsonView::Object(
        Map::empty().insert("trackingNumber"@, JsonView::Text(number)).insert(
            "error"@,
            JsonView::Text(error),
        ).insert("status"@, unsigned_tree(status as u64)),
    )
}

/// A status that says to try again later.
pub open spec fn is_transient(status: u16) -> bool {
    status == 429 || status == 500 || status == 502 || status == 503 || status == 504
}

/// For how long to pause before the next attempt: for as long as the reply asks, else for twice
/// as long as the time before.
pub open spec fn pause(retry_after: Option<Seq<char>>, attempt: nat) -> nat {
    match retry_after {
        Some(text) => match unsigned_number(text, u64::MAX as nat) {
            Some(seconds) => seconds,
            None => pow2(attempt),
        },
        None => pow2(attempt),
    }
}

impl FetchView {
    /// A look-up at its beginning.
    pub open spec fn begun(number: Seq<char>, proxies: nat) -> FetchView {
        FetchView { number, proxies, attempt: 0, switches: 0, stage: FetchStage::Token }
    }

    /// What holds of every look-up between two events.
    pub open spec fn wf(self) -> bool {
        &&& self.attempt <= MAX_ATTEMPTS
        &&& self.proxies == 0 ==> self.switches == 0
        &&& self.stage !is Done && self.proxies > 0 ==> self.switches < switch_limit(self.proxies)
        &&& self.stage is Pause ==> self.attempt > 0
        &&& self.stage !is Pause && self.stage !is Done ==> self.attempt < MAX_ATTEMPTS
        &&& self.stage matches FetchStage::Message(status) ==> status != 200 && status != 404
            && !is_transient(status)
    }

    /// Whether the event answers what the look-up waits for.
    pub open spec fn expects(self, event: FetchEventView) -> bool {
        match event {
            FetchEventView::TokenReady(_) => self.stage is Token,
            FetchEventView::TokenFailed => self.stage is Token,
            FetchEventView::Replied { status, retry_after } => self.stage is Reply,
            FetchEventView::SendFailed { connect, timeout } => self.stage is Reply,
            FetchEventView::DocumentRead(_) => self.stage is Document,
            FetchEventView::MessageRead(_) => self.stage is Message,
            FetchEventView::Woke => self.stage is Pause,
        }
    }

    pub open spec fn at(self, stage: FetchStage) -> FetchView {
        FetchView { stage, ..self }
    }

    pub open spec fn finished(self, result: JsonView) -> (FetchView, FetchActionView) {
        (self.at(FetchStage::Done), FetchActionView::Finish(result))
    }

    /// Starts the next round, unless the attempts are used up.
    pub open spec fn again(self) -> (FetchView, FetchActionView) {
        if self.attempt < MAX_ATTEMPTS {
            (self.at(FetchStage::Token), FetchActionView::GetToken)
        } else {
            self.finished(failure(self.number, "Max retries exceeded"@))
        }
    }

    /// One more attempt is used up.
    pub open spec fn attempted(self) -> FetchView {
        FetchView { attempt: self.attempt + 1, ..self }
    }

    /// Uses an attempt up and pauses.
    pub open spec fn paused(self, seconds: nat) -> (FetchView, FetchActionView) {
        (self.attempted().at(FetchStage::Pause), FetchActionView::Sleep(seconds))
    }

    /// What follows a reply with the given status.
    pub open spec fn replied(self, status: u16, retry_after: Option<Seq<char>>) -> (
        FetchView,
        FetchActionView,
    ) {
        if status == 200 {
            (self.at(FetchStage::Document), FetchActionView::ReadDocument)
        } else if status == 404 {
            self.finished(refusal(self.number, "Not Found"@, 404))
        } else if is_transient(status) {
            self.paused(pause(retry_after, self.attempt))
        } else {
            (self.at(FetchStage::Message(status)), FetchActionView::ReadMessage)
        }
    }

    /// What follows when no reply came: with proxies, a connection that was not made or took too
    /// long is taken for the proxy's fault, and the next one is tried at once, at no cost in
    /// attempts, until that has happened too often.
    pub open spec fn send_failed(self, connect: bool, timeout: bool) -> (
        FetchView,
        FetchActionView,
    ) {
        if self.proxies > 0 && (connect || timeout) {
            let switched = FetchView { switches: self.switches + 1, ..self };
            if switched.switches >= switch_limit(self.proxies) {
                switched.finished(failure(self.number, "All proxies unavailable"@))
            } else {
                switched.again()
            }
        } else {
            self.paused(pow2(self.attempt))
        }
    }

    /// The state and the action that follow an event.
    pub open spec fn next(self, event: FetchEventView) -> (FetchView, FetchActionView) {
        match event {
            FetchEventView::TokenReady(token) => (
                self.at(FetchStage::Reply),
                FetchActionView::Send {
                    url: tracking_address(self.number),
                    authorization: "Bearer "@ + token,
                },
            ),
            FetchEventView::TokenFailed => self.paused(pow2(self.attempt)),
            FetchEventView::Replied { status, retry_after } => self.replied(status, retry_after),
            FetchEventView::SendFailed { connect, timeout } => self.send_failed(connect, timeout),
            FetchEventView::DocumentRead(document) => match document {
                Some(tree) => self.finished(tree),
                None => self.attempted().again(),
            },
            FetchEventView::MessageRead(text) => match self.stage {
                FetchStage::Message(status) => self.finished(refusal(self.number, text, status)),
                _ => self.again(),
            },
            FetchEventView::Woke => self.again(),
        }
    }
}

/// The three names in a report differ.
pub proof fn lemma_report_keys()
    ensures
        "trackingNumber"@ != "error"@,
        "trackingNumber"@ != "status"@,
        "error"@ != "status"@,
{
    reveal_strlit("trackingNumber");
    reveal_strlit("error");
    reveal_strlit("status");
    assert("trackingNumber"@.len() != "error"@.len());
    assert("trackingNumber"@.len() != "status"@.len());
    assert("error"@.len() != "status"@.len());
}

/// The object of an error report, with or without a status.
fn report(number: &str, error: &str, status: Option<u16>) -> (r: Json)
    ensures
        match status {
            Some(code) => r@ == refusal(number@, error@, code),
            None => r@ == failure(number@, error@),
        },
{
    let mut entries: Vec<(String, Json)> = Vec::new();
    entries.push(("trackingNumber".to_string(), Json::text(number.to_string())));
    entries.push(("error".to_string(), Json::text(error.to_string())));
    let ghost two = named_trees(entries@);
    proof {
        reveal_with_fuel(members, 3);
        assert(two =~= seq![
            ("trackingNumber"@, JsonView::Text(number@)),
            ("error"@, JsonView::Text(error@)),
        ]);
        let one = two.drop_last();
        assert(one.drop_last() =~= Seq::empty());
        assert(members(one) =~= Map::empty().insert("trackingNumber"@, JsonView::Text(number@)));
        assert(members(two) == members(one).insert("error"@, JsonView::Text(error@)));
        lemma_report_keys();
    }
    match status {
        Some(code) => {
            entries.push(("status".to_string(), Json::unsigned(code as u64)));
            proof {
                let three = named_trees(entries@);
                assert(three =~= two.push(("status"@, unsigned_tree(code as u64))));
                assert(three.drop_last() =~= two);
            }
        },
        None => {},
    }
    Json::object(entries)
}

/// For how long to pause after an attempt, in seconds.
fn backoff(attempt: u32) -> (r: u64)
    requires
        attempt < MAX_ATTEMPTS,
    ensures
        r == pow2(attempt as nat),
{
    proof {
        lemma2_to64();
    }
    if attempt == 0 {
        1
    } else if attempt == 1 {
        2
    } else {
        4
    }
}

impl Fetch {
    /// Starts to look a tracking number up.
    pub fn start(tracking_number: String, proxies: usize) -> (r: (Fetch, FetchAction))
        ensures
            r.0@ == FetchView::begun(tracking_number@, proxies as nat),
            r.0@.wf(),
            r.1@ is GetToken,
    {
        (
            Fetch { tracking_number, proxies, attempt: 0, proxy_switches: 0, stage: FetchStage::Token },
            FetchAction::GetToken,
        )
    }

    /// What it waits for.
    pub fn stage(&self) -> (r: FetchStage)
        ensures
            r == self@.stage,
    {
        self.stage
    }

    /// How many attempts were used up.
    pub fn attempt(&self) -> (r: u32)
        ensures
            r == self@.attempt,
    {
        self.attempt
    }

    /// How often a proxy failed.
    pub fn proxy_switches(&self) -> (r: usize)
        ensures
            r == self@.switches,
    {
        self.proxy_switches
    }

    fn finish(&mut self, error: &str, status: Option<u16>) -> (r: FetchAction)
        ensures
            match status {
                Some(code) => (final(self)@, r@) == old(self)@.finished(
                    refusal(old(self)@.number, error@, code),
                ),
                None => (final(self)@, r@) == old(self)@.finished(failure(old(self)@.number, error@)),
            },
    {
        self.stage = FetchStage::Done;
        FetchAction::Finish(report(self.tracking_number.as_str(), error, status))
    }

    fn again(&mut self) -> (r: FetchAction)
        ensures
            (final(self)@, r@) == old(self)@.again(),
    {
        if self.attempt < MAX_ATTEMPTS {
            self.stage = FetchStage::Token;
            FetchAction::GetToken
        } else {
            self.finish("Max retries exceeded", None)
        }
    }

    fn pause_for(&mut self, seconds: u64) -> (r: FetchAction)
        requires
            old(self)@.attempt < MAX_ATTEMPTS,
        ensures
            (final(self)@, r@) == old(self)@.paused(seconds as nat),
    {
        self.attempt = self.attempt + 1;
        self.stage = FetchStage::Pause;
        FetchAction::Sleep(seconds)
    }

    fn on_reply(&mut self, status: u16, retry_after: Option<String>) -> (r: FetchAction)
        requires
            old(self)@.attempt < MAX_ATTEMPTS,
        ensures
            (final(self)@, r@) == old(self)@.replied(
                status,
                match retry_after {
                    Some(text) => Some(text@),
                    None => None,
                },
            ),
    {
        if status == 200 {
            self.stage = FetchStage::Document;
            FetchAction::ReadDocument
        } else if status == 404 {
            self.finish("Not Found", Some(404))
        } else if status == 429 || status == 500 || status == 502 || status == 503 || status == 504 {
            let asked: Option<u64> = match retry_after {
                Some(text) => parse_u64(text.as_str()),
                None => None,
            };
            match asked {
                Some(seconds) => self.pause_for(seconds),
                None => {
                    let seconds: u64 = backoff(self.attempt);
                    self.pause_for(seconds)
                },
            }
        } else {
            self.stage = FetchStage::Message(status);
            FetchAction::ReadMessage
        }
    }

    fn on_send_failed(&mut self, connect: bool, timeout: bool) -> (r: FetchAction)
        requires
            old(self)@.attempt < MAX_ATTEMPTS,
            old(self)@.proxies > 0 ==> old(self)@.switches < switch_limit(old(self)@.proxies),
        ensures
            (final(self)@, r@) == old(self)@.send_failed(connect, timeout),
    {
        if self.proxies > 0 && (connect || timeout) {
            self.proxy_switches = self.proxy_switches + 1;
            let limit: usize = if self.proxies < MIN_PROXY_SWITCHES {
                MIN_PROXY_SWITCHES
            } else {
                self.proxies
            };
            if self.proxy_switches >= limit {
                self.finish("All proxies unavailable", None)
            } else {
                self.again()
            }
        } else {
            let seconds: u64 = backoff(self.attempt);
            self.pause_for(seconds)
        }
    }

    /// Takes in what happened, and says what to do next.
    pub fn step(&mut self, event: FetchEvent) -> (r: FetchAction)
        requires
            old(self)@.wf(),
            old(self)@.expects(event@),
        ensures
            (final(self)@, r@) == old(self)@.next(event@),
            final(self)@.wf(),
    {
        match event {
            FetchEvent::TokenReady(token) => {
                self.stage = FetchStage::Reply;
                let mut url = TRACKING_URL.to_string();
                url.append(self.tracking_number.as_str());
                url.append(TRACKING_QUERY);
                let mut authorization = "Bearer ".to_string();
                authorization.append(token.as_str());
                FetchAction::Send { url, authorization }
            },
            FetchEvent::TokenFailed => {
                let seconds: u64 = backoff(self.attempt);
                self.pause_for(seconds)
            },
            FetchEvent::Replied { status, retry_after } => self.on_reply(status, retry_after),
            FetchEvent::SendFailed { connect, timeout } => self.on_send_failed(connect, timeout),
            FetchEvent::DocumentRead(document) => match document {
                Some(json) => {
                    self.stage = FetchStage::Done;
                    FetchAction::Finish(json)
                },
                None => {
                    self.attempt = self.attempt + 1;
                    self.again()
                },
            },
            FetchEvent::MessageRead(text) => match self.stage {
                FetchStage::Message(status) => self.finish(text.as_str(), Some(status)),
                _ => self.again(),
            },
            FetchEvent::Woke => self.again(),
        }
    }
}

/// Whether the events are ones that the look-up waits for, each when it comes.
pub open spec fn fits(state: FetchView, events: Seq<FetchEventView>) -> bool
    decreases events.len(),
{
    events.len() == 0 || (state.expects(events[0]) && fits(
        state.next(events[0]).0,
        events.skip(1),
    ))
}

/// How many requests a look-up sends in a run of events.
pub open spec fn requests(state: FetchView, events: Seq<FetchEventView>) -> nat
    decreases events.len(),
{
    if events.len() == 0 {
        0
    } else {
        let (after, action) = state.next(events[0]);
        (if action is Send {
            1nat
        } else {
            0nat
        }) + requests(after, events.skip(1))
    }
}

/// How many requests a look-up may still send.
pub open spec fn requests_left(state: FetchView) -> int {
    let rounds = MAX_ATTEMPTS - state.attempt + switch_limit(state.proxies) - state.switches - (
    if state.proxies > 0 {
        1int
    } else {
        0int
    });
    match state.stage {
        FetchStage::Token | FetchStage::Pause => rounds,
        FetchStage::Reply | FetchStage::Document => rounds - 1,
        _ => 0,
    }
}

/// A look-up sends at most three requests where there are no proxies. With proxies it sends at
/// most two more than the number of proxy failures after which it is given up.
pub proof fn law_requests_are_bounded(state: FetchView, events: Seq<FetchEventView>)
    requires
        state.wf(),
        fits(state, events),
    ensures
        requests(state, events) <= requests_left(state),
        state.stage is Token && state.attempt == 0 && state.switches == 0 ==> requests(
            state,
            events,
        ) <= (if state.proxies == 0 {
            3
        } else {
            2 + switch_limit(state.proxies)
        }),
    decreases events.len(),
{
    if events.len() > 0 {
        law_requests_are_bounded(state.next(events[0]).0, events.skip(1));
    }
}

/// How many events a look-up may still take in.
pub open spec fn events_left(state: FetchView) -> int {
    let rounds = MAX_ATTEMPTS - state.attempt + switch_limit(state.proxies) - state.switches;
    match state.stage {
        FetchStage::Pause => 4 * rounds + 4,
        FetchStage::Token => 4 * rounds + 3,
        FetchStage::Reply => 4 * rounds + 2,
        FetchStage::Document => 4 * rounds + 1,
        FetchStage::Message(_) => 1,
        FetchStage::Done => 0,
    }
}

/// Every look-up comes to an end: no run of events is longer than the number that the look-up
/// may still take in, whatever the carrier and the proxies do.
pub proof fn law_look_ups_end(state: FetchView, events: Seq<FetchEventView>)
    requires
        state.wf(),
        fits(state, events),
    ensures
        events.len() <= events_left(state),
    decreases events.len(),
{
    if events.len() > 0 {
        law_look_ups_end(state.next(events[0]).0, events.skip(1));
    }
}

/// A look-up is over exactly when it hands out its result, and before that it waits for some
/// event.
pub proof fn law_a_result_ends_the_look_up(state: FetchView, event: FetchEventView)
    requires
        state.wf(),
        state.expects(event),
    ensures
        state.next(event).0.wf(),
        state.next(event).1 is Finish <==> state.next(event).0.stage is Done,
{
}

/// Unless the reply asks for another, a pause takes one second after the first attempt, two after
/// the second and four after the third.
pub proof fn law_pauses_double(state: FetchView, event: FetchEventView)
    requires
        state.wf(),
        state.expects(event),
        event matches FetchEventView::Replied { status, retry_after } ==> retry_after is None,
    ensures
        state.next(event).1 matches FetchActionView::Sleep(seconds) ==> seconds == (
        if state.attempt == 0 {
            1nat
        } else if state.attempt == 1 {
            2nat
        } else {
            4nat
        }),
{
    lemma2_to64();
}

/// A proxy that fails costs no attempt: the next one is tried at once, or the look-up is given up.
pub proof fn law_proxy_failures_cost_no_attempt(state: FetchView, connect: bool, timeout: bool)
    requires
        state.wf(),
        state.stage is Reply,
        state.proxies > 0,
        connect || timeout,
    ensures
        ({
            let (after, action) = state.next(FetchEventView::SendFailed { connect, timeout });
            after.attempt == state.attempt && after.switches == state.switches + 1 && (
            action is GetToken || action is Finish)
        }),
{
}

/// A result that is not the carrier's own document names the tracking number.
pub proof fn law_reports_name_the_number(state: FetchView, event: FetchEventView)
    requires
        state.wf(),
        state.expects(event),
        event !is DocumentRead || event->DocumentRead_0 is None,
    ensures
        state.next(event).1 matches FetchActionView::Finish(tree) ==> text_member(
            tree,
            "trackingNumber"@,
        ) == Some(state.number),
{
    lemma_report_keys();
}

/// The value is an object that names the number and the error, and the status where there is one,
/// and says nothing else.
pub open spec fn is_report(
    tree: JsonView,
    number: Seq<char>,
    error: Seq<char>,
    status: Option<u16>,
) -> bool {
    &&& tree is Object
    &&& forall|key: Seq<char>| #[trigger]
        tree->Object_0.contains_key(key) <==> key == "trackingNumber"@ || key == "error"@ || (key
            == "status"@ && status is Some)
    &&& tree->Object_0["trackingNumber"@] == JsonView::Text(number)
    &&& tree->Object_0["error"@] == JsonView::Text(error)
    &&& status is Some ==> tree->Object_0["status"@] is Number
        && tree->Object_0["status"@]->unsigned == Some(status->0 as u64)
}

/// A look-up begins with no attempt used up and no proxy failed, and asks for a token.
pub proof fn law_look_ups_begin_afresh(number: String, proxies: usize, r: (Fetch, FetchAction))
    requires
        call_ensures(Fetch::start, (number, proxies), r),
    ensures
        r.0@.number == number@,
        r.0@.proxies == proxies,
        r.0@.attempt == 0,
        r.0@.switches == 0,
        r.0@.stage is Token,
        r.1 is GetToken,
{
}

/// No event changes what is looked up, or how many proxies there are.
pub proof fn law_a_look_up_keeps_its_number(fetch: &mut Fetch, event: FetchEvent, r: FetchAction)
    requires
        call_ensures(Fetch::step, (fetch, event), r),
    ensures
        final(fetch)@.number == old(fetch)@.number,
        final(fetch)@.proxies == old(fetch)@.proxies,
{
}

/// With a token the carrier is asked for the number, at its own address and with the token; no
/// attempt is used up by asking.
pub proof fn law_the_carrier_is_asked_for_the_number(
    fetch: &mut Fetch,
    token: String,
    r: FetchAction,
)
    requires
        call_ensures(Fetch::step, (fetch, FetchEvent::TokenReady(token)), r),
        old(fetch)@.stage is Token,
    ensures
        r is Send,
        r->url@ == "https://apis.usps.com/tracking/v3/tracking/"@ + old(fetch)@.number
            + "?expand=DETAIL"@,
        r->authorization@ == "Bearer "@ + token@,
        final(fetch)@.stage is Reply,
        final(fetch)@.attempt == old(fetch)@.attempt,
        final(fetch)@.switches == old(fetch)@.switches,
{
}

/// The carrier's document ends the look-up and is its result, whatever it says. A body that is no
/// JSON uses an attempt up, and the next follows at once; after the third the look-up is over.
pub proof fn law_a_document_is_the_result(
    fetch: &mut Fetch,
    document: Option<Json>,
    r: FetchAction,
)
    requires
        call_ensures(Fetch::step, (fetch, FetchEvent::DocumentRead(document)), r),
        old(fetch)@.stage is Document,
    ensures
        final(fetch)@.switches == old(fetch)@.switches,
        document is Some ==> {
            &&& r is Finish && r->Finish_0@ == document->0@
            &&& final(fetch)@.stage is Done
            &&& final(fetch)@.attempt == old(fetch)@.attempt
        },
        document is None ==> final(fetch)@.attempt == old(fetch)@.attempt + 1,
        document is None && old(fetch)@.attempt < 2 ==> r is GetToken && final(fetch)@.stage is Token,
        document is None && old(fetch)@.attempt >= 2 ==> r is Finish && is_report(
            r->Finish_0@,
            old(fetch)@.number,
            "Max retries exceeded"@,
            None,
        ) && final(fetch)@.stage is Done,
{
    lemma_report_keys();
}

/// What a reply leads to goes by its status alone: the body of a success is read as a document, a
/// number that is not found is reported as such at once, a status that says to try again later uses
/// an attempt up and leads to a pause, and for any other the text is read.
pub proof fn law_the_status_decides(
    fetch: &mut Fetch,
    status: u16,
    retry_after: Option<String>,
    r: FetchAction,
)
    requires
        call_ensures(Fetch::step, (fetch, FetchEvent::Replied { status, retry_after }), r),
        old(fetch)@.stage is Reply,
    ensures
        final(fetch)@.switches == old(fetch)@.switches,
        ({
            let later = status == 429 || status == 500 || status == 502 || status == 503 || status
                == 504;
            &&& status == 200 ==> r is ReadDocument && final(fetch)@.stage is Document
            &&& status == 404 ==> r is Finish && is_report(
                r->Finish_0@,
                old(fetch)@.number,
                "Not Found"@,
                Some(404u16),
            ) && final(fetch)@.stage is Done
            &&& later ==> r is Sleep && final(fetch)@.stage is Pause && final(fetch)@.attempt == old(fetch)@.attempt + 1
            &&& !later ==> final(fetch)@.attempt == old(fetch)@.attempt
            &&& status != 200 && status != 404 && !later ==> r is ReadMessage
                && final(fetch)@.stage == FetchStage::Message(status)
        }),
{
    lemma_report_keys();
}

/// A reply that says to try again later is waited for as long as it asks, where it asks for a whole
/// number of seconds; else for one second after the first attempt, two after the second and four
/// after the third.
pub proof fn law_replies_are_waited_for_as_they_ask(
    fetch: &mut Fetch,
    status: u16,
    retry_after: Option<String>,
    r: FetchAction,
)
    requires
        call_ensures(Fetch::step, (fetch, FetchEvent::Replied { status, retry_after }), r),
        old(fetch)@.stage is Reply,
        old(fetch)@.attempt < 3,
        status == 429 || status == 500 || status == 502 || status == 503 || status == 504,
    ensures
        r is Sleep,
        r->Sleep_0 == (if retry_after is Some && unsigned_number(
            retry_after->0@,
            18446744073709551615,
        ) is Some {
            unsigned_number(retry_after->0@, 18446744073709551615)->0 as int
        } else if old(fetch)@.attempt == 0 {
            1
        } else if old(fetch)@.attempt == 1 {
            2
        } else {
            4
        }),
{
    lemma2_to64();
}

/// The text of a reply with any other status ends the look-up, and is reported with the status.
pub proof fn law_a_message_is_reported(
    fetch: &mut Fetch,
    status: u16,
    text: String,
    r: FetchAction,
)
    requires
        call_ensures(Fetch::step, (fetch, FetchEvent::MessageRead(text)), r),
        old(fetch)@.stage == FetchStage::Message(status),
    ensures
        r is Finish && is_report(r->Finish_0@, old(fetch)@.number, text@, Some(status)),
        final(fetch)@.stage is Done,
{
    lemma_report_keys();
}

/// Without a token an attempt is used up, and so it is when no reply came, unless a proxy is to
/// blame: a pause of one, two or four seconds follows.
pub proof fn law_failures_cost_an_attempt(
    fetch: &mut Fetch,
    event: FetchEvent,
    r: FetchAction,
)
    requires
        call_ensures(Fetch::step, (fetch, event), r),
        old(fetch)@.attempt < 3,
        (event is TokenFailed && old(fetch)@.stage is Token) || (event is SendFailed && old(fetch)@.stage is Reply && (old(fetch)@.proxies == 0 || (!event->connect && !event->timeout))),
    ensures
        r is Sleep,
        r->Sleep_0 == (if old(fetch)@.attempt == 0 {
            1int
        } else if old(fetch)@.attempt == 1 {
            2
        } else {
            4
        }),
        final(fetch)@.stage is Pause,
        final(fetch)@.attempt == old(fetch)@.attempt + 1,
        final(fetch)@.switches == old(fetch)@.switches,
{
    lemma2_to64();
}

/// With proxies, a connection that was not made or took too long costs no attempt: the next proxy
/// is tried at once, until as many have failed as there are, and ten at least.
pub proof fn law_a_failed_proxy_is_switched(
    fetch: &mut Fetch,
    connect: bool,
    timeout: bool,
    r: FetchAction,
)
    requires
        call_ensures(Fetch::step, (fetch, FetchEvent::SendFailed { connect, timeout }), r),
        old(fetch)@.stage is Reply,
        old(fetch)@.attempt < 3,
        old(fetch)@.proxies > 0,
        connect || timeout,
    ensures
        final(fetch)@.attempt == old(fetch)@.attempt,
        final(fetch)@.switches == old(fetch)@.switches + 1,
        ({
            let failed = old(fetch)@.switches + 1;
            if failed >= 10 && failed >= old(fetch)@.proxies {
                r is Finish && is_report(
                    r->Finish_0@,
                    old(fetch)@.number,
                    "All proxies unavailable"@,
                    None,
                ) && final(fetch)@.stage is Done
            } else {
                r is GetToken && final(fetch)@.stage is Token
            }
        }),
{
    lemma_report_keys();
}

/// After a pause the next attempt begins; after the third there is none.
pub proof fn law_three_attempts_are_made(fetch: &mut Fetch, r: FetchAction)
    requires
        call_ensures(Fetch::step, (fetch, FetchEvent::Woke), r),
        old(fetch)@.stage is Pause,
    ensures
        final(fetch)@.attempt == old(fetch)@.attempt,
        final(fetch)@.switches == old(fetch)@.switches,
        old(fetch)@.attempt < 3 ==> r is GetToken && final(fetch)@.stage is Token,
        old(fetch)@.attempt >= 3 ==> r is Finish && is_report(
            r->Finish_0@,
            old(fetch)@.number,
            "Max retries exceeded"@,
            None,
        ) && final(fetch)@.stage is Done,
{
    lemma_report_keys();
}

/// A look-up that is not over waits for an event, and takes in each event of its kind.
pub proof fn law_look_ups_take_in_what_they_wait_for(
    state: FetchView,
    token: Seq<char>,
    status: u16,
    retry_after: Option<Seq<char>>,
    connect: bool,
    timeout: bool,
    document: Option<JsonView>,
    text: Seq<char>,
)
    ensures
        state.stage is Token ==> state.expects(FetchEventView::TokenReady(token)) && state.expects(
            FetchEventView::TokenFailed,
        ),
        state.stage is Reply ==> state.expects(FetchEventView::Replied { status, retry_after })
            && state.expects(FetchEventView::SendFailed { connect, timeout }),
        state.stage is Document ==> state.expects(FetchEventView::DocumentRead(document)),
        state.stage is Message ==> state.expects(FetchEventView::MessageRead(text)),
        state.stage is Pause ==> state.expects(FetchEventView::Woke),
{
}

} // verus!
