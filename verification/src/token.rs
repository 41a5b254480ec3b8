//! The token with which the carrier lets requests through: whether the one at hand will do, and
//! how to get a new one.
//!
//! [`TokenStage`] decides and the caller acts: it performs the [`TokenAction`] that it was handed
//! and reports back with a [`TokenEvent`].

use vstd::prelude::*;
use vstd::string::*;

use crate::json::{json_document, text_member, Json, JsonView};

verus! {

/// The address that hands tokens out.
pub const AUTH_URL: &'static str = "https://apis.usps.com/oauth2/v3/token";

/// What a request for a token waits for.
#[derive(Clone, Copy, PartialEq, Eq, Structural, Debug)]
pub enum TokenStage {
    /// The status of the reply.
    Reply,
    /// The JSON body of a reply.
    Document,
    /// The text of a reply that hands no token out.
    Message,
    /// Nothing: it is over.
    Done,
}

/// What happened.
pub enum TokenEvent {
    /// No reply came, and why.
    SendFailed(String),
    /// A reply came, with its status.
    Replied(u16),
    DocumentRead(Json),
    /// The body could not be read as JSON, and why.
    DocumentFailed(String),
    MessageRead(String),
}

/// Why there is no token.
pub enum TokenError {
    /// The request failed.
    Request(String),
    /// The reply could not be read.
    Document(String),
    /// The carrier hands no token out.
    Denied(String),
}

/// What to do next.
pub enum TokenAction {
    /// Use the token that is at hand.
    Use(String),
    /// Post the form to the address.
    Request { url: String, form: Vec<(String, String)> },
    ReadDocument,
    ReadMessage,
    /// Keep the token, and use it.
    Keep(String),
    Fail(TokenError),
}

pub ghost enum TokenEventView {
    SendFailed(Seq<char>),
    Replied(u16),
    DocumentRead(JsonView),
    DocumentFailed(Seq<char>),
    MessageRead(Seq<char>),
}

pub ghost enum TokenErrorView {
    Request(Seq<char>),
    Document(Seq<char>),
    Denied(Seq<char>),
}

pub ghost enum TokenActionView {
    Use(Seq<char>),
    Request { url: Seq<char>, form: Seq<(Seq<char>, Seq<char>)> },
    ReadDocument,
    ReadMessage,
    Keep(Seq<char>),
    Fail(TokenErrorView),
}

impl View for TokenEvent {
    type V = TokenEventView;

    open spec fn view(&self) -> TokenEventView {
        match self {
            TokenEvent::SendFailed(detail) => TokenEventView::SendFailed(detail@),
            TokenEvent::Replied(status) => TokenEventView::Replied(*status),
            TokenEvent::DocumentRead(json) => TokenEventView::DocumentRead(json@),
            TokenEvent::DocumentFailed(detail) => TokenEventView::DocumentFailed(detail@),
            TokenEvent::MessageRead(text) => TokenEventView::MessageRead(text@),
        }
    }
}

impl View for TokenError {
    type V = TokenErrorView;

    open spec fn view(&self) -> TokenErrorView {
        match self {
            TokenError::Request(detail) => TokenErrorView::Request(detail@),
            TokenError::Document(detail) => TokenErrorView::Document(detail@),
            TokenError::Denied(text) => TokenErrorView::Denied(text@),
        }
    }
}

/// The names and values of a form's fields.
pub open spec fn fields(form: Seq<(String, String)>) -> Seq<(Seq<char>, Seq<char>)> {
    form.map_values(|field: (String, String)| (field.0@, field.1@))
}

impl View for TokenAction {
    type V = TokenActionView;

    open spec fn view(&self) -> TokenActionView {
        match self {
            TokenAction::Use(token) => TokenActionView::Use(token@),
            TokenAction::Request { url, form } => TokenActionView::Request {
                url: url@,
                form: fields(form@),
            },
            TokenAction::ReadDocument => TokenActionView::ReadDocument,
            TokenAction::ReadMessage => TokenActionView::ReadMessage,
            TokenAction::Keep(token) => TokenActionView::Keep(token@),
            TokenAction::Fail(error) => TokenActionView::Fail(error@),
        }
    }
}

/// The form that asks for a token.
pub open spec fn token_form(client_id: Seq<char>, client_secret: Seq<char>) -> Seq<
    (Seq<char>, Seq<char>),
> {
    seq![
        ("grant_type"@, "client_credentials"@),
        ("client_id"@, client_id),
        ("client_secret"@, client_secret),
        ("scope"@, "tracking"@),
    ]
}

/// The token in the reply that hands one out; an empty one where there is none.
pub open spec fn granted_token(tree: JsonView) -> Seq<char> {
    match text_member(tree, "access_token"@) {
        Some(token) => token,
        None => Seq::empty(),
    }
}

impl TokenError {
    /// The error in words.
    pub open spec fn words(self) -> Seq<char> {
        match self {
            TokenError::Request(detail) => "OAuth2 请求失败: "@ + detail@,
            TokenError::Document(detail) => "OAuth2 响应解析失败: "@ + detail@,
            TokenError::Denied(text) => "OAuth2 认证失败: "@ + text@,
        }
    }

    /// The error in words.
    pub fn message(&self) -> (r: String)
        ensures
            r@ == self.words(),
    {
        match self {
            TokenError::Request(detail) => {
                let mut out = "OAuth2 请求失败: ".to_string();
                out.append(detail.as_str());
                out
            },
            TokenError::Document(detail) => {
                let mut out = "OAuth2 响应解析失败: ".to_string();
                out.append(detail.as_str());
                out
            },
            TokenError::Denied(text) => {
                let mut out = "OAuth2 认证失败: ".to_string();
                out.append(text.as_str());
                out
            },
        }
    }
}

/// The token in the reply that hands one out; an empty one where there is none.
pub fn access_token(document: &Json) -> (r: String)
    ensures
        r@ == granted_token(document@),
{
    match document.get_str("access_token") {
        Some(token) => token,
        None => String::new(),
    }
}

impl TokenStage {
    /// Whether the event answers what the request waits for.
    pub open spec fn expects(self, event: TokenEventView) -> bool {
        match event {
            TokenEventView::SendFailed(_) => self is Reply,
            TokenEventView::Replied(_) => self is Reply,
            TokenEventView::DocumentRead(_) => self is Document,
            TokenEventView::DocumentFailed(_) => self is Document,
            TokenEventView::MessageRead(_) => self is Message,
        }
    }

    /// The stage and the action that follow an event.
    pub open spec fn next(self, event: TokenEventView) -> (TokenStage, TokenActionView) {
        match event {
            TokenEventView::SendFailed(detail) => (
                TokenStage::Done,
                TokenActionView::Fail(TokenErrorView::Request(detail)),
            ),
            TokenEventView::Replied(status) => if status == 200 {
                (TokenStage::Document, TokenActionView::ReadDocument)
            } else {
                (TokenStage::Message, TokenActionView::ReadMessage)
            },
            TokenEventView::DocumentRead(tree) => (
                TokenStage::Done,
                TokenActionView::Keep(granted_token(tree)),
            ),
            TokenEventView::DocumentFailed(detail) => (
                TokenStage::Done,
                TokenActionView::Fail(TokenErrorView::Document(detail)),
            ),
            TokenEventView::MessageRead(text) => (
                TokenStage::Done,
                TokenActionView::Fail(TokenErrorView::Denied(text)),
            ),
        }
    }

    /// The stage and the action with which the way to a token begins.
    pub open spec fn begun(
        at_hand: Option<Seq<char>>,
        fresh: bool,
        client_id: Seq<char>,
        client_secret: Seq<char>,
    ) -> (TokenStage, TokenActionView) {
        match at_hand {
            Some(token) if fresh => (TokenStage::Done, TokenActionView::Use(token)),
            _ => (
                TokenStage::Reply,
                TokenActionView::Request {
                    url: AUTH_URL@,
                    form: token_form(client_id, client_secret),
                },
            ),
        }
    }

    /// Starts to get a token: the one at hand, where there is one and it is fresh, else a new
    /// one.
    pub fn get_valid_token(
        at_hand: Option<String>,
        fresh: bool,
        client_id: &str,
        client_secret: &str,
    ) -> (r: (TokenStage, TokenAction))
        ensures
            (r.0, r.1@) == TokenStage::begun(
                match at_hand {
                    Some(token) => Some(token@),
                    None => None,
                },
                fresh,
                client_id@,
                client_secret@,
            ),
    {
        if fresh {
            match at_hand {
                Some(token) => {
                    return (TokenStage::Done, TokenAction::Use(token));
                },
                None => {},
            }
        }
        let mut form: Vec<(String, String)> = Vec::new();
        form.push(("grant_type".to_string(), "client_credentials".to_string()));
        form.push(("client_id".to_string(), client_id.to_string()));
        form.push(("client_secret".to_string(), client_secret.to_string()));
        form.push(("scope".to_string(), "tracking".to_string()));
        assert(fields(form@) =~= token_form(client_id@, client_secret@));
        (TokenStage::Reply, TokenAction::Request { url: AUTH_URL.to_string(), form })
    }

    /// Takes in what happened, and says what to do next.
    pub fn step(self, event: TokenEvent) -> (r: (TokenStage, TokenAction))
        requires
            self.expects(event@),
        ensures
            (r.0, r.1@) == self.next(event@),
    {
        match event {
            TokenEvent::SendFailed(detail) => (
                TokenStage::Done,
                TokenAction::Fail(TokenError::Request(detail)),
            ),
            TokenEvent::Replied(status) => if status == 200 {
                (TokenStage::Document, TokenAction::ReadDocument)
            } else {
                (TokenStage::Message, TokenAction::ReadMessage)
            },
            TokenEvent::DocumentRead(json) => (
                TokenStage::Done,
                TokenAction::Keep(access_token(&json)),
            ),
            TokenEvent::DocumentFailed(detail) => (
                TokenStage::Done,
                TokenAction::Fail(TokenError::Document(detail)),
            ),
            TokenEvent::MessageRead(text) => (
                TokenStage::Done,
                TokenAction::Fail(TokenError::Denied(text)),
            ),
        }
    }
}

/// A request for a token ends after at most two events, with a token to keep or with an error.
pub proof fn law_requests_for_a_token_end(
    stage: TokenStage,
    first: TokenEventView,
    second: TokenEventView,
)
    requires
        stage.expects(first),
        stage.next(first).0.expects(second),
    ensures
        stage is Reply,
        stage.next(first).0.next(second).0 is Done,
        stage.next(first).0.next(second).1 is Keep || stage.next(first).0.next(second).1 is Fail,
{
}

/// A token that was handed out to be kept is used, without another request, for as long as it is
/// fresh, and once it is stale a new one is requested.
pub proof fn law_kept_tokens_are_used_while_fresh(
    stage: TokenStage,
    event: TokenEventView,
    token: Seq<char>,
    client_id: Seq<char>,
    client_secret: Seq<char>,
)
    requires
        stage.expects(event),
        stage.next(event).1 == TokenActionView::Keep(token),
    ensures
        TokenStage::begun(Some(token), true, client_id, client_secret) == (
            TokenStage::Done,
            TokenActionView::Use(token),
        ),
        TokenStage::begun(Some(token), false, client_id, client_secret) == (
            TokenStage::Reply,
            TokenActionView::Request {
                url: AUTH_URL@,
                form: token_form(client_id, client_secret),
            },
        ),
{
}

/// One way to a token: whether the token at hand was fresh when it began, and what happened on it.
pub ghost struct TokenCall {
    pub fresh: bool,
    pub events: Seq<TokenEventView>,
}

/// What a way to a token comes to that stands at a stage, with the action that was handed out
/// last and the events still to come.
pub open spec fn outcome(
    stage: TokenStage,
    action: TokenActionView,
    events: Seq<TokenEventView>,
) -> TokenActionView
    decreases events.len(),
{
    if events.len() == 0 {
        action
    } else {
        let (after, handed) = stage.next(events[0]);
        outcome(after, handed, events.skip(1))
    }
}

/// Whether the events are ones that the way to a token waits for, each when it comes, and bring
/// it to its end.
pub open spec fn runs_out(stage: TokenStage, events: Seq<TokenEventView>) -> bool
    decreases events.len(),
{
    if events.len() == 0 {
        stage is Done
    } else {
        stage.expects(events[0]) && runs_out(stage.next(events[0]).0, events.skip(1))
    }
}

/// How a call ends where the given token is at hand.
pub open spec fn call_outcome(
    at_hand: Option<Seq<char>>,
    call: TokenCall,
    client_id: Seq<char>,
    client_secret: Seq<char>,
) -> TokenActionView {
    let (stage, action) = TokenStage::begun(at_hand, call.fresh, client_id, client_secret);
    outcome(stage, action, call.events)
}

/// The token at hand after a call: the one that it was told to keep, else the one before.
pub open spec fn held_after(
    at_hand: Option<Seq<char>>,
    call: TokenCall,
    client_id: Seq<char>,
    client_secret: Seq<char>,
) -> Option<Seq<char>> {
    match call_outcome(at_hand, call, client_id, client_secret) {
        TokenActionView::Keep(token) => Some(token),
        _ => at_hand,
    }
}

/// Whether a call runs its course where the given token is at hand.
pub open spec fn is_whole(
    at_hand: Option<Seq<char>>,
    call: TokenCall,
    client_id: Seq<char>,
    client_secret: Seq<char>,
) -> bool {
    runs_out(TokenStage::begun(at_hand, call.fresh, client_id, client_secret).0, call.events)
}

/// The token at hand after a number of calls.
pub open spec fn held_after_all(
    at_hand: Option<Seq<char>>,
    calls: Seq<TokenCall>,
    client_id: Seq<char>,
    client_secret: Seq<char>,
) -> Option<Seq<char>>
    decreases calls.len(),
{
    if calls.len() == 0 {
        at_hand
    } else {
        held_after(
            held_after_all(at_hand, calls.drop_last(), client_id, client_secret),
            calls.last(),
            client_id,
            client_secret,
        )
    }
}

/// One request serves every call until the token is stale: after a call that kept a token, the
/// calls that find it fresh all use it and take in no event, so that none of them sends a
/// request, and the token stays at hand.
pub proof fn law_one_request_serves_all_calls_until_stale(
    at_hand: Option<Seq<char>>,
    call: TokenCall,
    token: Seq<char>,
    calls: Seq<TokenCall>,
    client_id: Seq<char>,
    client_secret: Seq<char>,
)
    requires
        call_outcome(at_hand, call, client_id, client_secret) == TokenActionView::Keep(token),
        forall|i: int|
            0 <= i < calls.len() ==> (#[trigger] calls[i]).fresh && is_whole(
                held_after_all(Some(token), calls.take(i), client_id, client_secret),
                calls[i],
                client_id,
                client_secret,
            ),
    ensures
        held_after(at_hand, call, client_id, client_secret) == Some(token),
        held_after_all(Some(token), calls, client_id, client_secret) == Some(token),
        forall|i: int|
            0 <= i < calls.len() ==> (#[trigger] calls[i]).events.len() == 0 && call_outcome(
                Some(token),
                calls[i],
                client_id,
                client_secret,
            ) == TokenActionView::Use(token),
    decreases calls.len(),
{
    if calls.len() > 0 {
        let front = calls.drop_last();
        assert forall|i: int| 0 <= i < front.len() implies (#[trigger] front[i]).fresh && is_whole(
            held_after_all(Some(token), front.take(i), client_id, client_secret),
            front[i],
            client_id,
            client_secret,
        ) by {
            assert(front[i] == calls[i]);
            assert(front.take(i) =~= calls.take(i));
        }
        law_one_request_serves_all_calls_until_stale(
            at_hand,
            call,
            token,
            front,
            client_id,
            client_secret,
        );
        assert(calls.take(calls.len() - 1) =~= front);
        let last = calls[calls.len() - 1];
        assert(last.fresh);
        assert(last.events.len() == 0);
        assert forall|i: int| 0 <= i < calls.len() implies (#[trigger] calls[i]).events.len() == 0
            && call_outcome(Some(token), calls[i], client_id, client_secret)
            == TokenActionView::Use(token) by {
            if i < front.len() {
                assert(front[i] == calls[i]);
            }
        }
    }
}

/// The token that a token file keeps; `None` where the content is no JSON, and then nothing is
/// known of a token.
pub fn load_local_token(content: &str) -> (r: Option<Option<String>>)
    ensures
        match r {
            Some(token) => json_document(content@) matches Some(tree) && (match token {
                Some(text) => text_member(tree, "token"@) == Some(text@),
                None => text_member(tree, "token"@) is None,
            }),
            None => json_document(content@) is None,
        },
{
    match Json::parse(content) {
        Some(json) => Some(json.get_str("token")),
        None => None,
    }
}

/// A token at hand that is fresh is used as it is. Else one is requested, with the client's own
/// name and secret.
pub proof fn law_a_fresh_token_at_hand_is_used(
    at_hand: Option<String>,
    fresh: bool,
    client_id: &str,
    client_secret: &str,
    r: (TokenStage, TokenAction),
)
    requires
        call_ensures(
            TokenStage::get_valid_token,
            (at_hand, fresh, client_id, client_secret),
            r,
        ),
    ensures
        at_hand is Some && fresh ==> r.0 is Done && r.1 is Use && r.1->Use_0@ == at_hand->0@,
        at_hand is None || !fresh ==> {
            &&& r.0 is Reply
            &&& r.1 is Request
            &&& r.1->url@ == "https://apis.usps.com/oauth2/v3/token"@
            &&& r.1->form@.len() == 4
            &&& r.1->form@[0].0@ == "grant_type"@ && r.1->form@[0].1@ == "client_credentials"@
            &&& r.1->form@[1].0@ == "client_id"@ && r.1->form@[1].1@ == client_id@
            &&& r.1->form@[2].0@ == "client_secret"@ && r.1->form@[2].1@ == client_secret@
            &&& r.1->form@[3].0@ == "scope"@ && r.1->form@[3].1@ == "tracking"@
        },
{
    if at_hand is None || !fresh {
        let form = r.1->form@;
        assert(fields(form).len() == form.len());
        assert(fields(form)[0] == (form[0].0@, form[0].1@));
        assert(fields(form)[1] == (form[1].0@, form[1].1@));
        assert(fields(form)[2] == (form[2].0@, form[2].1@));
        assert(fields(form)[3] == (form[3].0@, form[3].1@));
    }
}

/// Only a reply with the status 200 can hand a token out, and the text under `access_token` in its
/// body is the token, all of it; an empty one where there is no such text. Whatever else comes
/// ends the request with an error that says why.
pub proof fn law_the_reply_hands_the_token_out(
    stage: TokenStage,
    event: TokenEvent,
    r: (TokenStage, TokenAction),
)
    requires
        call_ensures(TokenStage::step, (stage, event), r),
        stage.expects(event@),
    ensures
        event matches TokenEvent::Replied(status) ==> if status == 200 {
            r.0 is Document && r.1 is ReadDocument
        } else {
            r.0 is Message && r.1 is ReadMessage
        },
        event matches TokenEvent::DocumentRead(json) ==> {
            let tree = json@;
            let named = tree is Object && tree->Object_0.contains_key("access_token"@)
                && tree->Object_0["access_token"@] is Text;
            &&& r.0 is Done
            &&& r.1 is Keep
            &&& named ==> r.1->Keep_0@ == tree->Object_0["access_token"@]->Text_0
            &&& !named ==> r.1->Keep_0@.len() == 0
        },
        event matches TokenEvent::SendFailed(why) ==> r.0 is Done && r.1 is Fail && r.1->Fail_0
            is Request && r.1->Fail_0->Request_0@ == why@,
        event matches TokenEvent::DocumentFailed(why) ==> r.0 is Done && r.1 is Fail && r.1->Fail_0
            is Document && r.1->Fail_0->Document_0@ == why@,
        event matches TokenEvent::MessageRead(text) ==> r.0 is Done && r.1 is Fail && r.1->Fail_0
            is Denied && r.1->Fail_0->Denied_0@ == text@,
{
}

/// A request for a token takes in each event of the kind that it waits for.
pub proof fn law_requests_take_in_what_they_wait_for(status: u16, text: Seq<char>, tree: JsonView)
    ensures
        TokenStage::Reply.expects(TokenEventView::Replied(status)),
        TokenStage::Reply.expects(TokenEventView::SendFailed(text)),
        TokenStage::Document.expects(TokenEventView::DocumentRead(tree)),
        TokenStage::Document.expects(TokenEventView::DocumentFailed(text)),
        TokenStage::Message.expects(TokenEventView::MessageRead(text)),
{
}

/// The words for an error tell the three kinds apart and end with what went wrong.
pub proof fn law_errors_say_what_went_wrong(error: &TokenError, r: String)
    requires
        call_ensures(TokenError::message, (error,), r),
    ensures
        *error matches TokenError::Request(why) ==> r@ == "OAuth2 请求失败: "@ + why@,
        *error matches TokenError::Document(why) ==> r@ == "OAuth2 响应解析失败: "@ + why@,
        *error matches TokenError::Denied(text) ==> r@ == "OAuth2 认证失败: "@ + text@,
{
}

/// What a token file keeps is the text under `token` of the JSON object in it, all of it; a file
/// that holds JSON without such a text keeps none, and one that holds no JSON says nothing.
pub proof fn law_a_token_file_keeps_its_token(
    content: &str,
    read: Option<Json>,
    token: Option<Option<String>>,
)
    requires
        call_ensures(Json::parse, (content,), read),
        call_ensures(load_local_token, (content,), token),
    ensures
        read is None <==> token is None,
        read is Some ==> {
            let tree = read->0@;
            let named = tree is Object && tree->Object_0.contains_key("token"@)
                && tree->Object_0["token"@] is Text;
            &&& named <==> token->0 is Some
            &&& named ==> token->0->0@ == tree->Object_0["token"@]->Text_0
        },
{
}

} // verus!
