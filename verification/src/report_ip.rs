//! Finding out the machine's public address, and reporting it.
//!
//! [`IpReport`] decides and the caller acts: it performs the [`IpAction`] that it was handed and
//! reports back with an [`IpEvent`].

use vstd::prelude::*;
use vstd::string::*;

use crate::numbers::MYSQL_HOST;
use crate::text::{is_white_space, lemma_trimmed_middle, trim, trimmed};

verus! {

/// How many services tell a caller its address.
pub const SERVICES: usize = 3;

/// What the report waits for.
#[derive(Clone, Copy, PartialEq, Eq, Structural, Debug)]
pub enum IpStage {
    /// The status of a service's reply.
    Status,
    /// The body of a service's reply.
    Body,
    /// The end of the report.
    Report,
    /// Nothing: it is over.
    Done,
}

/// A report of the machine's public address.
pub struct IpReport {
    /// Which service was asked last.
    service: usize,
    stage: IpStage,
}

pub ghost struct IpReportView {
    pub service: nat,
    pub stage: IpStage,
}

/// What happened.
pub enum IpEvent {
    /// No reply came.
    Failed,
    /// A reply came, with its status.
    Status(u16),
    /// The body was read; nothing where that failed.
    Body(Option<String>),
    /// The report was sent, or sending it failed.
    Reported,
}

/// What to do next.
pub enum IpAction {
    /// Ask the service at the address.
    Query(String),
    ReadBody,
    /// Report the address `ip` at the address `url`.
    Report { url: String, ip: String },
    /// Stop: no service told the address.
    Skip,
    /// Stop: the report was sent.
    Stop,
}

pub ghost enum IpEventView {
    Failed,
    Status(u16),
    Body(Option<Seq<char>>),
    Reported,
}

pub ghost enum IpActionView {
    Query(Seq<char>),
    ReadBody,
    Report { url: Seq<char>, ip: Seq<char> },
    Skip,
    Stop,
}

impl View for IpReport {
    type V = IpReportView;

    closed spec fn view(&self) -> IpReportView {
        IpReportView { service: self.service as nat, stage: self.stage }
    }
}

impl View for IpEvent {
    type V = IpEventView;

    open spec fn view(&self) -> IpEventView {
        match self {
            IpEvent::Failed => IpEventView::Failed,
            IpEvent::Status(status) => IpEventView::Status(*status),
            IpEvent::Body(body) => IpEventView::Body(
                match body {
                    Some(text) => Some(text@),
                    None => None,
                },
            ),
            IpEvent::Reported => IpEventView::Reported,
        }
    }
}

impl View for IpAction {
    type V = IpActionView;

    open spec fn view(&self) -> IpActionView {
        match self {
            IpAction::Query(url) => IpActionView::Query(url@),
            IpAction::ReadBody => IpActionView::ReadBody,
            IpAction::Report { url, ip } => IpActionView::Report { url: url@, ip: ip@ },
            IpAction::Skip => IpActionView::Skip,
            IpAction::Stop => IpActionView::Stop,
        }
    }
}

/// The address of a service.
pub open spec fn service_address(service: int) -> Seq<char> {
    if service == 0 {
        "https://api.ipify.org"@
    } else if service == 1 {
        "https://ifconfig.me/ip"@
    } else {
        "https://icanhazip.com"@
    }
}

/// The address that the machine's own is reported at.
pub open spec fn report_address() -> Seq<char> {
    "http://"@ + MYSQL_HOST@ + "/now_ip"@
}

/// Asks a service, unless all were asked.
pub open spec fn asked(service: nat) -> (IpReportView, IpActionView) {
    if service < SERVICES {
        (
            IpReportView { service, stage: IpStage::Status },
            IpActionView::Query(service_address(service as int)),
        )
    } else {
        (IpReportView { service, stage: IpStage::Done }, IpActionView::Skip)
    }
}

/// Asks a service, unless all were asked.
fn ask(service: usize) -> (r: (IpReport, IpAction))
    requires
        service <= SERVICES,
    ensures
        (r.0@, r.1@) == asked(service as nat),
{
    if service < SERVICES {
        let url: String = if service == 0 {
            "https://api.ipify.org".to_string()
        } else if service == 1 {
            "https://ifconfig.me/ip".to_string()
        } else {
            "https://icanhazip.com".to_string()
        };
        (IpReport { service, stage: IpStage::Status }, IpAction::Query(url))
    } else {
        (IpReport { service, stage: IpStage::Done }, IpAction::Skip)
    }
}

impl IpReportView {
    /// What holds of every report between two events.
    pub open spec fn wf(self) -> bool {
        self.service <= SERVICES && (self.stage !is Done ==> self.service < SERVICES)
    }

    /// Whether the event answers what the report waits for.
    pub open spec fn expects(self, event: IpEventView) -> bool {
        match event {
            IpEventView::Failed => self.stage is Status,
            IpEventView::Status(_) => self.stage is Status,
            IpEventView::Body(_) => self.stage is Body,
            IpEventView::Reported => self.stage is Report,
        }
    }

    /// The state and the action that follow an event. The first service that answers with a
    /// status of 200 and more than white space tells the address.
    pub open spec fn next(self, event: IpEventView) -> (IpReportView, IpActionView) {
        match event {
            IpEventView::Failed => asked(self.service + 1),
            IpEventView::Status(status) => if status == 200 {
                (IpReportView { stage: IpStage::Body, ..self }, IpActionView::ReadBody)
            } else {
                asked(self.service + 1)
            },
            IpEventView::Body(body) => match body {
                Some(text) => if trimmed(text).len() > 0 {
                    (
                        IpReportView { stage: IpStage::Report, ..self },
                        IpActionView::Report { url: report_address(), ip: trimmed(text) },
                    )
                } else {
                    asked(self.service + 1)
                },
                None => asked(self.service + 1),
            },
            IpEventView::Reported => (
                IpReportView { stage: IpStage::Done, ..self },
                IpActionView::Stop,
            ),
        }
    }
}

impl IpReport {
    /// Starts to find the address out.
    pub fn start() -> (r: (IpReport, IpAction))
        ensures
            (r.0@, r.1@) == asked(0),
            r.0@.wf(),
    {
        ask(0)
    }

    /// What it waits for.
    pub fn stage(&self) -> (r: IpStage)
        ensures
            r == self@.stage,
    {
        self.stage
    }

    /// Takes in what happened, and says what to do next.
    pub fn step(self, event: IpEvent) -> (r: (IpReport, IpAction))
        requires
            self@.wf(),
            self@.expects(event@),
        ensures
            (r.0@, r.1@) == self@.next(event@),
            r.0@.wf(),
    {
        match event {
            IpEvent::Failed => ask(self.service + 1),
            IpEvent::Status(status) => if status == 200 {
                (IpReport { service: self.service, stage: IpStage::Body }, IpAction::ReadBody)
            } else {
                ask(self.service + 1)
            },
            IpEvent::Body(body) => match body {
                Some(text) => {
                    let ip = trim(text.as_str());
                    if ip.as_str().is_empty() {
                        ask(self.service + 1)
                    } else {
                        let mut url = "http://".to_string();
                        url.append(MYSQL_HOST);
                        url.append("/now_ip");
                        (
                            IpReport { service: self.service, stage: IpStage::Report },
                            IpAction::Report { url, ip },
                        )
                    }
                },
                None => ask(self.service + 1),
            },
            IpEvent::Reported => (
                IpReport { service: self.service, stage: IpStage::Done },
                IpAction::Stop,
            ),
        }
    }
}

/// Whether the events are ones that the report waits for, each when it comes.
pub open spec fn fits(state: IpReportView, events: Seq<IpEventView>) -> bool
    decreases events.len(),
{
    events.len() == 0 || (state.expects(events[0]) && fits(
        state.next(events[0]).0,
        events.skip(1),
    ))
}

/// How many requests to the services a report sends in a run of events.
pub open spec fn queries(state: IpReportView, events: Seq<IpEventView>) -> nat
    decreases events.len(),
{
    if events.len() == 0 {
        0
    } else {
        let (after, action) = state.next(events[0]);
        (if action is Query {
            1nat
        } else {
            0nat
        }) + queries(after, events.skip(1))
    }
}

/// No service is asked twice: from any point on, a report asks at most the services behind the
/// one that it asked last.
pub proof fn law_services_are_asked_once(state: IpReportView, events: Seq<IpEventView>)
    requires
        state.wf(),
        fits(state, events),
    ensures
        state.stage is Done ==> queries(state, events) == 0,
        state.stage !is Done ==> state.service + queries(state, events) < SERVICES,
    decreases events.len(),
{
    if events.len() > 0 {
        law_services_are_asked_once(state.next(events[0]).0, events.skip(1));
    }
}

/// A report begins with the first service.
pub proof fn law_the_first_service_is_asked_first(r: (IpReport, IpAction))
    requires
        call_ensures(IpReport::start, (), r),
    ensures
        r.0@.service == 0,
        r.0@.stage is Status,
        r.1 is Query && r.1->Query_0@ == "https://api.ipify.org"@,
{
}

/// A service that does not answer, answers with a status other than 200, or tells nothing but white
/// space is followed by the next; after the third there is none, and nothing is reported.
pub proof fn law_a_service_that_fails_is_followed_by_the_next(
    report: IpReport,
    event: IpEvent,
    r: (IpReport, IpAction),
)
    requires
        call_ensures(IpReport::step, (report, event), r),
        report@.service < 3,
        ({
            ||| event is Failed && report@.stage is Status
            ||| event is Status && event->Status_0 != 200 && report@.stage is Status
            ||| event is Body && report@.stage is Body && (event->Body_0 is None || forall|i: int|
                0 <= i < event->Body_0->0@.len() ==> is_white_space(
                    #[trigger] event->Body_0->0@[i],
                ))
        }),
    ensures
        report@.service == 0 ==> r.1 is Query && r.1->Query_0@ == "https://ifconfig.me/ip"@,
        report@.service == 1 ==> r.1 is Query && r.1->Query_0@ == "https://icanhazip.com"@,
        report@.service < 2 ==> r.0@.stage is Status,
        report@.service == 2 ==> r.1 is Skip && r.0@.stage is Done,
        r.0@.service == report@.service + 1,
{
    if event is Body && event->Body_0 is Some {
        let text = event->Body_0->0@;
        let none = Seq::<char>::empty();
        lemma_trimmed_middle(text, none, none);
        assert(text + none + none =~= text);
    }
}

/// The first service that answers with the status 200 and more than white space tells the address:
/// what it says, without the white space at its ends, is reported, and then the report is over.
pub proof fn law_the_address_told_is_reported(
    report: IpReport,
    front: Seq<char>,
    address: Seq<char>,
    back: Seq<char>,
    text: String,
    event: IpEvent,
    r: (IpReport, IpAction),
)
    requires
        call_ensures(IpReport::step, (report, event), r),
        report@.service < 3,
        text@ == front + address + back,
        forall|i: int| 0 <= i < front.len() ==> is_white_space(#[trigger] front[i]),
        forall|i: int| 0 <= i < back.len() ==> is_white_space(#[trigger] back[i]),
        address.len() > 0,
        !is_white_space(address[0]),
        !is_white_space(address[address.len() - 1]),
    ensures
        report@.stage is Status && event == IpEvent::Status(200) ==> r.1 is ReadBody && r.0@.stage
            is Body && r.0@.service == report@.service,
        report@.stage is Body && event == IpEvent::Body(Some(text)) ==> r.1 is Report && r.1->ip@
            == address && r.1->url@ == "http://43.128.111.219:8082/now_ip"@ && r.0@.stage is Report
            && r.0@.service == report@.service,
        report@.stage is Report && event is Reported ==> r.1 is Stop && r.0@.stage is Done,
{
    lemma_trimmed_middle(front, address, back);
    reveal_strlit("http://");
    reveal_strlit("43.128.111.219:8082");
    reveal_strlit("/now_ip");
    reveal_strlit("http://43.128.111.219:8082/now_ip");
    assert("http://43.128.111.219:8082/now_ip"@ =~= "http://"@ + "43.128.111.219:8082"@
        + "/now_ip"@);
}

/// A report takes in each event of the kind that it waits for.
pub proof fn law_reports_take_in_what_they_wait_for(
    state: IpReportView,
    status: u16,
    body: Option<Seq<char>>,
)
    ensures
        state.stage is Status ==> state.expects(IpEventView::Failed) && state.expects(
            IpEventView::Status(status),
        ),
        state.stage is Body ==> state.expects(IpEventView::Body(body)),
        state.stage is Report ==> state.expects(IpEventView::Reported),
{
}

} // verus!
