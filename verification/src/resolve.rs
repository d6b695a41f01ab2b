//! The steps of a lookup.
//!
//! A lookup is one GET request and, where the response is one of success,
//! one reading of its body. This module sends and reads nothing. It holds
//! the state between those two and decides, from what the caller reports of
//! each, what is to be done next and how the lookup ends.

use crate::address::{address_of, failed, found, outcome_view, OutcomeView, PublicAddress};
use crate::error::{lemma_parse_error_quotes_text, occurs_in, ResolutionError, ResolutionErrorView};
use crate::ipv4::{is_ipv4_text, INVALID_IPV4_SYNTAX};
use vstd::prelude::*;

verus! {

/// The echo service that is asked where the caller names none.
pub const DEFAULT_ENDPOINT: &'static str = "https://ifconfig.co/";

/// Whether `status` is a status of success.
pub open spec fn is_success(status: u16) -> bool {
    200 <= status <= 299
}

/// What came of the GET request.
#[derive(Debug)]
pub enum Reply {
    /// No response was had. Holds what the HTTP client said of the cause.
    Failed(String),
    /// A response came. Holds its status code and what the HTTP client said
    /// of that status.
    Status { code: u16, message: String },
}

/// What came of reading the body of the response.
#[derive(Debug)]
pub enum Body {
    /// The body could not be read or decoded. Holds what the HTTP client
    /// said of the cause.
    Failed(String),
    /// The whole body as text.
    Text(String),
}

/// What a [`Reply`] holds.
pub enum ReplyView {
    Failed(Seq<char>),
    Status { code: u16, message: Seq<char> },
}

/// What a [`Body`] holds.
pub enum BodyView {
    Failed(Seq<char>),
    Text(Seq<char>),
}

impl View for Reply {
    type V = ReplyView;

    open spec fn view(&self) -> ReplyView {
        match self {
            Reply::Failed(cause) => ReplyView::Failed(cause@),
            Reply::Status { code, message } => ReplyView::Status { code: *code, message: message@ },
        }
    }
}

impl View for Body {
    type V = BodyView;

    open spec fn view(&self) -> BodyView {
        match self {
            Body::Failed(cause) => BodyView::Failed(cause@),
            Body::Text(text) => BodyView::Text(text@),
        }
    }
}

/// A lookup that waits for the response to its request. The caller owes it
/// one GET request to [`AwaitingResponse::url`].
#[derive(Debug)]
pub struct AwaitingResponse {
    url: String,
}

/// A lookup that has seen a response of success and waits for its body. The
/// caller owes it one reading of that body.
#[derive(Debug)]
pub struct AwaitingBody {
    status: u16,
}

/// What a lookup asks of its caller after the response.
#[derive(Debug)]
pub enum Step {
    /// Read the body of the response and hand it to
    /// [`AwaitingBody::on_body`].
    ReadBody(AwaitingBody),
    /// Nothing more: the lookup has ended, and this is its end.
    Finished(Result<PublicAddress, ResolutionError>),
}

/// What a [`Step`] holds; for a body that is to be read, the status that
/// allowed it.
pub enum StepView {
    ReadBody(u16),
    Finished(OutcomeView),
}

impl View for AwaitingResponse {
    type V = Seq<char>;

    /// The address that the request goes to.
    closed spec fn view(&self) -> Seq<char> {
        self.url@
    }
}

impl View for AwaitingBody {
    type V = u16;

    /// The status of the response whose body is waited for.
    closed spec fn view(&self) -> u16 {
        self.status
    }
}

impl View for Step {
    type V = StepView;

    open spec fn view(&self) -> StepView {
        match self {
            Step::ReadBody(waiting) => StepView::ReadBody(waiting@),
            Step::Finished(outcome) => StepView::Finished(outcome_view(*outcome)),
        }
    }
}

/// What follows the response: a failure to get one ends the lookup, and so
/// does a status that is not one of success; after one of success the body
/// is read.
pub open spec fn after_response(reply: ReplyView) -> StepView {
    match reply {
        ReplyView::Failed(cause) => StepView::Finished(
            failed(ResolutionErrorView::TransportError(cause)),
        ),
        ReplyView::Status { code, message } => if is_success(code) {
            StepView::ReadBody(code)
        } else {
            StepView::Finished(
                failed(ResolutionErrorView::HttpStatusError { status: code, message }),
            )
        },
    }
}

/// What follows the body: a failure to read it is a failure of transport,
/// and a text is the address that it is or the error that says it is none.
pub open spec fn after_body(body: BodyView) -> OutcomeView {
    match body {
        BodyView::Failed(cause) => failed(ResolutionErrorView::TransportError(cause)),
        BodyView::Text(text) => address_of(text),
    }
}

/// What an echo service does in one lookup, as the caller sees it: what comes
/// of the request, and what would come of reading the body.
pub struct Exchange {
    pub reply: ReplyView,
    pub body: BodyView,
}

/// How a lookup ends against a service that behaves as `exchange` says. The
/// body counts only after a response of success.
pub open spec fn outcome(exchange: Exchange) -> OutcomeView {
    match after_response(exchange.reply) {
        StepView::Finished(end) => end,
        StepView::ReadBody(_) => after_body(exchange.body),
    }
}

/// How a lookup that asks `url` ends in a network where the service at each
/// address behaves as `net` says.
pub open spec fn outcome_at(url: Seq<char>, net: spec_fn(Seq<char>) -> Exchange) -> OutcomeView {
    outcome(net(url))
}

/// Starts a lookup at the default echo service.
pub fn get_public_ip_address() -> (lookup: AwaitingResponse)
    ensures
        lookup@ == DEFAULT_ENDPOINT@,
{
    get_public_ip_address_with_override(DEFAULT_ENDPOINT)
}

/// Starts a lookup at the echo service at `host`, which is taken as it
/// stands. The service must answer a GET request with a status of success
/// and the IPv4 address as text, and nothing else.
pub fn get_public_ip_address_with_override(host: &str) -> (lookup: AwaitingResponse)
    ensures
        lookup@ == host@,
{
    AwaitingResponse { url: String::from_str(host) }
}

impl AwaitingResponse {
    /// The address that the GET request goes to.
    pub fn url(&self) -> (url: &str)
        ensures
            url@ == self@,
    {
        self.url.as_str()
    }

    /// Takes what came of the request and says how the lookup goes on.
    pub fn on_response(self, reply: Reply) -> (step: Step)
        ensures
            step@ == after_response(reply@),
    {
        match reply {
            Reply::Failed(cause) => Step::Finished(Err(ResolutionError::TransportError(cause))),
            Reply::Status { code, message } => {
                if 200 <= code && code <= 299 {
                    Step::ReadBody(AwaitingBody { status: code })
                } else {
                    Step::Finished(Err(ResolutionError::HttpStatusError { status: code, message }))
                }
            },
        }
    }
}

impl AwaitingBody {
    #[verifier::type_invariant]
    spec fn allowed(self) -> bool {
        is_success(self.status)
    }

    /// The status of the response whose body is waited for.
    pub fn status(&self) -> (status: u16)
        ensures
            status == self@,
            is_success(status),
    {
        proof {
            use_type_invariant(self);
        }
        self.status
    }

    /// Takes what came of reading the body and gives the end of the lookup.
    pub fn on_body(self, body: Body) -> (outcome: Result<PublicAddress, ResolutionError>)
        ensures
            outcome_view(outcome) == after_body(body@),
            outcome matches Ok(address) ==> address.well_formed(),
    {
        match body {
            Body::Failed(cause) => Err(ResolutionError::TransportError(cause)),
            Body::Text(text) => PublicAddress::from_text(text),
        }
    }
}

/// A response of success whose body is an address gives that address, with
/// the text of the body as it came.
pub proof fn lemma_address_round_trip(code: u16, message: Seq<char>, text: Seq<char>)
    requires
        is_success(code),
        is_ipv4_text(text),
    ensures
        outcome(
            Exchange { reply: ReplyView::Status { code, message }, body: BodyView::Text(text) },
        ) == found(text),
{
}

/// A response whose status is not one of success ends the lookup with that
/// status, whatever the body is and whether or not it can be read.
pub proof fn lemma_status_failure(code: u16, message: Seq<char>, body: BodyView)
    requires
        !is_success(code),
    ensures
        after_response(ReplyView::Status { code, message }) is Finished,
        outcome(Exchange { reply: ReplyView::Status { code, message }, body }) == failed(
            ResolutionErrorView::HttpStatusError { status: code, message },
        ),
{
}

/// A response of success whose body is no address ends the lookup with an
/// error that holds the body and whose words quote it.
pub proof fn lemma_unparseable_body(code: u16, message: Seq<char>, text: Seq<char>)
    requires
        is_success(code),
        !is_ipv4_text(text),
    ensures
        outcome(
            Exchange { reply: ReplyView::Status { code, message }, body: BodyView::Text(text) },
        ) == failed(ResolutionErrorView::ParseError { text, diagnostic: INVALID_IPV4_SYNTAX@ }),
        occurs_in(
            text,
            (ResolutionErrorView::ParseError { text, diagnostic: INVALID_IPV4_SYNTAX@ }).message(),
        ),
{
    lemma_parse_error_quotes_text(text, INVALID_IPV4_SYNTAX@);
}

/// A request that brings no response ends the lookup at once, before any
/// status or body is looked at; and a body that cannot be read ends it in
/// the same way.
pub proof fn lemma_transport_failure(cause: Seq<char>, code: u16, message: Seq<char>, body: BodyView)
    ensures
        after_response(ReplyView::Failed(cause)) == StepView::Finished(
            failed(ResolutionErrorView::TransportError(cause)),
        ),
        outcome(Exchange { reply: ReplyView::Failed(cause), body }) == failed(
            ResolutionErrorView::TransportError(cause),
        ),
        is_success(code) ==> outcome(
            Exchange { reply: ReplyView::Status { code, message }, body: BodyView::Failed(cause) },
        ) == failed(ResolutionErrorView::TransportError(cause)),
{
}

/// Whatever the service does, an address that a lookup gives is an IPv4
/// address in dotted decimal, and it is the body of a response of success.
pub proof fn lemma_outcome_well_formed(exchange: Exchange)
    ensures
        outcome(exchange) matches Ok(address) ==> {
            &&& address.well_formed()
            &&& exchange.reply matches ReplyView::Status { code, .. } && is_success(code)
            &&& exchange.body == BodyView::Text(address.text())
        },
{
}

/// A lookup keeps nothing from one run to the next, and nothing but the
/// exchange that it sees decides its end: two lookups that see the same
/// exchange end alike, whenever and wherever they are made.
pub proof fn lemma_outcome_repeatable(
    first: Seq<char>,
    earlier: spec_fn(Seq<char>) -> Exchange,
    second: Seq<char>,
    later: spec_fn(Seq<char>) -> Exchange,
)
    requires
        earlier(first) == later(second),
    ensures
        outcome_at(first, earlier) == outcome_at(second, later),
{
}

/// A lookup started without a host goes as one started at the default echo
/// service by name: the two ask the same address and end alike in every
/// network.
pub proof fn lemma_default_delegates(
    default: AwaitingResponse,
    named: AwaitingResponse,
    net: spec_fn(Seq<char>) -> Exchange,
)
    requires
        default@ == DEFAULT_ENDPOINT@,
        named@ == DEFAULT_ENDPOINT@,
    ensures
        default@ == named@,
        outcome_at(default@, net) == outcome_at(named@, net),
{
}

} // verus!
