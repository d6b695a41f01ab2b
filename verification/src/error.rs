//! The ways in which a lookup fails.

use vstd::prelude::*;

verus! {

/// Why a lookup found no address.
#[derive(Debug, PartialEq)]
pub enum ResolutionError {
    /// No response with a body was had: the request could not be sent, or
    /// the response or its body could not be read. Holds what the HTTP
    /// client said of the cause.
    TransportError(String),
    /// A response came and its status was not one of success. Holds the
    /// status code and what the HTTP client said of it.
    HttpStatusError { status: u16, message: String },
    /// A response of success came and its body is no IPv4 address. Holds the
    /// body and what the parser said of it.
    ParseError { text: String, diagnostic: String },
}

/// What a [`ResolutionError`] holds, as plain text and numbers.
pub enum ResolutionErrorView {
    TransportError(Seq<char>),
    HttpStatusError { status: u16, message: Seq<char> },
    ParseError { text: Seq<char>, diagnostic: Seq<char> },
}

impl View for ResolutionError {
    type V = ResolutionErrorView;

    open spec fn view(&self) -> ResolutionErrorView {
        match self {
            ResolutionError::TransportError(cause) => ResolutionErrorView::TransportError(cause@),
            ResolutionError::HttpStatusError { status, message } => {
                ResolutionErrorView::HttpStatusError { status: *status, message: message@ }
            },
            ResolutionError::ParseError { text, diagnostic } => {
                ResolutionErrorView::ParseError { text: text@, diagnostic: diagnostic@ }
            },
        }
    }
}

impl ResolutionErrorView {
    /// The error in words.
    pub open spec fn message(self) -> Seq<char> {
        match self {
            ResolutionErrorView::TransportError(cause) => cause,
            ResolutionErrorView::HttpStatusError { message, .. } => message,
            ResolutionErrorView::ParseError { text, diagnostic } => {
                "Failed parsing "@ + text + " as ipv4 address: "@ + diagnostic
            },
        }
    }
}

/// Whether `needle` stands somewhere in `hay`, whole and unbroken.
pub open spec fn occurs_in(needle: Seq<char>, hay: Seq<char>) -> bool {
    exists|at: int|
        0 <= at <= hay.len() - needle.len() && #[trigger] hay.subrange(at, at + needle.len())
            == needle
}

impl ResolutionError {
    /// The error in words: for a failure of transport or of status what the
    /// HTTP client said, for a body that is no address a sentence that
    /// quotes the body and ends with what the parser said.
    pub fn message(&self) -> (m: String)
        ensures
            m@ == self@.message(),
    {
        match self {
            ResolutionError::TransportError(cause) => cause.clone(),
            ResolutionError::HttpStatusError { message, .. } => message.clone(),
            ResolutionError::ParseError { text, diagnostic } => {
                let mut m = String::from_str("Failed parsing ");
                m.append(text.as_str());
                m.append(" as ipv4 address: ");
                m.append(diagnostic.as_str());
                m
            },
        }
    }
}

/// The words of a parse error quote the text that was not an address.
pub proof fn lemma_parse_error_quotes_text(text: Seq<char>, diagnostic: Seq<char>)
    ensures
        occurs_in(text, (ResolutionErrorView::ParseError { text, diagnostic }).message()),
{
    let head = "Failed parsing "@;
    let message = (ResolutionErrorView::ParseError { text, diagnostic }).message();
    let at: int = head.len() as int;
    assert(message.subrange(at, at + text.len()) =~= text);
}

} // verus!
