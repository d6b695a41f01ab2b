//! The address that a lookup finds.

use crate::error::{ResolutionError, ResolutionErrorView};
use crate::ipv4::{is_ipv4_text, parse_ipv4, INVALID_IPV4_SYNTAX};
use vstd::prelude::*;

verus! {

/// The address under which this machine is seen from outside.
#[derive(Debug, PartialEq, PartialOrd)]
pub enum PublicAddress {
    /// An IPv4 address in dotted decimal, kept as the service wrote it.
    IP4Address(String),
}

/// What a [`PublicAddress`] holds, as plain text.
pub enum PublicAddressView {
    IP4Address(Seq<char>),
}

impl PublicAddressView {
    /// The text of the address.
    pub open spec fn text(self) -> Seq<char> {
        match self {
            PublicAddressView::IP4Address(text) => text,
        }
    }

    /// Whether the text is an address of the kind that the variant names.
    pub open spec fn well_formed(self) -> bool {
        match self {
            PublicAddressView::IP4Address(text) => is_ipv4_text(text),
        }
    }
}

impl View for PublicAddress {
    type V = PublicAddressView;

    open spec fn view(&self) -> PublicAddressView {
        match self {
            PublicAddress::IP4Address(text) => PublicAddressView::IP4Address(text@),
        }
    }
}

/// How a lookup ends, as plain text and numbers.
pub type OutcomeView = Result<PublicAddressView, ResolutionErrorView>;

/// What the end of a lookup holds.
pub open spec fn outcome_view(outcome: Result<PublicAddress, ResolutionError>) -> OutcomeView {
    match outcome {
        Ok(address) => Ok(address@),
        Err(error) => Err(error@),
    }
}

/// The end of a lookup that found the address written `text`.
pub open spec fn found(text: Seq<char>) -> OutcomeView {
    Ok(PublicAddressView::IP4Address(text))
}

/// The end of a lookup that failed with `error`.
pub open spec fn failed(error: ResolutionErrorView) -> OutcomeView {
    Err(error)
}

/// The address that `text` is, or the error that says it is none.
pub open spec fn address_of(text: Seq<char>) -> OutcomeView {
    if is_ipv4_text(text) {
        found(text)
    } else {
        failed(ResolutionErrorView::ParseError { text, diagnostic: INVALID_IPV4_SYNTAX@ })
    }
}

impl PublicAddress {
    /// Whether the text inside is an address. Every value that this crate
    /// hands out is well formed.
    pub open spec fn well_formed(&self) -> bool {
        self@.well_formed()
    }

    /// Makes an address of `text` as it stands, where it is the whole of an
    /// IPv4 address in dotted decimal, and an error that holds `text` where
    /// it is not.
    pub fn from_text(text: String) -> (r: Result<PublicAddress, ResolutionError>)
        ensures
            outcome_view(r) == address_of(text@),
            r matches Ok(address) ==> address.well_formed(),
    {
        match parse_ipv4(text.as_str()) {
            Some(_) => Ok(PublicAddress::IP4Address(text)),
            None => Err(
                ResolutionError::ParseError {
                    text,
                    diagnostic: String::from_str(INVALID_IPV4_SYNTAX),
                },
            ),
        }
    }
}

} // verus!
