//! The order workflow's request payload and failure modes.

use vstd::prelude::*;

use crate::decimal::Decimal;

verus! {

/// Why an order could not be processed.
#[derive(Debug)]
pub enum JobRequestOrderError {
    /// The referenced listing's payload or identifier could not be read.
    ParseReference(String),
    /// The referenced listing could not be fetched.
    FetchReference(String),
    /// The referenced listing does not exist.
    MissingReference(String),
    /// The referenced listing lacks what the request asks of it.
    MissingRequested(String),
    /// The computed result could not be sent.
    ResponseSend(String),
    /// The request asks for packaging, a tier or an amount the listing
    /// does not offer.
    Unsatisfiable(String),
}

impl JobRequestOrderError {
    /// What this failure says.
    pub open spec fn spec_message(self) -> Seq<char> {
        match self {
            JobRequestOrderError::ParseReference(s) => ("Failed to parse reference event: ")@
                + s@,
            JobRequestOrderError::FetchReference(s) => ("Failed to fetch reference event: ")@
                + s@,
            JobRequestOrderError::MissingReference(s) => ("Reference event not found: ")@ + s@,
            JobRequestOrderError::MissingRequested(s) => (
            "Reference event does not meet request requirements: ")@ + s@,
            JobRequestOrderError::ResponseSend(s) => ("Failed to send job response")@,
            JobRequestOrderError::Unsatisfiable(s) => ("Request cannot be satisfied: ")@ + s@,
        }
    }

    /// Writes this failure out for a feedback notice.
    pub fn message(&self) -> (r: String)
        ensures
            r@ == self.spec_message(),
    {
        let mut out = String::new();
        match self {
            JobRequestOrderError::ParseReference(s) => {
                out.append("Failed to parse reference event: ");
                out.append(s.as_str());
            },
            JobRequestOrderError::FetchReference(s) => {
                out.append("Failed to fetch reference event: ");
                out.append(s.as_str());
            },
            JobRequestOrderError::MissingReference(s) => {
                out.append("Reference event not found: ");
                out.append(s.as_str());
            },
            JobRequestOrderError::MissingRequested(s) => {
                out.append("Reference event does not meet request requirements: ");
                out.append(s.as_str());
            },
            JobRequestOrderError::ResponseSend(s) => {
                out.append("Failed to send job response");
            },
            JobRequestOrderError::Unsatisfiable(s) => {
                out.append("Request cannot be satisfied: ");
                out.append(s.as_str());
            },
        }
        proof {
            assert(out@ =~= self.spec_message());
        }
        out
    }
}

/// The packaging an order asks for.
#[derive(Clone, Debug, PartialEq)]
pub struct JobRequestOrderDataQuantity {
    pub amount: Decimal,
    pub unit: String,
    pub count: u32,
    pub mass_g: Decimal,
    pub label: String,
}

/// The price tier an order quotes.
#[derive(Clone, Debug, PartialEq)]
pub struct JobRequestOrderDataPrice {
    pub amount: Decimal,
    pub currency: String,
    pub quantity_amount: Decimal,
    pub quantity_unit: String,
}

/// The order itself: quoted tier and desired packaging.
#[derive(Clone, Debug, PartialEq)]
pub struct JobRequestOrderDataOrder {
    pub price: JobRequestOrderDataPrice,
    pub quantity: JobRequestOrderDataQuantity,
}

/// The listing message an order refers to.
#[derive(Clone, Debug, PartialEq)]
pub struct JobRequestOrderDataEvent {
    pub id: String,
}

/// The full order payload of a job-request input.
#[derive(Clone, Debug, PartialEq)]
pub struct JobRequestOrderData {
    pub event: JobRequestOrderDataEvent,
    pub order: JobRequestOrderDataOrder,
}

} // verus!
