#![allow(unused_imports)]
use vstd::prelude::*;

pub mod config;
pub mod decimal;
pub mod dispatch;
pub mod event_classified;
pub mod job_request;
pub mod job_request_order;
pub mod order_classified;
pub mod price;
pub mod resolve;
pub mod tags;
pub mod text;
pub mod unit;

verus! {

/// Message kind number of an inbound job request.
pub const KIND_JOB_REQUEST: u16 = 5300;

/// Message kind number of a published job result.
pub const KIND_JOB_RESPONSE: u16 = 6300;

/// Message kind number of the service-announcement handler event.
pub const KIND_APPLICATION_HANDLER: u16 = 31990;

} // verus!
