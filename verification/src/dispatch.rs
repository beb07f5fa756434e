//! Routing of a parsed request's inputs.
//!
//! Each input routes by its marker to exactly one workflow; an input
//! without a marker fails, and only that input.  A failed input turns
//! into a feedback notice carrying the error's text and the `error`
//! status.

use vstd::prelude::*;

use crate::job_request::{JobRequest, JobRequestError, JobRequestInput, JobRequestInputMarker};

verus! {

/// The workflow one input routes to.
#[derive(Clone, Copy, Debug, PartialEq, Eq, Structural)]
pub enum DispatchRoute {
    Order,
    Quote,
    Preview,
}

/// The route a marker selects; an absent marker selects none.
pub open spec fn spec_route_for(marker: Option<JobRequestInputMarker>) -> Option<DispatchRoute> {
    match marker {
        Some(JobRequestInputMarker::Order) => Some(DispatchRoute::Order),
        Some(JobRequestInputMarker::Quote) => Some(DispatchRoute::Quote),
        Some(JobRequestInputMarker::Preview) => Some(DispatchRoute::Preview),
        None => None,
    }
}

/// Routes one input: an input without a marker fails with the
/// request's identifier, as an invalid-marker error.
pub fn route_for_input(input: &JobRequestInput, request_id: &String) -> (r: Result<
    DispatchRoute,
    JobRequestError,
>)
    ensures
        match r {
            Ok(route) => spec_route_for(input.marker) == Some(route),
            Err(e) => input.marker is None && (e matches JobRequestError::InvalidInputMarker(m)
                && m@ == request_id@),
        },
{
    match &input.marker {
        Some(JobRequestInputMarker::Order) => Ok(DispatchRoute::Order),
        Some(JobRequestInputMarker::Quote) => Ok(DispatchRoute::Quote),
        Some(JobRequestInputMarker::Preview) => Ok(DispatchRoute::Preview),
        None => Err(JobRequestError::InvalidInputMarker(request_id.clone())),
    }
}

/// Whether `plan` is exactly the routing of `req`'s inputs: one
/// outcome per input, each decided by that input's marker alone.
pub open spec fn spec_plan_matches(
    plan: Seq<Result<DispatchRoute, JobRequestError>>,
    req: JobRequest,
) -> bool {
    &&& plan.len() == req.inputs@.len()
    &&& forall|i: int|
        0 <= i < plan.len() ==> match #[trigger] plan[i] {
            Ok(route) => spec_route_for(req.inputs@[i].marker) == Some(route),
            Err(e) => req.inputs@[i].marker is None && (e matches
                JobRequestError::InvalidInputMarker(m) && m@ == req.id@),
        }
}

/// Routes every input of a request, each on its own: an input that
/// fails does not touch its siblings' outcomes.
#[verifier::loop_isolation(false)]
pub fn plan_dispatch(req: &JobRequest) -> (r: Vec<Result<DispatchRoute, JobRequestError>>)
    ensures
        spec_plan_matches(r@, *req),
{
    let mut out: Vec<Result<DispatchRoute, JobRequestError>> = Vec::new();
    let mut i: usize = 0;
    while i < req.inputs.len()
        invariant
            0 <= i <= req.inputs@.len(),
            out@.len() == i,
            forall|t: int|
                0 <= t < i ==> match #[trigger] out@[t] {
                    Ok(route) => spec_route_for(req.inputs@[t].marker) == Some(route),
                    Err(e) => req.inputs@[t].marker is None && (e matches
                        JobRequestError::InvalidInputMarker(m) && m@ == req.id@),
                },
        decreases req.inputs@.len() - i,
    {
        out.push(route_for_input(&req.inputs[i], &req.id));
        i += 1;
    }
    out
}

/// One input's outcome in a routing plan is decided by that input's
/// own marker alone: an unroutable input fails, and every sibling
/// that carries a marker still routes to its marker's workflow,
/// whatever stands at the failing position.
pub proof fn lemma_dispatch_isolation(
    plan: Seq<Result<DispatchRoute, JobRequestError>>,
    req: JobRequest,
    i: int,
    j: int,
)
    requires
        spec_plan_matches(plan, req),
        0 <= i < plan.len(),
        0 <= j < plan.len(),
        req.inputs@[i].marker is None,
        req.inputs@[j].marker is Some,
    ensures
        plan[i] is Err,
        plan[j] is Ok && spec_route_for(req.inputs@[j].marker) == Some(plan[j]->Ok_0),
{
}

/// Whether an inbound message is a job request the intake handles.
pub fn is_job_request_kind(kind: u16) -> (r: bool)
    ensures
        r == (kind == crate::KIND_JOB_REQUEST),
{
    kind == crate::KIND_JOB_REQUEST
}

/// A feedback notice: a status and the text shown to the requester.
#[derive(Clone, Debug, PartialEq)]
pub struct JobFeedback {
    pub status: String,
    pub extra_info: String,
}

/// The feedback a failed input publishes: the `error` status and the
/// failure's own words.
pub fn feedback_for_error(error: &JobRequestError) -> (r: JobFeedback)
    ensures
        r.status@ == ("error")@,
        r.extra_info@ == error.spec_message(),
{
    JobFeedback { status: "error".to_owned(), extra_info: error.message() }
}

} // verus!
