use rhi::config::{Settings, SettingsError};
use rhi::dispatch::{feedback_for_error, is_job_request_kind, plan_dispatch, route_for_input, DispatchRoute};
use rhi::job_request::{
    JobRequest, JobRequestError, JobRequestInput, JobRequestInputMarker, JobRequestInputType,
};
use rhi::unit::MassUnitError;
use rhi::decimal::Decimal;

fn input(marker: Option<JobRequestInputMarker>) -> JobRequestInput {
    JobRequestInput {
        data: "payload".to_string(),
        input_type: JobRequestInputType::Text,
        relay: None,
        marker,
    }
}

fn request(inputs: Vec<JobRequestInput>) -> JobRequest {
    JobRequest {
        id: "req-9".to_string(),
        inputs,
        output: None,
        bid_msat: None,
        relays: vec![],
        service_providers: vec![],
        params: vec![],
        hashtags: vec![],
        tags: vec![],
    }
}

#[test]
fn markers_route_to_their_workflows() {
    let req_id = "req-9".to_string();
    assert_eq!(
        route_for_input(&input(Some(JobRequestInputMarker::Order)), &req_id).unwrap(),
        DispatchRoute::Order
    );
    assert_eq!(
        route_for_input(&input(Some(JobRequestInputMarker::Quote)), &req_id).unwrap(),
        DispatchRoute::Quote
    );
    assert_eq!(
        route_for_input(&input(Some(JobRequestInputMarker::Preview)), &req_id).unwrap(),
        DispatchRoute::Preview
    );
}

#[test]
fn a_failing_input_leaves_its_siblings_routed() {
    let req = request(vec![
        input(None),
        input(Some(JobRequestInputMarker::Order)),
        input(Some(JobRequestInputMarker::Preview)),
    ]);
    let plan = plan_dispatch(&req);
    assert_eq!(plan.len(), 3);
    match &plan[0] {
        Err(JobRequestError::InvalidInputMarker(m)) => assert_eq!(m, "req-9"),
        _ => panic!("an input without a marker fails"),
    }
    assert_eq!(*plan[1].as_ref().unwrap(), DispatchRoute::Order);
    assert_eq!(*plan[2].as_ref().unwrap(), DispatchRoute::Preview);
}

#[test]
fn feedback_carries_the_error_status_and_text() {
    let fb = feedback_for_error(&JobRequestError::InvalidInputMarker("sideways".to_string()));
    assert_eq!(fb.status, "error");
    assert_eq!(fb.extra_info, "Invalid job request input marker: sideways");
}

#[test]
fn error_messages_nest_their_sources() {
    let e = JobRequestError::JobRequestOrder(
        rhi::job_request_order::JobRequestOrderError::Unsatisfiable("x".to_string()),
    );
    assert_eq!(e.message(), "Order: Request cannot be satisfied: x");
    let m = JobRequestError::MassUnit(MassUnitError::InvalidUnit("stone".to_string()));
    assert_eq!(m.message(), "Invalid mass unit: stone");
    let a = JobRequestError::MassUnit(MassUnitError::InvalidAmount(Decimal { micros: 2_500_000 }));
    assert_eq!(a.message(), "Invalid mass amount: 2.5");
    assert_eq!(JobRequestError::Failure.message(), "Failure to process request");
    assert_eq!(
        JobRequestError::Serde("boom".to_string()).message(),
        "Deserialization error: boom"
    );
}

#[test]
fn only_the_job_request_kind_is_handled() {
    assert!(is_job_request_kind(5300));
    assert!(!is_job_request_kind(6300));
    assert!(!is_job_request_kind(0));
    assert_eq!(rhi::KIND_JOB_REQUEST, 5300);
    assert_eq!(rhi::KIND_JOB_RESPONSE, 6300);
    assert_eq!(rhi::KIND_APPLICATION_HANDLER, 31990);
}

#[test]
fn settings_read_outcomes_fold_as_specified() {
    let read = Settings::default();
    let kept = Settings::load(&None, Ok(read.clone())).unwrap();
    assert_eq!(kept, read);

    let fallback = Settings::load(&None, Err(SettingsError::Load("no file".to_string()))).unwrap();
    assert_eq!(fallback.metadata.name.as_deref(), Some("rhi"));
    assert_eq!(fallback.metadata.nip05, None);

    let failed = Settings::load(
        &Some("settings.toml".to_string()),
        Err(SettingsError::Load("no file".to_string())),
    );
    match failed {
        Err(SettingsError::Load(m)) => assert_eq!(m, "no file"),
        _ => panic!("a configured path must fail loudly"),
    }
}

#[test]
fn settings_error_message_names_the_cause() {
    let e = SettingsError::Load("bad toml".to_string());
    assert_eq!(e.message(), "Configuration loading failed: bad toml");
}
