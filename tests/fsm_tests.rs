use momonc_service::algo::{AlgoConf, ParallelHillClimbingConf};
use momonc_service::app_state::{Action, AppEvent, AppFsm, DomainStateInner};
use momonc_service::domain::{
    CandidateEvalReport, DefaultProcessingJobData, DomainState, ProcessingJobData, RequestMessage,
    StatusMessage,
};
use momonc_service::json::Json;
use momonc_service::msg_handling::job_event;
use momonc_service::obj_func::ObjFuncCallDef;
use momonc_service::param::{Candidate, ParamsSpec, SpecError};
use momonc_service::RealBits;

fn bits(x: f64) -> RealBits {
    RealBits::from_bits(x.to_bits())
}

fn algo() -> AlgoConf {
    AlgoConf::ParallelHillClimbing(ParallelHillClimbingConf { relative_std_dev: bits(0.1), degree_of_par: 4 })
}

fn job() -> ProcessingJobData {
    ProcessingJobData {
        program: "python".to_string(),
        args: vec!["f.py".to_string()],
        spec_file: "spec.json".to_string(),
        algo_conf: algo(),
    }
}

fn fsm() -> AppFsm {
    AppFsm::new(DefaultProcessingJobData(job()))
}

fn job_event_now() -> AppEvent {
    AppEvent::ProcessingJob(
        ParamsSpec { dims: vec![] },
        algo(),
        ObjFuncCallDef { program: "p".to_string(), args: vec![] },
    )
}

fn report() -> StatusMessage {
    StatusMessage::CandidateEvalReport(CandidateEvalReport {
        start_time: 0,
        start_unix_timestamp: 0,
        completion_time: 1,
        obj_func_val: Some(bits(1.0)),
        best_seen_obj_func_val_before: None,
        candidate: Candidate { entries: vec![] },
        latest_interleaving_completion_time: None,
    })
}

fn is_idle_snapshot(a: &Action) -> bool {
    matches!(a, Action::Publish(StatusMessage::DomainState(DomainState::Idle(_))))
}

fn is_report(a: &Action) -> bool {
    matches!(a, Action::Publish(StatusMessage::CandidateEvalReport(_)))
}

#[test]
fn new_subscriber_gets_idle_snapshot() {
    let mut m = fsm();
    let acts = m.step(AppEvent::NewSubscriber, 0).unwrap();
    assert_eq!(acts.len(), 1);
    match &acts[0] {
        Action::Publish(StatusMessage::DomainState(DomainState::Idle(d))) => {
            assert_eq!(d.0.program, "python");
            assert_eq!(d.0.args, vec!["f.py".to_string()]);
        }
        _ => panic!("expected an idle snapshot"),
    }
    assert!(m.subscribed);
}

#[test]
fn time_ticks_are_silent_while_idle() {
    let mut m = fsm();
    m.step(AppEvent::NewSubscriber, 0).unwrap();
    for t in 0..4 {
        assert!(m.step(AppEvent::PublishTime, t).unwrap().is_empty());
    }
}

#[test]
fn job_starts_processing_and_pushes_snapshot() {
    let mut m = fsm();
    m.step(AppEvent::NewSubscriber, 0).unwrap();
    let acts = m.step(job_event_now(), 1_000).unwrap();
    assert_eq!(acts.len(), 2);
    assert!(matches!(&acts[0], Action::StartDriver(_, _, _, 1_000)));
    assert!(matches!(&acts[1], Action::Publish(StatusMessage::DomainState(DomainState::Processing(_)))));
    assert!(matches!(&m.state, DomainStateInner::Processing(_)));
}

#[test]
fn second_job_while_processing_is_refused() {
    let mut m = fsm();
    m.step(job_event_now(), 0).unwrap();
    assert!(m.step(job_event_now(), 5).is_err());
    assert!(matches!(&m.state, DomainStateInner::Processing(_)));
}

#[test]
fn time_ticks_while_processing_report_elapsed() {
    let mut m = fsm();
    m.step(AppEvent::NewSubscriber, 0).unwrap();
    m.step(job_event_now(), 1_000).unwrap();
    let acts = m.step(AppEvent::PublishTime, 251_000).unwrap();
    assert_eq!(acts.len(), 1);
    assert!(matches!(&acts[0], Action::Publish(StatusMessage::Time(250_000))));
}

#[test]
fn reports_are_forwarded_and_recorded_while_processing() {
    let mut m = fsm();
    m.step(AppEvent::NewSubscriber, 0).unwrap();
    m.step(job_event_now(), 0).unwrap();
    let acts = m.step(AppEvent::DelegateStatusMessage(report()), 10).unwrap();
    assert_eq!(acts.len(), 1);
    assert!(is_report(&acts[0]));
    match &m.state {
        DomainStateInner::Processing(w) => {
            let s = w.compute_processing_state();
            assert_eq!(s.recent_candidate_eval_reports.len(), 1);
            assert_eq!(s.time, 10);
        }
        _ => panic!("not processing"),
    }
}

#[test]
fn stop_returns_to_idle_and_silences_reports() {
    let mut m = fsm();
    m.step(AppEvent::NewSubscriber, 0).unwrap();
    m.step(job_event_now(), 0).unwrap();
    m.step(AppEvent::DelegateStatusMessage(report()), 1).unwrap();
    m.step(AppEvent::DelegateStatusMessage(report()), 2).unwrap();
    let acts = m.step(AppEvent::RequestStop, 3).unwrap();
    assert_eq!(acts.len(), 2);
    assert!(matches!(&acts[0], Action::AbortDriver));
    assert!(is_idle_snapshot(&acts[1]));
    assert!(matches!(&m.state, DomainStateInner::Idle(_)));
    let acts = m.step(AppEvent::DelegateStatusMessage(report()), 4).unwrap();
    assert!(acts.is_empty());
    assert!(m.step(AppEvent::PublishTime, 5).unwrap().is_empty());
}

#[test]
fn stop_while_idle_is_refused() {
    let mut m = fsm();
    assert!(m.step(AppEvent::RequestStop, 0).is_err());
    assert!(m.step(AppEvent::Request(RequestMessage::StopProcessing), 0).is_err());
    assert!(matches!(&m.state, DomainStateInner::Idle(_)));
}

#[test]
fn failed_send_drops_subscriber() {
    let mut m = fsm();
    m.step(AppEvent::NewSubscriber, 0).unwrap();
    m.on_send_failed();
    assert!(!m.subscribed);
    let acts = m.step(job_event_now(), 0).unwrap();
    assert_eq!(acts.len(), 1);
}

#[test]
fn job_event_builds_processing_job() {
    let doc = Json::Object(vec![
        ("initial_guess".to_string(), Json::Object(vec![("x".to_string(), Json::Number(bits(0.5)))])),
        (
            "definition".to_string(),
            Json::Object(vec![(
                "x".to_string(),
                Json::Array(vec![Json::Number(bits(0.0)), Json::Number(bits(1.0))]),
            )]),
        ),
    ]);
    match job_event(job(), doc) {
        Ok(AppEvent::ProcessingJob(spec, a, call)) => {
            assert_eq!(spec.dims.len(), 1);
            assert_eq!(a, algo());
            assert_eq!(call.program, "python");
            assert_eq!(call.args, vec!["f.py".to_string()]);
        }
        _ => panic!("expected a processing job"),
    }
    match job_event(job(), Json::Null) {
        Err(e) => assert_eq!(e, SpecError::NotAnObject),
        Ok(_) => panic!("document accepted"),
    }
}

#[test]
fn time_ticks_without_subscriber_still_advance_the_clock() {
    let mut m = fsm();
    m.step(job_event_now(), 1_000).unwrap();
    assert!(m.step(AppEvent::PublishTime, 9_000).unwrap().is_empty());
    match &m.state {
        DomainStateInner::Processing(w) => assert_eq!(w.elapsed(), 8_000),
        _ => panic!("not processing"),
    }
    let acts = m.step(AppEvent::NewSubscriber, 9_500).unwrap();
    match &acts[0] {
        Action::Publish(StatusMessage::DomainState(DomainState::Processing(s))) => assert_eq!(s.time, 8_000),
        _ => panic!("expected a processing snapshot"),
    }
}
