use momonc_service::domain::{CandidateEvalReport, StatusMessage};
use momonc_service::param::{Candidate, ParamEntry, ParamValue};
use momonc_service::processing_watcher::ProcessingWatcher;
use momonc_service::RealBits;

fn bits(x: f64) -> RealBits {
    RealBits::from_bits(x.to_bits())
}

fn report(tag: i64, value: Option<f64>) -> CandidateEvalReport {
    CandidateEvalReport {
        start_time: 0,
        start_unix_timestamp: 0,
        completion_time: tag as u64,
        obj_func_val: value.map(bits),
        best_seen_obj_func_val_before: None,
        candidate: Candidate {
            entries: vec![ParamEntry { name: "n".to_string(), value: ParamValue::Int(tag) }],
        },
        latest_interleaving_completion_time: None,
    }
}

fn tags(reports: &Vec<CandidateEvalReport>) -> Vec<u64> {
    reports.iter().map(|r| r.completion_time).collect()
}

#[test]
fn reports_keep_arrival_order() {
    let mut w = ProcessingWatcher::new(1_000);
    for (tag, v) in [(1, Some(3.0)), (2, None), (3, Some(1.0)), (4, Some(2.0))] {
        w.on_report(&report(tag, v));
    }
    let state = w.compute_processing_state();
    assert_eq!(tags(&state.recent_candidate_eval_reports), vec![1, 2, 3, 4]);
    assert_eq!(tags(&state.best_seen_candidate_eval_reports), vec![3, 4, 1]);
}

#[test]
fn best_table_keeps_five_lowest_in_ascending_order() {
    let mut w = ProcessingWatcher::new(0);
    let values = [9.0, 4.0, 7.0, 1.0, 8.0, 3.0, 10.0, 2.0];
    for (i, v) in values.iter().enumerate() {
        w.on_report(&report(i as i64, Some(*v)));
    }
    let state = w.compute_processing_state();
    let kept: Vec<f64> = state
        .best_seen_candidate_eval_reports
        .iter()
        .map(|r| f64::from_bits(r.obj_func_val.unwrap().bits))
        .collect();
    assert_eq!(kept, vec![1.0, 2.0, 3.0, 4.0, 7.0]);
    assert_eq!(state.recent_candidate_eval_reports.len(), 8);
}

#[test]
fn equal_value_does_not_evict_worst_entry() {
    let mut w = ProcessingWatcher::new(0);
    for i in 0..5 {
        w.on_report(&report(i, Some(i as f64)));
    }
    w.on_report(&report(99, Some(4.0)));
    let state = w.compute_processing_state();
    assert_eq!(tags(&state.best_seen_candidate_eval_reports), vec![0, 1, 2, 3, 4]);
    w.on_report(&report(98, Some(-1.0)));
    let state = w.compute_processing_state();
    assert_eq!(tags(&state.best_seen_candidate_eval_reports), vec![98, 0, 1, 2, 3]);
}

#[test]
fn equal_values_enter_after_earlier_ones() {
    let mut w = ProcessingWatcher::new(0);
    w.on_report(&report(1, Some(2.0)));
    w.on_report(&report(2, Some(2.0)));
    w.on_report(&report(3, Some(1.0)));
    let state = w.compute_processing_state();
    assert_eq!(tags(&state.best_seen_candidate_eval_reports), vec![3, 1, 2]);
}

#[test]
fn missing_and_nan_values_stay_out_of_best_table() {
    let mut w = ProcessingWatcher::new(0);
    w.on_report(&report(1, None));
    w.on_report(&report(2, Some(f64::NAN)));
    let state = w.compute_processing_state();
    assert_eq!(state.recent_candidate_eval_reports.len(), 2);
    assert!(state.best_seen_candidate_eval_reports.is_empty());
}

#[test]
fn snapshot_carries_time_and_hints() {
    let mut w = ProcessingWatcher::new(5_000);
    w.update(7_500);
    let state = w.compute_processing_state();
    assert_eq!(state.time, 2_500);
    assert_eq!(state.window_length_hint, 250);
    assert_eq!(state.best_seen_table_size_hint, 5);
    w.update(4_000);
    assert_eq!(w.elapsed(), 0);
}

#[test]
fn non_report_messages_change_nothing() {
    let mut w = ProcessingWatcher::new(0);
    w.on_delegate_status_msg(&StatusMessage::Time(3));
    w.on_delegate_status_msg(&StatusMessage::CandidateEvalReport(report(1, Some(1.0))));
    let state = w.compute_processing_state();
    assert_eq!(tags(&state.recent_candidate_eval_reports), vec![1]);
}
