use vstd::prelude::*;

use crate::algo::AlgoConf;
use crate::ieee::RealBits;
use crate::param::{Candidate, ParamEntry};

verus! {

/// The outcome of evaluating one candidate. Times are nanoseconds since the
/// start of processing, except `start_unix_timestamp`, which counts from the
/// Unix epoch.
#[derive(Debug)]
pub struct CandidateEvalReport {
    pub start_time: u64,
    pub start_unix_timestamp: u64,
    pub completion_time: u64,
    pub obj_func_val: Option<RealBits>,
    pub best_seen_obj_func_val_before: Option<RealBits>,
    pub candidate: Candidate,
    pub latest_interleaving_completion_time: Option<u64>,
}

pub struct ReportView {
    pub start_time: u64,
    pub start_unix_timestamp: u64,
    pub completion_time: u64,
    pub obj_func_val: Option<RealBits>,
    pub best_seen_obj_func_val_before: Option<RealBits>,
    pub candidate: Seq<ParamEntry>,
    pub latest_interleaving_completion_time: Option<u64>,
}

impl View for CandidateEvalReport {
    type V = ReportView;

    open spec fn view(&self) -> ReportView {
        ReportView {
            start_time: self.start_time,
            start_unix_timestamp: self.start_unix_timestamp,
            completion_time: self.completion_time,
            obj_func_val: self.obj_func_val,
            best_seen_obj_func_val_before: self.best_seen_obj_func_val_before,
            candidate: self.candidate@,
            latest_interleaving_completion_time: self.latest_interleaving_completion_time,
        }
    }
}

impl CandidateEvalReport {
    pub fn copy(&self) -> (r: CandidateEvalReport)
        ensures
            r@ == self@,
    {
        CandidateEvalReport {
            start_time: self.start_time,
            start_unix_timestamp: self.start_unix_timestamp,
            completion_time: self.completion_time,
            obj_func_val: self.obj_func_val,
            best_seen_obj_func_val_before: self.best_seen_obj_func_val_before,
            candidate: self.candidate.copy(),
            latest_interleaving_completion_time: self.latest_interleaving_completion_time,
        }
    }
}

/// The views of a sequence of reports.
pub open spec fn report_views(s: Seq<CandidateEvalReport>) -> Seq<ReportView> {
    s.map_values(|r: CandidateEvalReport| r@)
}

pub fn copy_reports(v: &Vec<CandidateEvalReport>) -> (r: Vec<CandidateEvalReport>)
    ensures
        report_views(r@) == report_views(v@),
{
    let mut out: Vec<CandidateEvalReport> = Vec::new();
    let mut i: usize = 0;
    while i < v.len()
        invariant
            i <= v.len(),
            out@.len() == i,
            forall|k: int| 0 <= k < i ==> #[trigger] out@[k]@ == v@[k]@,
        decreases v.len() - i,
    {
        out.push(v[i].copy());
        i = i + 1;
    }
    proof {
        assert(report_views(out@) =~= report_views(v@));
    }
    out
}

/// A snapshot of a running job: the reports in order of arrival, the
/// best-seen table, and the nanoseconds since processing started.
#[derive(Debug)]
pub struct ProcessingState {
    pub recent_candidate_eval_reports: Vec<CandidateEvalReport>,
    pub best_seen_candidate_eval_reports: Vec<CandidateEvalReport>,
    pub time: u64,
    pub window_length_hint: usize,
    pub best_seen_table_size_hint: usize,
}

pub struct StateView {
    pub recent_candidate_eval_reports: Seq<ReportView>,
    pub best_seen_candidate_eval_reports: Seq<ReportView>,
    pub time: u64,
    pub window_length_hint: usize,
    pub best_seen_table_size_hint: usize,
}

impl View for ProcessingState {
    type V = StateView;

    open spec fn view(&self) -> StateView {
        StateView {
            recent_candidate_eval_reports: report_views(self.recent_candidate_eval_reports@),
            best_seen_candidate_eval_reports: report_views(self.best_seen_candidate_eval_reports@),
            time: self.time,
            window_length_hint: self.window_length_hint,
            best_seen_table_size_hint: self.best_seen_table_size_hint,
        }
    }
}

/// What a job runs: the objective program and its arguments, the file of
/// the parameter space, and the algorithm.
#[derive(Debug)]
pub struct ProcessingJobData {
    pub program: String,
    pub args: Vec<String>,
    pub spec_file: String,
    pub algo_conf: AlgoConf,
}

pub struct JobView {
    pub program: String,
    pub args: Seq<String>,
    pub spec_file: String,
    pub algo_conf: AlgoConf,
}

impl View for ProcessingJobData {
    type V = JobView;

    open spec fn view(&self) -> JobView {
        JobView {
            program: self.program,
            args: self.args@,
            spec_file: self.spec_file,
            algo_conf: self.algo_conf,
        }
    }
}

pub fn copy_strings(v: &Vec<String>) -> (r: Vec<String>)
    ensures
        r@ == v@,
{
    let mut out: Vec<String> = Vec::new();
    let mut i: usize = 0;
    while i < v.len()
        invariant
            i <= v.len(),
            out@ == v@.subrange(0, i as int),
        decreases v.len() - i,
    {
        out.push(v[i].clone());
        i = i + 1;
        proof {
            assert(out@ =~= v@.subrange(0, i as int));
        }
    }
    proof {
        assert(out@ =~= v@);
    }
    out
}

impl ProcessingJobData {
    pub fn copy(&self) -> (r: ProcessingJobData)
        ensures
            r@ == self@,
    {
        ProcessingJobData {
            program: self.program.clone(),
            args: copy_strings(&self.args),
            spec_file: self.spec_file.clone(),
            algo_conf: self.algo_conf,
        }
    }
}

/// The job offered to a client while nothing runs.
#[derive(Debug)]
pub struct DefaultProcessingJobData(pub ProcessingJobData);

impl View for DefaultProcessingJobData {
    type V = JobView;

    open spec fn view(&self) -> JobView {
        self.0@
    }
}

impl DefaultProcessingJobData {
    pub fn copy(&self) -> (r: DefaultProcessingJobData)
        ensures
            r@ == self@,
    {
        DefaultProcessingJobData(self.0.copy())
    }
}

/// What the service is doing, as a client sees it.
#[derive(Debug)]
pub enum DomainState {
    Idle(DefaultProcessingJobData),
    Processing(ProcessingState),
    Terminal,
    Error,
}

pub enum DomainStateView {
    Idle(JobView),
    Processing(StateView),
    Terminal,
    Error,
}

impl View for DomainState {
    type V = DomainStateView;

    open spec fn view(&self) -> DomainStateView {
        match self {
            DomainState::Idle(d) => DomainStateView::Idle(d@),
            DomainState::Processing(p) => DomainStateView::Processing(p@),
            DomainState::Terminal => DomainStateView::Terminal,
            DomainState::Error => DomainStateView::Error,
        }
    }
}

/// A message from the service to its subscriber. `Time` counts nanoseconds
/// since processing started.
#[derive(Debug)]
pub enum StatusMessage {
    DomainState(DomainState),
    CandidateEvalReport(CandidateEvalReport),
    Time(u64),
}

pub enum StatusView {
    DomainState(DomainStateView),
    CandidateEvalReport(ReportView),
    Time(u64),
}

impl View for StatusMessage {
    type V = StatusView;

    open spec fn view(&self) -> StatusView {
        match self {
            StatusMessage::DomainState(d) => StatusView::DomainState(d@),
            StatusMessage::CandidateEvalReport(r) => StatusView::CandidateEvalReport(r@),
            StatusMessage::Time(t) => StatusView::Time(*t),
        }
    }
}

/// A request from a client.
#[derive(Debug)]
pub enum RequestMessage {
    StartProcessing(ProcessingJobData),
    StopProcessing,
}

} // verus!
