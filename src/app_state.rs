use vstd::prelude::*;

use crate::algo::AlgoConf;
use crate::app_config::{BEST_SEEN_TABLE_SIZE_HINT, CANDIDATE_WINDOW_LENGTH_HINT};
use crate::domain::{
    DefaultProcessingJobData,
    DomainState,
    DomainStateView,
    JobView,
    RequestMessage,
    StateView,
    StatusMessage,
    StatusView,
};
use crate::obj_func::{CallView, ObjFuncCallDef};
use crate::param::{Dim, ParamsSpec};
use crate::processing_watcher::{watcher_after_msg, watcher_updated, ProcessingWatcher, WatcherView};

verus! {

/// The controller's state. A running job's task handle lives with whoever
/// runs the controller; the state keeps the job's progress.
#[derive(Debug)]
pub enum DomainStateInner {
    Idle(DefaultProcessingJobData),
    Processing(ProcessingWatcher),
    Terminal,
    Error,
}

/// An input of the controller. A new subscriber's channel stays with whoever
/// runs the controller.
#[derive(Debug)]
pub enum AppEvent {
    NewSubscriber,
    ProcessingJob(ParamsSpec, AlgoConf, ObjFuncCallDef),
    Request(RequestMessage),
    PublishTime,
    RequestStop,
    DelegateStatusMessage(StatusMessage),
}

/// An event that the current state does not accept, by the event's name.
#[derive(Debug)]
pub struct TransitionError(pub String);

/// What the runner of the controller must do after a step.
#[derive(Debug)]
pub enum Action {
    /// Start the search of a job; processing started at the given time.
    StartDriver(ParamsSpec, AlgoConf, ObjFuncCallDef, u64),
    /// Cancel the running search.
    AbortDriver,
    /// Send a message to the subscriber.
    Publish(StatusMessage),
}

pub enum PhaseView {
    Idle(JobView),
    Processing(WatcherView),
    Terminal,
    Error,
}

pub struct FsmView {
    pub phase: PhaseView,
    pub default_job: JobView,
    pub subscribed: bool,
}

pub enum RequestView {
    StartProcessing(JobView),
    StopProcessing,
}

pub enum EventView {
    NewSubscriber,
    ProcessingJob(Seq<Dim>, AlgoConf, CallView),
    Request(RequestView),
    PublishTime,
    RequestStop,
    DelegateStatusMessage(StatusView),
}

pub enum ActionView {
    StartDriver(Seq<Dim>, AlgoConf, CallView, u64),
    AbortDriver,
    Publish(StatusView),
}

impl View for DomainStateInner {
    type V = PhaseView;

    open spec fn view(&self) -> PhaseView {
        match self {
            DomainStateInner::Idle(d) => PhaseView::Idle(d@),
            DomainStateInner::Processing(w) => PhaseView::Processing(w@),
            DomainStateInner::Terminal => PhaseView::Terminal,
            DomainStateInner::Error => PhaseView::Error,
        }
    }
}

impl View for RequestMessage {
    type V = RequestView;

    open spec fn view(&self) -> RequestView {
        match self {
            RequestMessage::StartProcessing(j) => RequestView::StartProcessing(j@),
            RequestMessage::StopProcessing => RequestView::StopProcessing,
        }
    }
}

impl View for AppEvent {
    type V = EventView;

    open spec fn view(&self) -> EventView {
        match self {
            AppEvent::NewSubscriber => EventView::NewSubscriber,
            AppEvent::ProcessingJob(s, a, c) => EventView::ProcessingJob(s.dims@, *a, c@),
            AppEvent::Request(m) => EventView::Request(m@),
            AppEvent::PublishTime => EventView::PublishTime,
            AppEvent::RequestStop => EventView::RequestStop,
            AppEvent::DelegateStatusMessage(m) => EventView::DelegateStatusMessage(m@),
        }
    }
}

impl View for Action {
    type V = ActionView;

    open spec fn view(&self) -> ActionView {
        match self {
            Action::StartDriver(s, a, c, t) => ActionView::StartDriver(s.dims@, *a, c@, *t),
            Action::AbortDriver => ActionView::AbortDriver,
            Action::Publish(m) => ActionView::Publish(m@),
        }
    }
}

pub open spec fn action_views(s: Seq<Action>) -> Seq<ActionView> {
    s.map_values(|a: Action| a@)
}

/// The snapshot of a running job that a subscriber is sent.
pub open spec fn processing_state_of(w: WatcherView) -> StateView {
    StateView {
        recent_candidate_eval_reports: w.queue,
        best_seen_candidate_eval_reports: w.best,
        time: w.last_time,
        window_length_hint: CANDIDATE_WINDOW_LENGTH_HINT,
        best_seen_table_size_hint: BEST_SEEN_TABLE_SIZE_HINT,
    }
}

/// The state message that describes a phase.
pub open spec fn snapshot_of(p: PhaseView) -> StatusView {
    StatusView::DomainState(
        match p {
            PhaseView::Idle(j) => DomainStateView::Idle(j),
            PhaseView::Processing(w) => DomainStateView::Processing(processing_state_of(w)),
            PhaseView::Terminal => DomainStateView::Terminal,
            PhaseView::Error => DomainStateView::Error,
        },
    )
}

/// The state message for the subscriber, when there is one.
pub open spec fn push_snapshot(s: FsmView) -> Seq<ActionView> {
    if s.subscribed {
        seq![ActionView::Publish(snapshot_of(s.phase))]
    } else {
        Seq::empty()
    }
}

/// One step of the controller: the next state, and the actions to perform,
/// or none for an event that the state does not accept (which then stays).
/// A report that arrives while no job runs comes from a cancelled search and
/// is not forwarded; other status messages always are, to a subscriber.
pub open spec fn step_spec(s: FsmView, e: EventView, now: u64) -> (FsmView, Option<Seq<ActionView>>) {
    match e {
        EventView::ProcessingJob(dims, a, c) => match s.phase {
            PhaseView::Idle(_) | PhaseView::Terminal => {
                let w = WatcherView {
                    start_time: now,
                    last_time: 0,
                    queue: Seq::empty(),
                    best: Seq::empty(),
                };
                let s2 = FsmView { phase: PhaseView::Processing(w), ..s };
                (s2, Some(seq![ActionView::StartDriver(dims, a, c, now)] + push_snapshot(s2)))
            },
            _ => (s, None),
        },
        EventView::NewSubscriber => {
            let s2 = FsmView { subscribed: true, ..s };
            (s2, Some(seq![ActionView::Publish(snapshot_of(s2.phase))]))
        },
        EventView::DelegateStatusMessage(m) => {
            let phase = match s.phase {
                PhaseView::Processing(w) => PhaseView::Processing(
                    watcher_after_msg(watcher_updated(w, now), m),
                ),
                other => other,
            };
            let forward = s.subscribed && (s.phase is Processing || !(m is CandidateEvalReport));
            (
                FsmView { phase, ..s },
                Some(
                    if forward {
                        seq![ActionView::Publish(m)]
                    } else {
                        Seq::empty()
                    },
                ),
            )
        },
        EventView::RequestStop => match s.phase {
            PhaseView::Processing(_) => {
                let s2 = FsmView { phase: PhaseView::Idle(s.default_job), ..s };
                (s2, Some(seq![ActionView::AbortDriver] + push_snapshot(s2)))
            },
            _ => (s, None),
        },
        EventView::PublishTime => match s.phase {
            PhaseView::Processing(w) => {
                let w2 = watcher_updated(w, now);
                (
                    FsmView { phase: PhaseView::Processing(w2), ..s },
                    Some(
                        if s.subscribed {
                            seq![ActionView::Publish(StatusView::Time(w2.last_time))]
                        } else {
                            Seq::empty()
                        },
                    ),
                )
            },
            _ => (s, Some(Seq::empty())),
        },
        EventView::Request(_) => (s, None),
    }
}

/// The state and the actions after a sequence of events, each with its time;
/// an event that a state does not accept adds no action.
pub open spec fn run_spec(s: FsmView, events: Seq<(EventView, u64)>) -> (FsmView, Seq<ActionView>)
    decreases events.len(),
{
    if events.len() == 0 {
        (s, Seq::empty())
    } else {
        let (s1, acts) = step_spec(s, events[0].0, events[0].1);
        let (s2, rest) = run_spec(s1, events.drop_first());
        (
            s2,
            match acts {
                Some(a) => a,
                None => Seq::empty(),
            } + rest,
        )
    }
}

/// Sends a candidate report to the subscriber or starts a search.
pub open spec fn reports_or_starts(a: ActionView) -> bool {
    a matches ActionView::Publish(StatusView::CandidateEvalReport(_)) || a is StartDriver
}

proof fn lemma_quiet_while_not_processing(s: FsmView, events: Seq<(EventView, u64)>)
    requires
        !(s.phase is Processing),
        forall|i: int| 0 <= i < events.len() ==> !(#[trigger] events[i].0 is ProcessingJob),
    ensures
        !(run_spec(s, events).0.phase is Processing),
        forall|i: int|
            0 <= i < run_spec(s, events).1.len() ==> !reports_or_starts(#[trigger] run_spec(s, events).1[i]),
    decreases events.len(),
{
    if events.len() > 0 {
        let (s1, acts) = step_spec(s, events[0].0, events[0].1);
        let rest = events.drop_first();
        assert forall|i: int| 0 <= i < rest.len() implies !(#[trigger] rest[i].0 is ProcessingJob) by {
            assert(rest[i] == events[i + 1]);
        }
        lemma_quiet_while_not_processing(s1, rest);
        let first = match acts {
            Some(a) => a,
            None => Seq::<ActionView>::empty(),
        };
        assert forall|i: int| 0 <= i < first.len() implies !reports_or_starts(#[trigger] first[i]) by {}
        let all = run_spec(s, events).1;
        assert(all == first + run_spec(s1, rest).1);
        assert forall|i: int| 0 <= i < all.len() implies !reports_or_starts(#[trigger] all[i]) by {
            if i >= first.len() {
                assert(all[i] == run_spec(s1, rest).1[i - first.len()]);
            }
        }
    }
}

/// A stop while a job runs leaves the controller idle with its default job at
/// once; from then on, until a new job arrives, no candidate report reaches
/// the subscriber and no search starts.
pub proof fn lemma_stop_ends_reports(s: FsmView, now: u64, events: Seq<(EventView, u64)>)
    requires
        s.phase is Processing,
        forall|i: int| 0 <= i < events.len() ==> !(#[trigger] events[i].0 is ProcessingJob),
    ensures
        step_spec(s, EventView::RequestStop, now).0.phase == PhaseView::Idle(s.default_job),
        step_spec(s, EventView::RequestStop, now).1 is Some,
        forall|i: int|
            0 <= i < run_spec(step_spec(s, EventView::RequestStop, now).0, events).1.len()
                ==> !reports_or_starts(
                #[trigger] run_spec(step_spec(s, EventView::RequestStop, now).0, events).1[i],
            ),
{
    lemma_quiet_while_not_processing(step_spec(s, EventView::RequestStop, now).0, events);
}

/// Searches started less searches cancelled by a sequence of actions.
pub open spec fn driver_balance(acts: Seq<ActionView>) -> int
    decreases acts.len(),
{
    if acts.len() == 0 {
        0
    } else {
        (match acts[0] {
            ActionView::StartDriver(..) => 1int,
            ActionView::AbortDriver => -1int,
            _ => 0int,
        }) + driver_balance(acts.drop_first())
    }
}

/// One search runs exactly while the controller is processing.
pub open spec fn live_drivers(s: FsmView) -> int {
    if s.phase is Processing {
        1
    } else {
        0
    }
}

proof fn lemma_driver_balance_concat(a: Seq<ActionView>, b: Seq<ActionView>)
    ensures
        driver_balance(a + b) == driver_balance(a) + driver_balance(b),
    decreases a.len(),
{
    if a.len() > 0 {
        lemma_driver_balance_concat(a.drop_first(), b);
        assert((a + b).drop_first() =~= a.drop_first() + b);
    }
}

proof fn lemma_driver_balance_single(a: ActionView)
    ensures
        driver_balance(seq![a]) == (match a {
            ActionView::StartDriver(..) => 1int,
            ActionView::AbortDriver => -1int,
            _ => 0int,
        }),
{
    assert(seq![a].drop_first() =~= Seq::<ActionView>::empty());
    assert(driver_balance(Seq::<ActionView>::empty()) == 0);
}

proof fn lemma_step_balance(s: FsmView, e: EventView, now: u64)
    ensures
        driver_balance(
            match step_spec(s, e, now).1 {
                Some(a) => a,
                None => Seq::empty(),
            },
        ) == live_drivers(step_spec(s, e, now).0) - live_drivers(s),
{
    let acts = match step_spec(s, e, now).1 {
        Some(a) => a,
        None => Seq::<ActionView>::empty(),
    };
    let s2 = step_spec(s, e, now).0;
    let snap = push_snapshot(s2);
    assert(driver_balance(snap) == 0) by {
        if s2.subscribed {
            lemma_driver_balance_single(ActionView::Publish(snapshot_of(s2.phase)));
        }
    }
    assert(driver_balance(Seq::<ActionView>::empty()) == 0);
    match e {
        EventView::ProcessingJob(dims, a, c) => {
            if acts.len() > 0 {
                lemma_driver_balance_concat(seq![ActionView::StartDriver(dims, a, c, now)], snap);
                lemma_driver_balance_single(ActionView::StartDriver(dims, a, c, now));
            }
        },
        EventView::RequestStop => {
            if acts.len() > 0 {
                lemma_driver_balance_concat(seq![ActionView::AbortDriver], snap);
                lemma_driver_balance_single(ActionView::AbortDriver);
            }
        },
        _ => {
            if acts.len() > 0 {
                lemma_driver_balance_single(acts[0]);
                assert(acts =~= seq![acts[0]]);
            }
        },
    }
}

/// Over any run, the searches started less those cancelled is the change in
/// whether the controller is processing: from a state without a job, no
/// prefix of a run ever leaves more than one search alive.
pub proof fn lemma_at_most_one_driver(s: FsmView, events: Seq<(EventView, u64)>)
    ensures
        driver_balance(run_spec(s, events).1) == live_drivers(run_spec(s, events).0) - live_drivers(s),
    decreases events.len(),
{
    if events.len() > 0 {
        let (s1, acts) = step_spec(s, events[0].0, events[0].1);
        let first = match acts {
            Some(a) => a,
            None => Seq::<ActionView>::empty(),
        };
        lemma_step_balance(s, events[0].0, events[0].1);
        lemma_at_most_one_driver(s1, events.drop_first());
        lemma_driver_balance_concat(first, run_spec(s1, events.drop_first()).1);
    }
}

/// The controller: its state, the job offered while idle, and whether a
/// subscriber is attached.
#[derive(Debug)]
pub struct AppFsm {
    pub state: DomainStateInner,
    pub default_job: DefaultProcessingJobData,
    pub subscribed: bool,
}

impl View for AppFsm {
    type V = FsmView;

    open spec fn view(&self) -> FsmView {
        FsmView { phase: self.state@, default_job: self.default_job@, subscribed: self.subscribed }
    }
}

impl AppFsm {
    pub open spec fn wf(&self) -> bool {
        self.state matches DomainStateInner::Processing(w) ==> w.wf()
    }

    /// An idle controller that offers `default_job` and has no subscriber.
    pub fn new(default_job: DefaultProcessingJobData) -> (r: AppFsm)
        ensures
            r.wf(),
            r@ == (FsmView {
                phase: PhaseView::Idle(default_job@),
                default_job: default_job@,
                subscribed: false,
            }),
    {
        AppFsm { state: DomainStateInner::Idle(default_job.copy()), default_job, subscribed: false }
    }

    /// The state message for the current state.
    pub fn snapshot(&self) -> (r: StatusMessage)
        ensures
            r@ == snapshot_of(self@.phase),
    {
        let d = match &self.state {
            DomainStateInner::Idle(j) => DomainState::Idle(j.copy()),
            DomainStateInner::Processing(w) => DomainState::Processing(w.compute_processing_state()),
            DomainStateInner::Terminal => DomainState::Terminal,
            DomainStateInner::Error => DomainState::Error,
        };
        StatusMessage::DomainState(d)
    }

    fn push_snapshot(&self, actions: &mut Vec<Action>)
        ensures
            action_views(final(actions)@) == action_views(old(actions)@) + push_snapshot(self@),
    {
        let ghost before = action_views(actions@);
        if self.subscribed {
            actions.push(Action::Publish(self.snapshot()));
            proof {
                assert(action_views(actions@) =~= before + push_snapshot(self@));
            }
        } else {
            proof {
                assert(action_views(actions@) =~= before + push_snapshot(self@));
            }
        }
    }

    /// The subscriber's channel failed: it is dropped.
    pub fn on_send_failed(&mut self)
        ensures
            final(self)@ == (FsmView { subscribed: false, ..old(self)@ }),
            final(self).wf() == old(self).wf(),
    {
        self.subscribed = false;
    }

    /// Takes in one event at time `now` (nanoseconds since the Unix epoch).
    pub fn step(&mut self, event: AppEvent, now: u64) -> (r: Result<Vec<Action>, TransitionError>)
        requires
            old(self).wf(),
        ensures
            final(self).wf(),
            r matches Ok(acts) ==> step_spec(old(self)@, event@, now) == (
                final(self)@,
                Some(action_views(acts@)),
            ),
            r is Err ==> step_spec(old(self)@, event@, now) == (final(self)@, None::<Seq<ActionView>>),
    {
        let mut actions: Vec<Action> = Vec::new();
        match event {
            AppEvent::ProcessingJob(spec, algo_conf, call) => {
                let startable = match &self.state {
                    DomainStateInner::Idle(_) | DomainStateInner::Terminal => true,
                    _ => false,
                };
                if !startable {
                    return Err(TransitionError("ProcessingJob".to_owned()));
                }
                self.state = DomainStateInner::Processing(ProcessingWatcher::new(now));
                actions.push(Action::StartDriver(spec, algo_conf, call, now));
                self.push_snapshot(&mut actions);
                proof {
                    assert(action_views(actions@) =~= seq![action_views(actions@)[0]] + push_snapshot(self@));
                }
                Ok(actions)
            },
            AppEvent::NewSubscriber => {
                self.subscribed = true;
                actions.push(Action::Publish(self.snapshot()));
                proof {
                    assert(action_views(actions@) =~= seq![ActionView::Publish(snapshot_of(self@.phase))]);
                }
                Ok(actions)
            },
            AppEvent::DelegateStatusMessage(msg) => {
                let processing = match &mut self.state {
                    DomainStateInner::Processing(w) => {
                        w.update(now);
                        w.on_delegate_status_msg(&msg);
                        true
                    },
                    _ => false,
                };
                let is_report = match &msg {
                    StatusMessage::CandidateEvalReport(_) => true,
                    _ => false,
                };
                if self.subscribed && (processing || !is_report) {
                    actions.push(Action::Publish(msg));
                    proof {
                        assert(action_views(actions@) =~= seq![action_views(actions@)[0]]);
                    }
                } else {
                    proof {
                        assert(action_views(actions@) =~= Seq::<ActionView>::empty());
                    }
                }
                Ok(actions)
            },
            AppEvent::RequestStop => {
                let processing = match &self.state {
                    DomainStateInner::Processing(_) => true,
                    _ => false,
                };
                if !processing {
                    return Err(TransitionError("RequestStop".to_owned()));
                }
                self.state = DomainStateInner::Idle(self.default_job.copy());
                actions.push(Action::AbortDriver);
                self.push_snapshot(&mut actions);
                proof {
                    assert(action_views(actions@) =~= seq![ActionView::AbortDriver] + push_snapshot(self@));
                }
                Ok(actions)
            },
            AppEvent::PublishTime => {
                let subscribed = self.subscribed;
                match &mut self.state {
                    DomainStateInner::Processing(w) => {
                        w.update(now);
                        if subscribed {
                            actions.push(Action::Publish(StatusMessage::Time(w.elapsed())));
                        }
                    },
                    _ => {},
                }
                proof {
                    assert(action_views(actions@) =~= step_spec(old(self)@, event@, now).1->0);
                }
                Ok(actions)
            },
            AppEvent::Request(_) => Err(TransitionError("Request".to_owned())),
        }
    }
}

} // verus!
