use vstd::prelude::*;

use crate::app_config::{BEST_SEEN_TABLE_SIZE_HINT, CANDIDATE_WINDOW_LENGTH_HINT};
use crate::domain::{
    copy_reports,
    report_views,
    CandidateEvalReport,
    ProcessingState,
    ReportView,
    StateView,
    StatusMessage,
    StatusView,
};
use crate::processing::usable;

verus! {

/// Accumulates the reports of one job. Times are nanoseconds: `start_time`
/// since the Unix epoch, `last_time` since `start_time`.
#[derive(Debug)]
pub struct ProcessingWatcher {
    pub start_time: u64,
    pub last_time: u64,
    eval_report_queue: Vec<CandidateEvalReport>,
    best_seen_reports: Vec<CandidateEvalReport>,
}

pub struct WatcherView {
    pub start_time: u64,
    pub last_time: u64,
    pub queue: Seq<ReportView>,
    pub best: Seq<ReportView>,
}

/// The order key of a report's objective value.
pub open spec fn value_key(r: ReportView) -> int {
    r.obj_func_val->0.key()
}

/// Every report has a usable value and they ascend by it.
pub open spec fn sorted_by_value(s: Seq<ReportView>) -> bool {
    &&& forall|i: int| 0 <= i < s.len() ==> usable(#[trigger] s[i].obj_func_val) is Some
    &&& forall|i: int, j: int|
        0 <= i <= j < s.len() ==> value_key(#[trigger] s[i]) <= value_key(#[trigger] s[j])
}

/// Inserts `r` after every report whose value is not above its own.
pub open spec fn insert_by_value(s: Seq<ReportView>, r: ReportView) -> Seq<ReportView>
    decreases s.len(),
{
    if s.len() == 0 {
        seq![r]
    } else if value_key(r) < value_key(s[0]) {
        seq![r] + s
    } else {
        seq![s[0]] + insert_by_value(s.drop_first(), r)
    }
}

/// The best-seen table after a report arrives: a usable value enters while
/// the table has room or when it is strictly below the worst kept value,
/// and the worst entry then leaves a table that has grown past `cap`.
pub open spec fn table_after(best: Seq<ReportView>, r: ReportView, cap: nat) -> Seq<ReportView> {
    if usable(r.obj_func_val) is Some && (best.len() < cap || value_key(r) < value_key(best.last())) {
        let t = insert_by_value(best, r);
        if t.len() > cap {
            t.subrange(0, cap as int)
        } else {
            t
        }
    } else {
        best
    }
}

/// The watcher after a clock reading at `time`.
pub open spec fn watcher_updated(w: WatcherView, time: u64) -> WatcherView {
    WatcherView {
        last_time: if time >= w.start_time {
            (time - w.start_time) as u64
        } else {
            0
        },
        ..w
    }
}

/// The watcher after a status message: only reports change it.
pub open spec fn watcher_after_msg(w: WatcherView, m: StatusView) -> WatcherView {
    match m {
        StatusView::CandidateEvalReport(r) => watcher_after(w, r),
        _ => w,
    }
}

/// The watcher after `on_report`.
pub open spec fn watcher_after(w: WatcherView, r: ReportView) -> WatcherView {
    WatcherView {
        queue: w.queue.push(r),
        best: table_after(w.best, r, BEST_SEEN_TABLE_SIZE_HINT as nat),
        ..w
    }
}

/// The watcher after a sequence of reports, in order of arrival.
pub open spec fn watcher_after_all(w: WatcherView, rs: Seq<ReportView>) -> WatcherView
    decreases rs.len(),
{
    if rs.len() == 0 {
        w
    } else {
        watcher_after_all(watcher_after(w, rs[0]), rs.drop_first())
    }
}

/// Reports join the queue in the order they arrive, and the best-seen table
/// stays sorted ascending by value and within its capacity.
pub proof fn lemma_reports_keep_order(w: WatcherView, rs: Seq<ReportView>)
    requires
        sorted_by_value(w.best),
        w.best.len() <= BEST_SEEN_TABLE_SIZE_HINT,
    ensures
        watcher_after_all(w, rs).queue == w.queue + rs,
        sorted_by_value(watcher_after_all(w, rs).best),
        watcher_after_all(w, rs).best.len() <= BEST_SEEN_TABLE_SIZE_HINT,
    decreases rs.len(),
{
    if rs.len() == 0 {
        assert(w.queue + rs =~= w.queue);
    } else {
        lemma_table_after_sorted(w.best, rs[0], BEST_SEEN_TABLE_SIZE_HINT as nat);
        lemma_reports_keep_order(watcher_after(w, rs[0]), rs.drop_first());
        assert(w.queue.push(rs[0]) + rs.drop_first() =~= w.queue + rs);
    }
}

/// Where `insert_by_value` puts the report, given the first index whose value
/// is above it.
proof fn lemma_insert_position(s: Seq<ReportView>, r: ReportView, p: int)
    requires
        0 <= p <= s.len(),
        forall|k: int| 0 <= k < p ==> value_key(#[trigger] s[k]) <= value_key(r),
        p < s.len() ==> value_key(r) < value_key(s[p]),
    ensures
        insert_by_value(s, r) == s.insert(p, r),
    decreases s.len(),
{
    if s.len() == 0 {
        assert(s.insert(p, r) =~= seq![r]);
    } else if p == 0 {
        assert(s.insert(p, r) =~= seq![r] + s);
    } else {
        let rest = s.drop_first();
        assert forall|k: int| 0 <= k < p - 1 implies value_key(#[trigger] rest[k]) <= value_key(r) by {
            assert(rest[k] == s[k + 1]);
        }
        lemma_insert_position(rest, r, p - 1);
        assert(s.insert(p, r) =~= seq![s[0]] + rest.insert(p - 1, r));
    }
}

/// The best-seen table stays sorted and within its capacity.
pub proof fn lemma_table_after_sorted(best: Seq<ReportView>, r: ReportView, cap: nat)
    requires
        sorted_by_value(best),
        best.len() <= cap,
    ensures
        sorted_by_value(table_after(best, r, cap)),
        table_after(best, r, cap).len() <= cap,
{
    if usable(r.obj_func_val) is Some && (best.len() < cap || value_key(r) < value_key(best.last())) {
        lemma_position_spec(best, r, best.len());
        let p = position_spec(best, r, best.len());
        lemma_insert_position(best, r, p);
        let t = best.insert(p, r);
        assert forall|i: int, j: int| 0 <= i <= j < t.len() implies value_key(#[trigger] t[i]) <= value_key(
            #[trigger] t[j],
        ) by {
            if i < p && j > p {
                assert(value_key(t[i]) <= value_key(r));
                assert(value_key(r) < value_key(t[j]));
            }
        }
        assert forall|i: int| 0 <= i < t.len() implies usable(#[trigger] t[i].obj_func_val) is Some by {
            if i < p {
                assert(t[i] == best[i]);
            } else if i > p {
                assert(t[i] == best[i - 1]);
            }
        }
    }
}

/// The first index of a sorted table whose value is above the report's.
pub open spec fn position_spec(s: Seq<ReportView>, r: ReportView, n: nat) -> int
    decreases n,
{
    if n == 0 {
        0
    } else if value_key(s[n - 1]) <= value_key(r) {
        n as int
    } else {
        position_spec(s, r, (n - 1) as nat)
    }
}

proof fn lemma_position_spec(s: Seq<ReportView>, r: ReportView, n: nat)
    requires
        n <= s.len(),
        sorted_by_value(s),
    ensures
        0 <= position_spec(s, r, n) <= n,
        forall|k: int| 0 <= k < position_spec(s, r, n) ==> value_key(#[trigger] s[k]) <= value_key(r),
        forall|k: int| position_spec(s, r, n) <= k < n ==> value_key(r) < value_key(#[trigger] s[k]),
    decreases n,
{
    if n > 0 {
        lemma_position_spec(s, r, (n - 1) as nat);
        if value_key(s[n - 1]) <= value_key(r) {
            assert forall|k: int| 0 <= k < n implies value_key(#[trigger] s[k]) <= value_key(r) by {
                assert(value_key(s[k]) <= value_key(s[n - 1]));
            }
        }
    }
}

impl View for ProcessingWatcher {
    type V = WatcherView;

    closed spec fn view(&self) -> WatcherView {
        WatcherView {
            start_time: self.start_time,
            last_time: self.last_time,
            queue: report_views(self.eval_report_queue@),
            best: report_views(self.best_seen_reports@),
        }
    }
}

impl ProcessingWatcher {
    /// The best-seen table is sorted and within its capacity.
    pub open spec fn wf(&self) -> bool {
        &&& sorted_by_value(self@.best)
        &&& self@.best.len() <= BEST_SEEN_TABLE_SIZE_HINT
    }

    /// A watcher for a job that started at `time`.
    pub fn new(time: u64) -> (r: ProcessingWatcher)
        ensures
            r.wf(),
            r@ == (WatcherView {
                start_time: time,
                last_time: 0,
                queue: Seq::empty(),
                best: Seq::empty(),
            }),
    {
        let r = ProcessingWatcher {
            start_time: time,
            last_time: 0,
            eval_report_queue: Vec::new(),
            best_seen_reports: Vec::new(),
        };
        proof {
            assert(r@.queue =~= Seq::<ReportView>::empty());
            assert(r@.best =~= Seq::<ReportView>::empty());
        }
        r
    }

    /// Nanoseconds from the start to the latest clock reading.
    pub fn elapsed(&self) -> (r: u64)
        ensures
            r == self@.last_time,
    {
        self.last_time
    }

    /// Advances `last_time` to `time`, counted from the start; a clock reading
    /// before the start counts as the start.
    pub fn update(&mut self, time: u64)
        ensures
            final(self)@ == watcher_updated(old(self)@, time),
            old(self).wf() ==> final(self).wf(),
    {
        self.last_time = if time >= self.start_time { time - self.start_time } else { 0 };
    }

    /// Takes in a status message: a report joins the queue and may enter the
    /// best-seen table; other messages change nothing.
    pub fn on_delegate_status_msg(&mut self, message: &StatusMessage)
        requires
            old(self).wf(),
        ensures
            final(self).wf(),
            final(self)@ == watcher_after_msg(old(self)@, message@),
    {
        match message {
            StatusMessage::CandidateEvalReport(report) => self.on_report(report),
            _ => {},
        }
    }

    /// Appends a report to the queue and offers it to the best-seen table.
    pub fn on_report(&mut self, report: &CandidateEvalReport)
        requires
            old(self).wf(),
        ensures
            final(self).wf(),
            final(self)@ == watcher_after(old(self)@, report@),
    {
        let ghost old_view = self@;
        self.eval_report_queue.push(report.copy());
        proof {
            assert(report_views(self.eval_report_queue@) =~= old_view.queue.push(report@));
        }
        let ghost best = old_view.best;
        let ghost cap = BEST_SEEN_TABLE_SIZE_HINT as nat;
        proof {
            lemma_table_after_sorted(best, report@, cap);
        }
        match report.obj_func_val {
            Some(v) => {
                if !v.is_nan() {
                    let vk = v.order_key();
                    let n = self.best_seen_reports.len();
                    let enters = if n < BEST_SEEN_TABLE_SIZE_HINT {
                        true
                    } else {
                        proof {
                            assert(best[n - 1] == self.best_seen_reports@[n - 1]@);
                            assert(usable(best[n - 1].obj_func_val) is Some);
                        }
                        match self.best_seen_reports[n - 1].obj_func_val {
                            Some(w) => vk < w.order_key(),
                            None => false,
                        }
                    };
                    if enters {
                        let mut p: usize = 0;
                        let mut found = false;
                        while !found && p < n
                            invariant
                                p <= n,
                                n == self.best_seen_reports@.len(),
                                best == report_views(self.best_seen_reports@),
                                sorted_by_value(best),
                                report@.obj_func_val == Some(v),
                                !v.is_nan_spec(),
                                vk == v.key(),
                                forall|k: int| 0 <= k < p ==> value_key(#[trigger] best[k]) <= value_key(report@),
                                found ==> p < n && value_key(report@) < value_key(best[p as int]),
                            decreases n - p + (if found { 0int } else { 1int }),
                        {
                            proof {
                                assert(best[p as int] == self.best_seen_reports@[p as int]@);
                                assert(usable(best[p as int].obj_func_val) is Some);
                            }
                            let kp = match self.best_seen_reports[p].obj_func_val {
                                Some(w) => w.order_key(),
                                None => 0,
                            };
                            if kp <= vk {
                                p = p + 1;
                            } else {
                                found = true;
                            }
                        }
                        proof {
                            lemma_insert_position(best, report@, p as int);
                        }
                        self.best_seen_reports.insert(p, report.copy());
                        proof {
                            assert(report_views(self.best_seen_reports@) =~= best.insert(p as int, report@));
                        }
                        if self.best_seen_reports.len() > BEST_SEEN_TABLE_SIZE_HINT {
                            self.best_seen_reports.pop();
                            proof {
                                assert(report_views(self.best_seen_reports@) =~= best.insert(
                                    p as int,
                                    report@,
                                ).subrange(0, cap as int));
                            }
                        }
                    }
                }
            },
            None => {},
        }
    }

    /// A snapshot of the reports so far, with the size hints for consumers.
    pub fn compute_processing_state(&self) -> (r: ProcessingState)
        ensures
            r@ == (StateView {
                recent_candidate_eval_reports: self@.queue,
                best_seen_candidate_eval_reports: self@.best,
                time: self@.last_time,
                window_length_hint: CANDIDATE_WINDOW_LENGTH_HINT,
                best_seen_table_size_hint: BEST_SEEN_TABLE_SIZE_HINT,
            }),
    {
        ProcessingState {
            recent_candidate_eval_reports: copy_reports(&self.eval_report_queue),
            best_seen_candidate_eval_reports: copy_reports(&self.best_seen_reports),
            time: self.last_time,
            window_length_hint: CANDIDATE_WINDOW_LENGTH_HINT,
            best_seen_table_size_hint: BEST_SEEN_TABLE_SIZE_HINT,
        }
    }
}

} // verus!
