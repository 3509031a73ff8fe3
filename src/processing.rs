use vstd::prelude::*;

use crate::algo::ParallelHillClimbingConf;
use crate::domain::{CandidateEvalReport, ReportView};
use crate::ieee::{clamp, clamp_spec, RealBits};
use crate::param::{
    conforms,
    entry_fits,
    entry_in_bounds,
    in_bounds,
    initial_guess_of,
    lemma_initial_guess_fits,
    Candidate,
    Dim,
    ParamEntry,
    ParamValue,
    ParamsSpec,
};

verus! {

/// The random draw behind one dimension of a proposal: the flip of a
/// Bernoulli trial for a boolean, a normal sample centred on the origin's
/// value for a real, and such a sample truncated toward zero for an integer.
#[derive(Clone, Copy, Debug, PartialEq, Eq, Structural)]
pub enum Draw {
    Flip(bool),
    Real(RealBits),
    Int(i64),
}

pub open spec fn draw_fits(w: Draw, d: Dim) -> bool {
    match (d, w) {
        (Dim::Boolean(_), Draw::Flip(_)) => true,
        (Dim::RealNumber(_), Draw::Real(_)) => true,
        (Dim::Integer(_), Draw::Int(_)) => true,
        _ => false,
    }
}

/// One draw per dimension, each of the dimension's kind.
pub open spec fn draws_fit(ws: Seq<Draw>, dims: Seq<Dim>) -> bool {
    &&& ws.len() == dims.len()
    &&& forall|i: int| 0 <= i < ws.len() ==> #[trigger] draw_fits(ws[i], dims[i])
}

/// Whether there is one draw per dimension, each of the dimension's kind.
pub fn draws_match(params_spec: &ParamsSpec, draws: &Vec<Draw>) -> (r: bool)
    ensures
        r == draws_fit(draws@, params_spec.dims@),
{
    if draws.len() != params_spec.dims.len() {
        return false;
    }
    let mut i: usize = 0;
    while i < draws.len()
        invariant
            i <= draws.len(),
            draws@.len() == params_spec.dims@.len(),
            forall|k: int| 0 <= k < i ==> #[trigger] draw_fits(draws@[k], params_spec.dims@[k]),
        decreases draws.len() - i,
    {
        let fits = match (&params_spec.dims[i], draws[i]) {
            (Dim::Boolean(_), Draw::Flip(_)) => true,
            (Dim::RealNumber(_), Draw::Real(_)) => true,
            (Dim::Integer(_), Draw::Int(_)) => true,
            _ => false,
        };
        if !fits {
            proof {
                assert(!draw_fits(draws@[i as int], params_spec.dims@[i as int]));
            }
            return false;
        }
        i = i + 1;
    }
    true
}

/// `min(v, hi)` then `max(_, lo)`.
pub open spec fn clamp_int(v: i64, lo: i64, hi: i64) -> i64 {
    let capped = if v <= hi { v } else { hi };
    if capped >= lo { capped } else { lo }
}

/// The new value of one dimension: a boolean flips when the draw says so;
/// a number takes its draw, clamped into the closed range of the dimension.
pub open spec fn proposed_entry(e: ParamEntry, d: Dim, w: Draw) -> ParamEntry {
    match (d, e.value, w) {
        (Dim::Boolean(s), ParamValue::Bool(b), Draw::Flip(f)) => ParamEntry {
            name: s.name,
            value: ParamValue::Bool(f != b),
        },
        (Dim::RealNumber(s), _, Draw::Real(x)) => ParamEntry {
            name: s.dim_spec.name,
            value: ParamValue::Real(clamp_spec(x, s.min_value_incl, s.max_value_excl)),
        },
        (Dim::Integer(s), _, Draw::Int(x)) => ParamEntry {
            name: s.dim_spec.name,
            value: ParamValue::Int(clamp_int(x, s.min_value_incl, s.max_value_excl)),
        },
        _ => e,
    }
}

pub open spec fn proposal(from: Seq<ParamEntry>, dims: Seq<Dim>, draws: Seq<Draw>) -> Seq<ParamEntry> {
    Seq::new(dims.len(), |i: int| proposed_entry(from[i], dims[i], draws[i]))
}

/// A new candidate near `from_candidate`, dimension by dimension in the
/// order of the space.
pub fn create_candidate(from_candidate: &Candidate, params_spec: &ParamsSpec, draws: &Vec<Draw>) -> (r:
    Candidate)
    requires
        params_spec.valid(),
        conforms(from_candidate@, params_spec.dims@),
        draws_fit(draws@, params_spec.dims@),
    ensures
        r@ == proposal(from_candidate@, params_spec.dims@, draws@),
        conforms(r@, params_spec.dims@),
        in_bounds(r@, params_spec.dims@),
{
    let ghost target = proposal(from_candidate@, params_spec.dims@, draws@);
    let mut entries: Vec<ParamEntry> = Vec::new();
    let mut i: usize = 0;
    while i < params_spec.dims.len()
        invariant
            i <= params_spec.dims.len(),
            params_spec.valid(),
            conforms(from_candidate@, params_spec.dims@),
            draws_fit(draws@, params_spec.dims@),
            target == proposal(from_candidate@, params_spec.dims@, draws@),
            entries@ == target.subrange(0, i as int),
            forall|k: int| 0 <= k < i ==> #[trigger] entry_in_bounds(entries@[k], params_spec.dims@[k]),
        decreases params_spec.dims.len() - i,
    {
        proof {
            assert(params_spec.dims@[i as int].valid());
            assert(draw_fits(draws@[i as int], params_spec.dims@[i as int]));
        }
        let from_entry = &from_candidate.entries[i];
        let entry = match (&params_spec.dims[i], from_entry.value, draws[i]) {
            (Dim::Boolean(s), ParamValue::Bool(b), Draw::Flip(f)) => ParamEntry {
                name: s.name.clone(),
                value: ParamValue::Bool(f != b),
            },
            (Dim::RealNumber(s), _, Draw::Real(x)) => ParamEntry {
                name: s.dim_spec.name.clone(),
                value: ParamValue::Real(clamp(x, s.min_value_incl, s.max_value_excl)),
            },
            (Dim::Integer(s), _, Draw::Int(x)) => {
                let capped = if x <= s.max_value_excl { x } else { s.max_value_excl };
                let v = if capped >= s.min_value_incl { capped } else { s.min_value_incl };
                ParamEntry { name: s.dim_spec.name.clone(), value: ParamValue::Int(v) }
            },
            _ => from_entry.copy(),
        };
        entries.push(entry);
        i = i + 1;
        proof {
            assert(entries@ =~= target.subrange(0, i as int));
        }
    }
    proof {
        assert(entries@ =~= target);
        assert forall|k: int| 0 <= k < entries@.len() implies #[trigger] entry_fits(
            entries@[k],
            params_spec.dims@[k],
        ) by {
            assert(entry_fits(from_candidate@[k], params_spec.dims@[k]));
            assert(draw_fits(draws@[k], params_spec.dims@[k]));
        }
    }
    Candidate { entries }
}

/// The best evaluation so far.
#[derive(Debug)]
pub struct Seen {
    pub best_candidate: Candidate,
    pub best_obj_func_val: RealBits,
}

pub struct SeenView {
    pub best_candidate: Seq<ParamEntry>,
    pub best_obj_func_val: RealBits,
}

impl View for Seen {
    type V = SeenView;

    open spec fn view(&self) -> SeenView {
        SeenView { best_candidate: self.best_candidate@, best_obj_func_val: self.best_obj_func_val }
    }
}

pub open spec fn seen_view(s: Option<Seen>) -> Option<SeenView> {
    match s {
        Some(x) => Some(x@),
        None => None,
    }
}

pub open spec fn best_value(s: Option<SeenView>) -> Option<RealBits> {
    match s {
        Some(x) => Some(x.best_obj_func_val),
        None => None,
    }
}

pub open spec fn last_of(s: Seq<u64>) -> Option<u64> {
    if s.len() == 0 {
        None
    } else {
        Some(s.last())
    }
}

pub open spec fn non_decreasing(s: Seq<u64>) -> bool {
    forall|i: int, j: int| 0 <= i <= j < s.len() ==> s[i] <= s[j]
}

/// An objective value that counts: NaN counts as no value.
pub open spec fn usable(v: Option<RealBits>) -> Option<RealBits> {
    match v {
        Some(x) => if x.is_nan_spec() {
            None
        } else {
            Some(x)
        },
        None => None,
    }
}

/// A usable value replaces the best when there is none yet or when it is
/// strictly lower; on a tie the incumbent stays.
pub open spec fn improves(v: Option<RealBits>, seen: Option<SeenView>) -> bool {
    match v {
        Some(x) => match seen {
            Some(s) => x.less(s.best_obj_func_val),
            None => true,
        },
        None => false,
    }
}

/// The completion time recorded for an evaluation: the clock reading, but
/// never before its iteration started or before the previous completion.
pub open spec fn completion_time_of(now: u64, iteration_start: u64, latest: Option<u64>) -> u64 {
    let t = if now >= iteration_start { now } else { iteration_start };
    match latest {
        Some(l) => if l > t {
            l
        } else {
            t
        },
        None => t,
    }
}

/// The previous completion, when it came after this iteration started.
pub open spec fn interleaving(latest: Option<u64>, iteration_start: u64) -> Option<u64> {
    match latest {
        Some(t) => if t > iteration_start {
            Some(t)
        } else {
            None
        },
        None => None,
    }
}

/// The best evaluation after one more evaluation of `candidate`.
pub open spec fn seen_after(
    before: Option<SeenView>,
    candidate: Seq<ParamEntry>,
    obj_func_val: Option<RealBits>,
) -> Option<SeenView> {
    if improves(usable(obj_func_val), before) {
        Some(SeenView { best_candidate: candidate, best_obj_func_val: usable(obj_func_val)->0 })
    } else {
        before
    }
}

/// The report on one evaluation, given the record as it stood before.
pub open spec fn report_of(
    before: Option<SeenView>,
    latest: Option<u64>,
    candidate: Seq<ParamEntry>,
    obj_func_val: Option<RealBits>,
    now: u64,
    iteration_start_time: u64,
    processing_start_unix: u64,
) -> ReportView {
    ReportView {
        start_time: iteration_start_time,
        start_unix_timestamp: processing_start_unix.saturating_add(iteration_start_time),
        completion_time: completion_time_of(now, iteration_start_time, latest),
        obj_func_val: usable(obj_func_val),
        best_seen_obj_func_val_before: best_value(before),
        candidate,
        latest_interleaving_completion_time: interleaving(latest, iteration_start_time),
    }
}

/// An evaluation never raises the best value: once there is one, there stays
/// one, and it is at most what it was.
pub proof fn lemma_best_never_increases(
    before: Option<SeenView>,
    candidate: Seq<ParamEntry>,
    obj_func_val: Option<RealBits>,
)
    requires
        before matches Some(b) ==> !b.best_obj_func_val.is_nan_spec(),
    ensures
        before matches Some(b) ==> seen_after(before, candidate, obj_func_val) matches Some(a)
            && a.best_obj_func_val.key() <= b.best_obj_func_val.key(),
        seen_after(before, candidate, obj_func_val) matches Some(a) ==> !a.best_obj_func_val.is_nan_spec(),
{
}

/// What the search has learnt: the best evaluation, when one had a value,
/// and the time of every completion so far.
pub struct SearchRecord {
    pub seen: Option<Seen>,
    pub latest_completion_time: Option<u64>,
    pub completions: Ghost<Seq<u64>>,
}

impl SearchRecord {
    pub open spec fn wf(&self) -> bool {
        &&& (self.seen matches Some(s) ==> !s.best_obj_func_val.is_nan_spec())
        &&& self.latest_completion_time == last_of(self.completions@)
        &&& non_decreasing(self.completions@)
    }

    pub fn new() -> (r: SearchRecord)
        ensures
            r.wf(),
            r.seen is None,
            r.completions@ == Seq::<u64>::empty(),
    {
        SearchRecord { seen: None, latest_completion_time: None, completions: Ghost(Seq::empty()) }
    }

    /// Takes in the result of one evaluation and reports on it.
    pub fn record_completion(
        &mut self,
        candidate: Candidate,
        obj_func_val: Option<RealBits>,
        now: u64,
        iteration_start_time: u64,
        processing_start_unix: u64,
    ) -> (r: CandidateEvalReport)
        requires
            old(self).wf(),
        ensures
            final(self).wf(),
            final(self).completions@ == old(self).completions@.push(
                completion_time_of(now, iteration_start_time, old(self).latest_completion_time),
            ),
            seen_view(final(self).seen) == seen_after(seen_view(old(self).seen), candidate@, obj_func_val),
            r@ == report_of(
                seen_view(old(self).seen),
                old(self).latest_completion_time,
                candidate@,
                obj_func_val,
                now,
                iteration_start_time,
                processing_start_unix,
            ),
            r.start_time <= r.completion_time,
            old(self).seen matches Some(o) ==> final(self).seen matches Some(n)
                && n.best_obj_func_val.key() <= o.best_obj_func_val.key(),
            r.latest_interleaving_completion_time is Some <==> exists|i: int|
                0 <= i < old(self).completions@.len() && #[trigger] old(self).completions@[i] > iteration_start_time,
            r.latest_interleaving_completion_time matches Some(t) ==> forall|i: int|
                0 <= i < old(self).completions@.len() ==> #[trigger] old(self).completions@[i] <= t,
    {
        let value = match obj_func_val {
            Some(x) => if x.is_nan() {
                None
            } else {
                Some(x)
            },
            None => None,
        };
        let after_start = if now >= iteration_start_time { now } else { iteration_start_time };
        let latest_before = self.latest_completion_time;
        let completion_time = match latest_before {
            Some(l) => if l > after_start {
                l
            } else {
                after_start
            },
            None => after_start,
        };
        let obj_func_val_before = match &self.seen {
            Some(s) => Some(s.best_obj_func_val),
            None => None,
        };
        let replace = match value {
            Some(x) => match &self.seen {
                Some(s) => x.lt(&s.best_obj_func_val),
                None => true,
            },
            None => false,
        };
        if replace {
            self.seen = Some(Seen { best_candidate: candidate.copy(), best_obj_func_val: value.unwrap() });
        }
        self.latest_completion_time = Some(completion_time);
        let ghost old_completions = self.completions@;
        self.completions = Ghost(self.completions@.push(completion_time));
        let latest_interleaving_completion_time = match latest_before {
            Some(t) => if t > iteration_start_time {
                Some(t)
            } else {
                None
            },
            None => None,
        };
        proof {
            let n = old_completions.len();
            assert(self.completions@[n as int] == completion_time);
            if n > 0 {
                assert(old_completions[n - 1] == latest_before->0);
                assert forall|i: int| 0 <= i < n implies #[trigger] old_completions[i] <= latest_before->0 by {
                    assert(old_completions[i] == self.completions@[i]);
                }
                if latest_before->0 > iteration_start_time {
                    assert(old_completions[n - 1] > iteration_start_time);
                }
            }
        }
        CandidateEvalReport {
            start_time: iteration_start_time,
            start_unix_timestamp: processing_start_unix.saturating_add(iteration_start_time),
            completion_time,
            obj_func_val: value,
            best_seen_obj_func_val_before: obj_func_val_before,
            candidate,
            latest_interleaving_completion_time,
        }
    }
}

/// The state of a parallel hill climb between the steps of its driver.
pub struct HillClimbing {
    pub spec: ParamsSpec,
    pub conf: ParallelHillClimbingConf,
    pub initial_guess: Candidate,
    pub record: SearchRecord,
    pub processing_start_unix: u64,
}

/// Where new candidates start from: the best one so far, else the initial guess.
pub open spec fn origin_of(seen: Option<SeenView>, initial_guess: Seq<ParamEntry>) -> Seq<ParamEntry> {
    match seen {
        Some(s) => s.best_candidate,
        None => initial_guess,
    }
}

/// The first slot of the first iteration evaluates the initial guess itself.
pub open spec fn is_initial_slot(iteration: u64, index: usize) -> bool {
    iteration == 0 && index == 0
}

impl HillClimbing {
    pub open spec fn wf(&self) -> bool {
        &&& self.spec.valid()
        &&& self.initial_guess@ == initial_guess_of(self.spec.dims@)
        &&& self.record.wf()
        &&& (self.record.seen matches Some(s) ==> conforms(s.best_candidate@, self.spec.dims@))
    }

    pub open spec fn origin_spec(&self) -> Seq<ParamEntry> {
        origin_of(seen_view(self.record.seen), self.initial_guess@)
    }

    /// A search that has seen nothing yet. `processing_start_unix` is the
    /// start of processing in nanoseconds since the Unix epoch.
    pub fn new(spec: ParamsSpec, conf: ParallelHillClimbingConf, processing_start_unix: u64) -> (r:
        HillClimbing)
        requires
            spec.valid(),
        ensures
            r.wf(),
            r.spec.dims@ == spec.dims@,
            r.conf == conf,
            r.processing_start_unix == processing_start_unix,
            r.record.seen is None,
            r.record.completions@ == Seq::<u64>::empty(),
    {
        let initial_guess = spec.extract_initial_guess();
        HillClimbing { spec, conf, initial_guess, record: SearchRecord::new(), processing_start_unix }
    }

    pub fn origin(&self) -> (r: &Candidate)
        requires
            self.wf(),
        ensures
            r@ == self.origin_spec(),
            conforms(r@, self.spec.dims@),
    {
        match &self.record.seen {
            Some(s) => &s.best_candidate,
            None => &self.initial_guess,
        }
    }

    pub fn uses_initial_guess(iteration: u64, index: usize) -> (r: bool)
        ensures
            r == is_initial_slot(iteration, index),
    {
        iteration == 0 && index == 0
    }

    /// The candidate of slot `index` in iteration `iteration`. The draws are
    /// not read for the slot that evaluates the initial guess.
    pub fn next_candidate(&self, iteration: u64, index: usize, draws: &Vec<Draw>) -> (r: Candidate)
        requires
            self.wf(),
            !is_initial_slot(iteration, index) ==> draws_fit(draws@, self.spec.dims@),
        ensures
            is_initial_slot(iteration, index) ==> r@ == initial_guess_of(self.spec.dims@),
            !is_initial_slot(iteration, index) ==> r@ == proposal(
                self.origin_spec(),
                self.spec.dims@,
                draws@,
            ),
            r@ == proposed_for(self.spec.dims@, seen_view(self.record.seen), iteration, index, draws@),
            conforms(r@, self.spec.dims@),
            in_bounds(r@, self.spec.dims@),
    {
        if Self::uses_initial_guess(iteration, index) {
            let r = self.initial_guess.copy();
            proof {
                lemma_initial_guess_fits(self.spec.dims@);
            }
            r
        } else {
            create_candidate(self.origin(), &self.spec, draws)
        }
    }

    /// Records an evaluated candidate of the iteration that started at
    /// `iteration_start_time` and reports on it.
    pub fn on_evaluated(
        &mut self,
        candidate: Candidate,
        obj_func_val: Option<RealBits>,
        now: u64,
        iteration_start_time: u64,
    ) -> (r: CandidateEvalReport)
        requires
            old(self).wf(),
            conforms(candidate@, old(self).spec.dims@),
        ensures
            final(self).wf(),
            final(self).spec == old(self).spec,
            final(self).conf == old(self).conf,
            final(self).initial_guess == old(self).initial_guess,
            final(self).processing_start_unix == old(self).processing_start_unix,
            final(self).record.completions@ == old(self).record.completions@.push(
                completion_time_of(now, iteration_start_time, old(self).record.latest_completion_time),
            ),
            seen_view(final(self).record.seen) == seen_after(
                seen_view(old(self).record.seen),
                candidate@,
                obj_func_val,
            ),
            r@ == report_of(
                seen_view(old(self).record.seen),
                old(self).record.latest_completion_time,
                candidate@,
                obj_func_val,
                now,
                iteration_start_time,
                old(self).processing_start_unix,
            ),
            r.start_time <= r.completion_time,
            old(self).record.seen matches Some(o) ==> final(self).record.seen matches Some(n)
                && n.best_obj_func_val.key() <= o.best_obj_func_val.key(),
            r.latest_interleaving_completion_time is Some <==> exists|i: int|
                0 <= i < old(self).record.completions@.len()
                    && #[trigger] old(self).record.completions@[i] > iteration_start_time,
    {
        self.record.record_completion(
            candidate,
            obj_func_val,
            now,
            iteration_start_time,
            self.processing_start_unix,
        )
    }
}

/// One step of a search as its driver takes it: a proposal for a slot of an
/// iteration from its draws, or an evaluated candidate with its value, the
/// clock reading at completion and its iteration's start time.
pub enum SearchStep {
    Propose(u64, usize, Seq<Draw>),
    Evaluated(Seq<ParamEntry>, Option<RealBits>, u64, u64),
}

/// The candidate proposed for a slot, given the best evaluation so far.
pub open spec fn proposed_for(
    dims: Seq<Dim>,
    seen: Option<SeenView>,
    iteration: u64,
    index: usize,
    draws: Seq<Draw>,
) -> Seq<ParamEntry> {
    if is_initial_slot(iteration, index) {
        initial_guess_of(dims)
    } else {
        proposal(origin_of(seen, initial_guess_of(dims)), dims, draws)
    }
}

/// The candidates that a sequence of steps proposes, from a record that
/// holds `seen` and whose latest completion is `latest`.
pub open spec fn proposals(
    dims: Seq<Dim>,
    seen: Option<SeenView>,
    latest: Option<u64>,
    steps: Seq<SearchStep>,
) -> Seq<Seq<ParamEntry>>
    decreases steps.len(),
{
    if steps.len() == 0 {
        Seq::empty()
    } else {
        match steps[0] {
            SearchStep::Propose(it, k, draws) => seq![proposed_for(dims, seen, it, k, draws)]
                + proposals(dims, seen, latest, steps.drop_first()),
            SearchStep::Evaluated(c, v, now, start) => proposals(
                dims,
                seen_after(seen, c, v),
                Some(completion_time_of(now, start, latest)),
                steps.drop_first(),
            ),
        }
    }
}

/// The two steps are the same but for the clock readings of an evaluation.
pub open spec fn same_but_clock(a: SearchStep, b: SearchStep) -> bool {
    match (a, b) {
        (SearchStep::Propose(i1, k1, d1), SearchStep::Propose(i2, k2, d2)) => i1 == i2 && k1 == k2 && d1
            == d2,
        (SearchStep::Evaluated(c1, v1, _, _), SearchStep::Evaluated(c2, v2, _, _)) => c1 == c2 && v1
            == v2,
        _ => false,
    }
}

/// Two searches of one space that draw the same numbers and see the same
/// objective values in the same order propose the same candidates, however
/// their clocks run.
pub proof fn lemma_proposals_reproducible(
    dims: Seq<Dim>,
    seen: Option<SeenView>,
    latest1: Option<u64>,
    latest2: Option<u64>,
    steps1: Seq<SearchStep>,
    steps2: Seq<SearchStep>,
)
    requires
        steps1.len() == steps2.len(),
        forall|i: int| 0 <= i < steps1.len() ==> same_but_clock(#[trigger] steps1[i], steps2[i]),
    ensures
        proposals(dims, seen, latest1, steps1) == proposals(dims, seen, latest2, steps2),
    decreases steps1.len(),
{
    if steps1.len() > 0 {
        let r1 = steps1.drop_first();
        let r2 = steps2.drop_first();
        assert forall|i: int| 0 <= i < r1.len() implies same_but_clock(#[trigger] r1[i], r2[i]) by {
            assert(r1[i] == steps1[i + 1]);
            assert(r2[i] == steps2[i + 1]);
        }
        assert(same_but_clock(steps1[0], steps2[0]));
        match (steps1[0], steps2[0]) {
            (SearchStep::Evaluated(c, v, n1, s1), SearchStep::Evaluated(_, _, n2, s2)) => {
                lemma_proposals_reproducible(
                    dims,
                    seen_after(seen, c, v),
                    Some(completion_time_of(n1, s1, latest1)),
                    Some(completion_time_of(n2, s2, latest2)),
                    r1,
                    r2,
                );
            },
            _ => {
                lemma_proposals_reproducible(dims, seen, latest1, latest2, r1, r2);
            },
        }
    }
}

} // verus!
