//! The controller: tables, policy parameters, sample window and the
//! per-iteration entry point.

use vstd::prelude::*;
use crate::actuator::{
    applied, configurations_distinct, lemma_simulated_reports_target, Actuator,
};
use crate::policy::{
    adopt_index, adopted_index, choose_target, lemma_band_holds_state, lemma_bounded_advance,
    lemma_target_in_table, mean_below_goal, mean_sample, policy_target, rate_in_band, rates_in_band, slide,
    speedup_increasing, window_means, LogRecord, Sample,
};
use crate::states::{ControlState, CpuState, PoetError};

verus! {

/// The mathematical state of a controller.
pub struct Model {
    pub goal: u64,
    pub period: u32,
    pub depth: u32,
    pub control: Seq<ControlState>,
    pub cpu: Seq<CpuState>,
    /// Position of the operating point in force.
    pub index: int,
    /// Calls seen since the last decision epoch ended.
    pub calls: u32,
    /// The most recent samples, oldest first.
    pub window: Seq<Sample>,
    pub logging: bool,
    /// The record of the latest call, kept only while logging.
    pub last_record: Option<LogRecord>,
}

/// One call as the model sees it: its arguments and what the actuator's
/// query returns if the call comes to ask.
pub struct Call {
    pub tag: u64,
    pub sample: Sample,
    pub status: i32,
    pub reported: int,
}

impl Model {
    /// Parallel non-empty tables, positive period and depth, a position in
    /// the table, a call count within the epoch and a window within its depth.
    pub open spec fn wf(self) -> bool {
        &&& self.control.len() == self.cpu.len()
        &&& self.control.len() > 0
        &&& self.period >= 1
        &&& self.depth >= 1
        &&& 0 <= self.index < self.control.len()
        &&& self.calls < self.period
        &&& self.window.len() <= self.depth
    }

    /// The call being made completes a decision epoch.
    pub open spec fn epoch_ends(self) -> bool {
        self.calls + 1 == self.period
    }

    /// The state once a sample is buffered and the call counted.
    pub open spec fn observed(self, s: Sample) -> Model {
        Model {
            window: slide(self.window, self.depth as int, s),
            calls: if self.epoch_ends() {
                0
            } else {
                (self.calls + 1) as u32
            },
            ..self
        }
    }

    /// The position asked for by the call that buffers `s`: the policy's
    /// choice over the new window at an epoch's end, else the current one.
    pub open spec fn decision(self, s: Sample) -> int {
        if self.epoch_ends() {
            policy_target(self.control, self.observed(s).window, self.goal, self.index)
        } else {
            self.index
        }
    }

    /// The state once the actuator's report is taken in.
    pub open spec fn adopted(self, status: i32, reported: int) -> Model {
        Model {
            index: adopted_index(self.index, self.control.len() as int, status, reported),
            ..self
        }
    }

    /// The state after one whole call, given what the actuator's query
    /// returns should the call ask for an actuation: the sample is buffered,
    /// the report is taken in where the decision differs from the position in
    /// force, and the call is recorded.
    pub open spec fn called(self, tag: u64, s: Sample, status: i32, reported: int) -> Model {
        if self.decision(s) == self.index {
            self.observed(s).logged(tag, s)
        } else {
            self.observed(s).adopted(status, reported).logged(tag, s)
        }
    }

    /// The state after a run of calls, the first of `calls` made first.
    pub open spec fn after_calls(self, calls: Seq<Call>) -> Model
        decreases calls.len(),
    {
        if calls.len() == 0 {
            self
        } else {
            let c = calls.last();
            self.after_calls(calls.drop_last()).called(c.tag, c.sample, c.status, c.reported)
        }
    }

    /// The state once the call is recorded, where logging is enabled.
    pub open spec fn logged(self, tag: u64, s: Sample) -> Model {
        Model {
            last_record: if self.logging {
                Some(
                    LogRecord { tag, rate: s.rate, power: s.power, state_index: self.index as usize },
                )
            } else {
                None
            },
            ..self
        }
    }
}

/// What construction yields: an error for tables that are empty or differ
/// in length, else an error for a zero period or depth, else a controller at
/// position 0 with an empty window.
pub open spec fn construction(
    perf_goal: u64,
    control: Seq<ControlState>,
    cpu: Seq<CpuState>,
    period: u32,
    buffer_depth: u32,
    logging: bool,
) -> Result<Model, PoetError> {
    if control.len() != cpu.len() || control.len() == 0 {
        Err(PoetError::MismatchedTableLength)
    } else if period == 0 || buffer_depth == 0 {
        Err(PoetError::Initialization)
    } else {
        Ok(
            Model {
                goal: perf_goal,
                period,
                depth: buffer_depth,
                control,
                cpu,
                index: 0,
                calls: 0,
                window: Seq::empty(),
                logging,
                last_record: None,
            },
        )
    }
}

/// A controller and the actuator it drives.
pub struct POET<A: Actuator> {
    perf_goal: u64,
    period: u32,
    buffer_depth: u32,
    control_states: Vec<ControlState>,
    cpu_states: Vec<CpuState>,
    actuator: A,
    current: usize,
    calls: u32,
    window: Vec<Sample>,
    logging: bool,
    last_record: Option<LogRecord>,
}

impl<A: Actuator> View for POET<A> {
    type V = Model;

    closed spec fn view(&self) -> Model {
        Model {
            goal: self.perf_goal,
            period: self.period,
            depth: self.buffer_depth,
            control: self.control_states@,
            cpu: self.cpu_states@,
            index: self.current as int,
            calls: self.calls,
            window: self.window@,
            logging: self.logging,
            last_record: self.last_record,
        }
    }
}

impl<A: Actuator> POET<A> {
    /// The actuator as it stands.
    pub closed spec fn actuator_state(&self) -> A {
        self.actuator
    }

    /// Builds a controller that owns both tables and the actuator.
    pub fn new(
        perf_goal: u64,
        control_states: Vec<ControlState>,
        cpu_states: Vec<CpuState>,
        actuator: A,
        period: u32,
        buffer_depth: u32,
        logging: bool,
    ) -> (r: Result<POET<A>, PoetError>)
        ensures
            match r {
                Ok(p) => construction(
                    perf_goal,
                    control_states@,
                    cpu_states@,
                    period,
                    buffer_depth,
                    logging,
                ) == Ok::<Model, PoetError>(p@) && p.actuator_state() == actuator && p@.wf(),
                Err(e) => construction(
                    perf_goal,
                    control_states@,
                    cpu_states@,
                    period,
                    buffer_depth,
                    logging,
                ) == Err::<Model, PoetError>(e),
            },
    {
        if control_states.len() != cpu_states.len() || control_states.len() == 0 {
            return Err(PoetError::MismatchedTableLength);
        }
        if period == 0 || buffer_depth == 0 {
            return Err(PoetError::Initialization);
        }
        let poet = POET {
            perf_goal,
            period,
            buffer_depth,
            control_states,
            cpu_states,
            actuator,
            current: 0,
            calls: 0,
            window: Vec::new(),
            logging,
            last_record: None,
        };
        assert(poet@.window =~= Seq::empty());
        Ok(poet)
    }

    /// Buffers one sample, counts the call and returns the position the
    /// policy asks for. The position in force is left as it is.
    pub fn observe(&mut self, rate: u64, power: u64) -> (target: usize)
        requires
            old(self)@.wf(),
        ensures
            final(self)@ == old(self)@.observed(Sample { rate, power }),
            target == old(self)@.decision(Sample { rate, power }),
            target < final(self)@.control.len(),
            final(self)@.wf(),
            final(self).actuator_state() == old(self).actuator_state(),
    {
        let sample = Sample { rate, power };
        self.window.push(sample);
        if self.window.len() > self.buffer_depth as usize {
            self.window.remove(0);
        }
        assert(self.window@ =~= slide(old(self).window@, self.buffer_depth as int, sample));
        if self.calls + 1 == self.period {
            self.calls = 0;
            choose_target(&self.control_states, &self.window, self.perf_goal, self.current)
        } else {
            self.calls = self.calls + 1;
            self.current
        }
    }

    /// Takes in what the actuator's query returned after an actuation.
    pub fn adopt(&mut self, status: i32, reported: usize)
        requires
            old(self)@.wf(),
        ensures
            final(self)@ == old(self)@.adopted(status, reported as int),
            final(self)@.wf(),
            final(self).actuator_state() == old(self).actuator_state(),
    {
        self.current = adopt_index(self.current, self.control_states.len(), status, reported);
    }

    /// One iteration of the control loop. The sample is buffered and the
    /// call counted. Where the policy asks for another position, that
    /// position is applied through the actuator with the position in force
    /// as the previous one, the actuator is queried, and its report settles
    /// the position in force; otherwise the actuator is left alone. The call
    /// is then recorded where logging is enabled.
    pub fn apply_control(&mut self, tag: u64, window_rate: u64, window_power: u64)
        requires
            old(self)@.wf(),
        ensures
            final(self)@.wf(),
            ({
                let s = Sample { rate: window_rate, power: window_power };
                if old(self)@.decision(s) == old(self)@.index {
                    &&& final(self)@ == old(self)@.observed(s).logged(tag, s)
                    &&& final(self).actuator_state() == old(self).actuator_state()
                } else {
                    &&& A::applies(
                        old(self).actuator_state(),
                        final(self).actuator_state(),
                        old(self)@.cpu,
                        old(self)@.decision(s),
                        old(self)@.index,
                    )
                    &&& exists|status: i32, reported: int|
                        {
                            &&& #[trigger] final(self).actuator_state().reports(
                                old(self)@.cpu,
                                status,
                                reported,
                            )
                            &&& final(self)@ == old(self)@.called(tag, s, status, reported)
                        }
                }
            }),
    {
        let target = self.observe(window_rate, window_power);
        let ghost s = Sample { rate: window_rate, power: window_power };
        if target != self.current {
            let previous = self.current;
            self.actuator.apply(&self.cpu_states, target, previous);
            let report = self.actuator.current_state(&self.cpu_states);
            self.adopt(report.0, report.1);
            self.record(tag, window_rate, window_power);
            assert(self.actuator_state().reports(old(self)@.cpu, report.0, report.1 as int));
            assert(self@ == old(self)@.called(tag, s, report.0, report.1 as int));
        } else {
            self.record(tag, window_rate, window_power);
        }
    }

    /// Keeps the record of a call where logging is enabled.
    fn record(&mut self, tag: u64, rate: u64, power: u64)
        ensures
            final(self)@ == old(self)@.logged(tag, Sample { rate, power }),
            final(self).actuator_state() == old(self).actuator_state(),
    {
        if self.logging {
            self.last_record = Some(LogRecord { tag, rate, power, state_index: self.current });
        } else {
            self.last_record = None;
        }
    }

    /// Position of the operating point in force.
    pub fn current_state_index(&self) -> (i: usize)
        ensures
            i == self@.index,
    {
        self.current
    }

    /// The control table.
    pub fn control_states(&self) -> (t: &Vec<ControlState>)
        ensures
            t@ == self@.control,
    {
        &self.control_states
    }

    /// The cpu table.
    pub fn cpu_states(&self) -> (t: &Vec<CpuState>)
        ensures
            t@ == self@.cpu,
    {
        &self.cpu_states
    }

    /// The record of the latest call; `None` while logging is disabled or
    /// before the first call.
    pub fn last_record(&self) -> (r: Option<LogRecord>)
        ensures
            r == self@.last_record,
    {
        self.last_record
    }

    /// The means of rate and power over the samples held, rounded down;
    /// `None` before the first call.
    pub fn window_means(&self) -> (mean: Option<Sample>)
        requires
            self@.wf(),
        ensures
            mean == window_means(self@.window),
    {
        mean_sample(&self.window)
    }

    /// The actuator this controller drives.
    pub fn actuator(&self) -> (a: &A)
        ensures
            *a == self.actuator_state(),
    {
        &self.actuator
    }
}

/// Construction succeeds exactly for parallel non-empty tables with a
/// positive period and a positive buffer depth. Unusable tables fail as a
/// length mismatch, a zero period or depth as a failed initialization, and a
/// controller that is built is well formed and starts at position 0 with an
/// empty window.
pub proof fn lemma_construction(
    perf_goal: u64,
    control: Seq<ControlState>,
    cpu: Seq<CpuState>,
    period: u32,
    buffer_depth: u32,
    logging: bool,
)
    ensures
        construction(perf_goal, control, cpu, period, buffer_depth, logging) is Ok <==> (
        control.len() == cpu.len() && control.len() > 0 && period >= 1 && buffer_depth >= 1),
        construction(perf_goal, control, cpu, period, buffer_depth, logging) matches Ok(m) ==> m.wf()
            && m.index == 0 && m.calls == 0 && m.window.len() == 0 && m.control == control && m.cpu
            == cpu && m.goal == perf_goal && m.period == period && m.depth == buffer_depth,
        construction(perf_goal, control, cpu, period, buffer_depth, logging) matches Err(e) ==> e
            == (if control.len() != cpu.len() || control.len() == 0 {
            PoetError::MismatchedTableLength
        } else {
            PoetError::Initialization
        }),
{
}

/// A well-formed controller stays well formed through a call, whatever the
/// sample and whatever the actuator reports; between epochs, and at an epoch
/// whose decision is to stay, the position does not move.
pub proof fn lemma_call_preserves_wf(m: Model, tag: u64, s: Sample, status: i32, reported: int)
    requires
        m.wf(),
    ensures
        m.observed(s).wf(),
        m.observed(s).index == m.index,
        0 <= m.decision(s) < m.control.len(),
        !m.epoch_ends() ==> m.decision(s) == m.index,
        m.observed(s).adopted(status, reported).wf(),
        m.observed(s).adopted(status, reported).logged(tag, s).wf(),
        m.observed(s).logged(tag, s).wf(),
        m.observed(s).logged(tag, s).index == m.index,
{
    lemma_target_in_table(m.control, m.observed(s).window, m.goal, m.index);
}

/// With a single state the position is 0 before and after every call,
/// whatever the sample and whatever the actuator reports, and no call asks
/// for an actuation.
pub proof fn lemma_single_state_controller(
    m: Model,
    tag: u64,
    s: Sample,
    status: i32,
    reported: int,
)
    requires
        m.wf(),
        m.control.len() == 1,
    ensures
        m.index == 0,
        m.decision(s) == 0,
        m.observed(s).logged(tag, s).index == 0,
        m.observed(s).adopted(status, reported).logged(tag, s).index == 0,
{
}

/// Bounded step for the controller: over a table of strictly increasing
/// speedup one call asks for a position at most one ahead of the one in
/// force, and where the actuator reports the position asked for, the
/// position in force moves ahead by at most one.
pub proof fn lemma_call_advances_by_one(m: Model, s: Sample)
    requires
        m.wf(),
        speedup_increasing(m.control),
    ensures
        m.decision(s) <= m.index + 1,
        m.observed(s).adopted(0, m.decision(s)).index <= m.index + 1,
{
    lemma_bounded_advance(m.control, m.observed(s).window, m.goal, m.index);
    lemma_target_in_table(m.control, m.observed(s).window, m.goal, m.index);
}

/// A well-formed controller is well formed after every run of calls.
pub proof fn lemma_calls_preserve_wf(m: Model, calls: Seq<Call>)
    requires
        m.wf(),
    ensures
        m.after_calls(calls).wf(),
        m.after_calls(calls).control == m.control,
        m.after_calls(calls).cpu == m.cpu,
        m.after_calls(calls).goal == m.goal,
        m.after_calls(calls).depth == m.depth,
        m.after_calls(calls).period == m.period,
    decreases calls.len(),
{
    if calls.len() > 0 {
        let c = calls.last();
        lemma_calls_preserve_wf(m, calls.drop_last());
        lemma_call_preserves_wf(
            m.after_calls(calls.drop_last()),
            c.tag,
            c.sample,
            c.status,
            c.reported,
        );
    }
}

/// Single-state stability: with one state the position is 0 after every run
/// of calls, whatever the samples and whatever the actuator reports.
pub proof fn lemma_single_state_run(m: Model, calls: Seq<Call>)
    requires
        m.wf(),
        m.control.len() == 1,
    ensures
        m.after_calls(calls).index == 0,
{
    lemma_calls_preserve_wf(m, calls);
}

/// Sliding a rate of the band into a window of such rates leaves a window
/// of such rates.
pub proof fn lemma_slide_in_band(w: Seq<Sample>, depth: int, s: Sample, goal: u64)
    requires
        depth >= 1,
        rates_in_band(w, goal),
        rate_in_band(s, goal),
    ensures
        rates_in_band(slide(w, depth, s), goal),
{
    let next = slide(w, depth, s);
    assert forall|k: int| 0 <= k < next.len() implies rate_in_band(#[trigger] next[k], goal) by {
        if w.len() < depth {
            if k < w.len() {
                assert(next[k] == w[k]);
            } else {
                assert(next[k] == s);
            }
        } else {
            if k < w.len() - 1 {
                assert(next[k] == w[k + 1]);
            } else {
                assert(next[k] == s);
            }
        }
    }
}

/// Hysteresis over a run: while the window and every new sample hold only
/// rates between the goal and the goal plus the margin, no call of the run
/// moves the position, however the rates wander inside the band.
pub proof fn lemma_band_run_holds_state(m: Model, calls: Seq<Call>)
    requires
        m.wf(),
        rates_in_band(m.window, m.goal),
        forall|k: int| 0 <= k < calls.len() ==> rate_in_band((#[trigger] calls[k]).sample, m.goal),
    ensures
        m.after_calls(calls).index == m.index,
        rates_in_band(m.after_calls(calls).window, m.goal),
    decreases calls.len(),
{
    if calls.len() > 0 {
        let c = calls.last();
        let head = calls.drop_last();
        assert forall|k: int| 0 <= k < head.len() implies rate_in_band(
            (#[trigger] head[k]).sample,
            m.goal,
        ) by {
            assert(head[k] == calls[k]);
        }
        lemma_band_run_holds_state(m, head);
        lemma_calls_preserve_wf(m, head);
        let before = m.after_calls(head);
        assert(calls[calls.len() - 1] == c);
        lemma_slide_in_band(before.window, before.depth as int, c.sample, m.goal);
        lemma_band_holds_state(before.control, before.observed(c.sample).window, m.goal, before.index);
    }
}

/// Bounded step, end to end: a controller that drives a simulated processor
/// over distinct configurations ends a call at the position the policy
/// asked for, and over a table of strictly increasing speedup that position
/// is at most one ahead of the one held before; it is exactly one ahead
/// where the mean rate is below the goal and a faster state exists.
pub proof fn lemma_simulated_call_steps_by_one(
    m: Model,
    tag: u64,
    s: Sample,
    status: i32,
    reported: int,
)
    requires
        m.wf(),
        speedup_increasing(m.control),
        configurations_distinct(m.cpu),
        m.decision(s) != m.index ==> applied(m.cpu, m.decision(s)).reports(m.cpu, status, reported),
    ensures
        m.called(tag, s, status, reported).index == m.decision(s),
        m.called(tag, s, status, reported).index <= m.index + 1,
        m.epoch_ends() && mean_below_goal(m.observed(s).window, m.goal) && m.index < m.control.len()
            - 1 ==> m.called(tag, s, status, reported).index == m.index + 1,
{
    lemma_bounded_advance(m.control, m.observed(s).window, m.goal, m.index);
    lemma_target_in_table(m.control, m.observed(s).window, m.goal, m.index);
    if m.decision(s) != m.index {
        lemma_simulated_reports_target(m.cpu, m.decision(s), status, reported);
    }
}

} // verus!
