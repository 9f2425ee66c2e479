//! The actuation bridge: how decisions reach the hardware and how the
//! active configuration is read back.

use vstd::prelude::*;
use crate::states::CpuState;

verus! {

/// The two capabilities a controller needs from the platform.
///
/// An implementation may say in `applies` and `reports` what its two
/// methods do; one that says nothing promises nothing. The controller relies
/// on neither: it adopts a usable report and keeps its own position
/// otherwise.
pub trait Actuator: Sized {
    /// `after` is an actuator that applying position `target` of `cpu` may
    /// leave where `before` was. Unless an implementation says more,
    /// anything may.
    open spec fn applies(
        before: Self,
        after: Self,
        cpu: Seq<CpuState>,
        target: int,
        previous: int,
    ) -> bool {
        true
    }

    /// A query over `cpu` may return `status` and `position`. Unless an
    /// implementation says more, it may return anything.
    open spec fn reports(self, cpu: Seq<CpuState>, status: i32, position: int) -> bool {
        true
    }

    /// Puts the platform into the configuration at position `target_id` of
    /// `cpu_states`. `previous_id` is the position held so far; it is
    /// advisory only.
    fn apply(&mut self, cpu_states: &Vec<CpuState>, target_id: usize, previous_id: usize)
        requires
            target_id < cpu_states@.len(),
        ensures
            Self::applies(
                *old(self),
                *final(self),
                cpu_states@,
                target_id as int,
                previous_id as int,
            ),
    ;

    /// Reports a status, 0 for success, and the position of the entry that
    /// matches the active configuration, or a value of at least the table's
    /// length where none matches.
    fn current_state(&self, cpu_states: &Vec<CpuState>) -> (report: (i32, usize))
        ensures
            self.reports(cpu_states@, report.0, report.1 as int),
    ;
}

/// A processor kept in memory: the frequency its cores run at and how many
/// of them are active.
#[derive(Clone, Copy, Debug, PartialEq, Eq, Structural)]
pub struct SimulatedCpu {
    pub freq: u32,
    pub cores: u32,
}

/// Entry `e` describes exactly the configuration `cpu` is in.
pub open spec fn matches_cpu(e: CpuState, cpu: SimulatedCpu) -> bool {
    e.freq == cpu.freq && e.cores == cpu.cores
}

/// `r` is the first position whose entry matches `cpu`, or the table's
/// length where no entry does.
pub open spec fn is_active_index(t: Seq<CpuState>, cpu: SimulatedCpu, r: int) -> bool {
    &&& 0 <= r <= t.len()
    &&& r < t.len() ==> matches_cpu(t[r], cpu)
    &&& forall|k: int| 0 <= k < r ==> !matches_cpu(#[trigger] t[k], cpu)
}

/// The processor after the entry at `target` was applied to it.
pub open spec fn applied(t: Seq<CpuState>, target: int) -> SimulatedCpu {
    SimulatedCpu { freq: t[target].freq, cores: t[target].cores }
}

impl Actuator for SimulatedCpu {
    /// Applying a target leaves the processor in the target's configuration,
    /// whatever it was in before.
    open spec fn applies(
        before: Self,
        after: Self,
        cpu: Seq<CpuState>,
        target: int,
        previous: int,
    ) -> bool {
        after == applied(cpu, target)
    }

    /// A query succeeds and names the first entry that matches.
    open spec fn reports(self, cpu: Seq<CpuState>, status: i32, position: int) -> bool {
        status == 0 && is_active_index(cpu, self, position)
    }

    fn apply(&mut self, cpu_states: &Vec<CpuState>, target_id: usize, previous_id: usize) {
        self.freq = cpu_states[target_id].freq;
        self.cores = cpu_states[target_id].cores;
    }

    fn current_state(&self, cpu_states: &Vec<CpuState>) -> (report: (i32, usize)) {
        let count = cpu_states.len();
        let mut k: usize = 0;
        while k < count
            invariant
                k <= count == cpu_states@.len(),
                forall|m: int| 0 <= m < k ==> !matches_cpu(#[trigger] cpu_states@[m], *self),
            decreases count - k,
        {
            if cpu_states[k].freq == self.freq && cpu_states[k].cores == self.cores {
                return (0, k);
            }
            k = k + 1;
        }
        (0, count)
    }
}

/// At most one position is the active one.
pub proof fn lemma_active_index_unique(t: Seq<CpuState>, cpu: SimulatedCpu, a: int, b: int)
    requires
        is_active_index(t, cpu, a),
        is_active_index(t, cpu, b),
    ensures
        a == b,
{
    if a < b {
        assert(!matches_cpu(t[a], cpu));
    } else if b < a {
        assert(!matches_cpu(t[b], cpu));
    }
}

/// Applying a target is idempotent: a second application of the same
/// target leaves the processor as the first did, whatever it was in before,
/// so the next query reports the same position. That position is never a
/// sentinel, lies at or before the target, and names an entry with the
/// target's frequency and core count.
pub proof fn lemma_apply_idempotent(
    t: Seq<CpuState>,
    target: int,
    once: SimulatedCpu,
    twice: SimulatedCpu,
    first_query: int,
    second_query: int,
)
    requires
        0 <= target < t.len(),
        once == applied(t, target),
        twice == applied(t, target),
        is_active_index(t, once, first_query),
        is_active_index(t, twice, second_query),
    ensures
        once == twice,
        first_query == second_query,
        0 <= first_query <= target,
        t[first_query].freq == t[target].freq,
        t[first_query].cores == t[target].cores,
{
    lemma_active_index_unique(t, once, first_query, second_query);
    if first_query > target {
        assert(!matches_cpu(t[target], once));
    }
}

/// No two entries describe the same configuration.
pub open spec fn configurations_distinct(t: Seq<CpuState>) -> bool {
    forall|a: int, b: int|
        0 <= a < b < t.len() ==> !((#[trigger] t[a]).freq == (#[trigger] t[b]).freq && t[a].cores
            == t[b].cores)
}

/// Over a table of distinct configurations the simulated processor, once a
/// target is applied, reports success and exactly that target.
pub proof fn lemma_simulated_reports_target(
    t: Seq<CpuState>,
    target: int,
    status: i32,
    reported: int,
)
    requires
        0 <= target < t.len(),
        configurations_distinct(t),
        applied(t, target).reports(t, status, reported),
    ensures
        status == 0,
        reported == target,
{
    let cpu = applied(t, target);
    if reported > target {
        assert(!matches_cpu(t[target], cpu));
    } else if reported < target {
        assert(matches_cpu(t[reported], cpu));
        assert(t[reported].freq == t[target].freq);
    }
}

} // verus!
