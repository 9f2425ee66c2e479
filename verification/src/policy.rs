//! The decision policy: smoothing window, hysteresis band and single step.

use vstd::prelude::*;
use crate::states::{ControlState, CpuState};

verus! {

/// The hysteresis margin, in percent of the goal: the mean rate must exceed
/// the goal by more than this before the controller gives performance back.
pub const MARGIN_PERCENT: u64 = 10;

/// One observation: measured rate and power draw, in millionths.
#[derive(Clone, Copy, Debug, PartialEq, Eq, Structural)]
pub struct Sample {
    pub rate: u64,
    pub power: u64,
}

/// What is recorded of one call when logging is enabled.
#[derive(Clone, Copy, Debug, PartialEq, Eq, Structural)]
pub struct LogRecord {
    pub tag: u64,
    pub rate: u64,
    pub power: u64,
    pub state_index: usize,
}

/// Sum of the rates in a window.
pub open spec fn rate_sum(w: Seq<Sample>) -> int
    decreases w.len(),
{
    if w.len() == 0 {
        0
    } else {
        rate_sum(w.drop_last()) + w.last().rate
    }
}

/// Sum of the power readings in a window.
pub open spec fn power_sum(w: Seq<Sample>) -> int
    decreases w.len(),
{
    if w.len() == 0 {
        0
    } else {
        power_sum(w.drop_last()) + w.last().power
    }
}

/// The arithmetic means of rate and power over a window, rounded down to
/// whole millionths; an empty window has none.
pub open spec fn window_means(w: Seq<Sample>) -> Option<Sample> {
    if w.len() == 0 {
        None
    } else {
        Some(
            Sample {
                rate: (rate_sum(w) / w.len() as int) as u64,
                power: (power_sum(w) / w.len() as int) as u64,
            },
        )
    }
}

/// The window after one more sample: appended while fewer than `depth`
/// samples are held, else appended with the oldest evicted.
pub open spec fn slide(w: Seq<Sample>, depth: int, s: Sample) -> Seq<Sample> {
    if w.len() < depth {
        w.push(s)
    } else {
        w.subrange(1, w.len() as int).push(s)
    }
}

/// The mean rate over the window is strictly below the goal.
pub open spec fn mean_below_goal(w: Seq<Sample>, goal: u64) -> bool {
    rate_sum(w) < goal * w.len()
}

/// The mean rate over the window exceeds the goal by more than the margin.
pub open spec fn mean_above_band(w: Seq<Sample>, goal: u64) -> bool {
    100 * rate_sum(w) > (goal * w.len()) * (100 + MARGIN_PERCENT)
}

/// `j` is the first position after `i` whose speedup is strictly greater.
pub open spec fn is_next_faster(t: Seq<ControlState>, i: int, j: int) -> bool {
    &&& i < j < t.len()
    &&& t[j].speedup > t[i].speedup
    &&& forall|k: int| i < k < j ==> (#[trigger] t[k]).speedup <= t[i].speedup
}

/// `j` is the last position before `i` whose cost is strictly lower.
pub open spec fn is_prev_cheaper(t: Seq<ControlState>, i: int, j: int) -> bool {
    &&& 0 <= j < i
    &&& t[j].cost < t[i].cost
    &&& forall|k: int| j < k < i ==> (#[trigger] t[k]).cost >= t[i].cost
}

/// The next entry with strictly greater speedup, or `i` where there is none.
pub open spec fn next_faster(t: Seq<ControlState>, i: int) -> int {
    if exists|j: int| is_next_faster(t, i, j) {
        choose|j: int| is_next_faster(t, i, j)
    } else {
        i
    }
}

/// The previous entry with strictly lower cost, or `i` where there is none.
pub open spec fn prev_cheaper(t: Seq<ControlState>, i: int) -> int {
    if exists|j: int| is_prev_cheaper(t, i, j) {
        choose|j: int| is_prev_cheaper(t, i, j)
    } else {
        i
    }
}

/// The position the policy asks for: one step towards performance while the
/// mean rate is below the goal, one step towards economy while it is above
/// the band, else the current one.
pub open spec fn policy_target(
    control: Seq<ControlState>,
    window: Seq<Sample>,
    goal: u64,
    index: int,
) -> int {
    if mean_below_goal(window, goal) && index < control.len() - 1 {
        next_faster(control, index)
    } else if mean_above_band(window, goal) && index > 0 {
        prev_cheaper(control, index)
    } else {
        index
    }
}

/// The position held after an actuation: the one the actuator reports when
/// it reports success and a position of the table, else the one held before.
pub open spec fn adopted_index(current: int, count: int, status: i32, reported: int) -> int {
    if status == 0 && 0 <= reported < count {
        reported
    } else {
        current
    }
}

/// A position that is the first faster one is the one `next_faster` names.
pub proof fn lemma_next_faster_is(t: Seq<ControlState>, i: int, j: int)
    requires
        is_next_faster(t, i, j),
    ensures
        next_faster(t, i) == j,
{
    let c = choose|c: int| is_next_faster(t, i, c);
    if c < j {
        assert(t[c].speedup <= t[i].speedup);
    } else if c > j {
        assert(t[j].speedup <= t[i].speedup);
    }
}

/// A position that is the last cheaper one is the one `prev_cheaper` names.
pub proof fn lemma_prev_cheaper_is(t: Seq<ControlState>, i: int, j: int)
    requires
        is_prev_cheaper(t, i, j),
    ensures
        prev_cheaper(t, i) == j,
{
    let c = choose|c: int| is_prev_cheaper(t, i, c);
    if c < j {
        assert(t[j].cost >= t[i].cost);
    } else if c > j {
        assert(t[c].cost >= t[i].cost);
    }
}

/// The sum of a window's rates is at most its length times the largest rate.
pub proof fn lemma_rate_sum_bounds(w: Seq<Sample>)
    ensures
        0 <= rate_sum(w) <= w.len() * 0xFFFF_FFFF_FFFF_FFFF,
    decreases w.len(),
{
    if w.len() > 0 {
        lemma_rate_sum_bounds(w.drop_last());
    }
}

/// The sum of a window's power readings is at most its length times the
/// largest reading.
pub proof fn lemma_power_sum_bounds(w: Seq<Sample>)
    ensures
        0 <= power_sum(w) <= w.len() * 0xFFFF_FFFF_FFFF_FFFF,
    decreases w.len(),
{
    if w.len() > 0 {
        lemma_power_sum_bounds(w.drop_last());
    }
}

/// Sum of the power readings held in `window`.
pub fn window_power_sum(window: &Vec<Sample>) -> (sum: u128)
    requires
        window@.len() <= 0xFFFF_FFFF,
    ensures
        sum == power_sum(window@),
{
    let mut sum: u128 = 0;
    let mut i: usize = 0;
    while i < window.len()
        invariant
            i <= window@.len() <= 0xFFFF_FFFF,
            sum == power_sum(window@.take(i as int)),
            sum <= i * 0xFFFF_FFFF_FFFF_FFFF,
        decreases window@.len() - i,
    {
        proof {
            assert(window@.take(i + 1).drop_last() =~= window@.take(i as int));
        }
        sum = sum + window[i].power as u128;
        i = i + 1;
    }
    proof {
        assert(window@.take(i as int) =~= window@);
    }
    sum
}

/// The means of rate and power over `window`, rounded down.
pub fn mean_sample(window: &Vec<Sample>) -> (mean: Option<Sample>)
    requires
        window@.len() <= 0xFFFF_FFFF,
    ensures
        mean == window_means(window@),
{
    let n = window.len() as u128;
    if n == 0 {
        return None;
    }
    let rates = window_rate_sum(window);
    let powers = window_power_sum(window);
    proof {
        lemma_rate_sum_bounds(window@);
        lemma_power_sum_bounds(window@);
        assert(rates / n <= 0xFFFF_FFFF_FFFF_FFFF) by (nonlinear_arith)
            requires
                n > 0,
                rates <= n * 0xFFFF_FFFF_FFFF_FFFF,
        ;
        assert(powers / n <= 0xFFFF_FFFF_FFFF_FFFF) by (nonlinear_arith)
            requires
                n > 0,
                powers <= n * 0xFFFF_FFFF_FFFF_FFFF,
        ;
    }
    Some(Sample { rate: (rates / n) as u64, power: (powers / n) as u64 })
}

/// Sum of the rates held in `window`.
pub fn window_rate_sum(window: &Vec<Sample>) -> (sum: u128)
    requires
        window@.len() <= 0xFFFF_FFFF,
    ensures
        sum == rate_sum(window@),
{
    let mut sum: u128 = 0;
    let mut i: usize = 0;
    while i < window.len()
        invariant
            i <= window@.len() <= 0xFFFF_FFFF,
            sum == rate_sum(window@.take(i as int)),
            sum <= i * 0xFFFF_FFFF_FFFF_FFFF,
        decreases window@.len() - i,
    {
        proof {
            assert(window@.take(i + 1).drop_last() =~= window@.take(i as int));
        }
        sum = sum + window[i].rate as u128;
        i = i + 1;
    }
    proof {
        assert(window@.take(i as int) =~= window@);
    }
    sum
}

/// The first position after `i` with strictly greater speedup, or `i`.
pub fn find_next_faster(table: &Vec<ControlState>, i: usize) -> (j: usize)
    requires
        i < table@.len(),
    ensures
        j == next_faster(table@, i as int),
        i <= j < table@.len(),
{
    let base = table[i].speedup;
    let count = table.len();
    let mut k: usize = i + 1;
    while k < count
        invariant
            i < k <= table@.len(),
            count == table@.len(),
            base == table@[i as int].speedup,
            forall|m: int| i < m < k ==> (#[trigger] table@[m]).speedup <= base,
        decreases table@.len() - k,
    {
        if table[k].speedup > base {
            proof {
                lemma_next_faster_is(table@, i as int, k as int);
            }
            return k;
        }
        k = k + 1;
    }
    proof {
        assert forall|j: int| !is_next_faster(table@, i as int, j) by {
            if i < j < table@.len() {
                assert(table@[j].speedup <= base);
            }
        }
    }
    i
}

/// The last position before `i` with strictly lower cost, or `i`.
pub fn find_prev_cheaper(table: &Vec<ControlState>, i: usize) -> (j: usize)
    requires
        i < table@.len(),
    ensures
        j == prev_cheaper(table@, i as int),
        j <= i,
{
    let base = table[i].cost;
    let mut k: usize = i;
    while k > 0
        invariant
            k <= i < table@.len(),
            base == table@[i as int].cost,
            forall|m: int| k <= m < i ==> (#[trigger] table@[m]).cost >= base,
        decreases k,
    {
        k = k - 1;
        if table[k].cost < base {
            proof {
                lemma_prev_cheaper_is(table@, i as int, k as int);
            }
            return k;
        }
    }
    proof {
        assert forall|j: int| !is_prev_cheaper(table@, i as int, j) by {
            if 0 <= j < i {
                assert(table@[j].cost >= base);
            }
        }
    }
    i
}

/// Runs the policy on the window's mean rate.
pub fn choose_target(
    control: &Vec<ControlState>,
    window: &Vec<Sample>,
    goal: u64,
    index: usize,
) -> (target: usize)
    requires
        index < control@.len(),
        window@.len() <= 0xFFFF_FFFF,
    ensures
        target == policy_target(control@, window@, goal, index as int),
        target < control@.len(),
{
    let sum = window_rate_sum(window);
    let n = window.len() as u128;
    proof {
        lemma_rate_sum_bounds(window@);
        assert(goal * n <= 0xFFFF_FFFF_FFFF_FFFF * 0xFFFF_FFFF) by (nonlinear_arith)
            requires
                0 <= goal <= 0xFFFF_FFFF_FFFF_FFFF,
                0 <= n <= 0xFFFF_FFFF,
        ;
    }
    let goal_total = (goal as u128) * n;
    let band: u128 = 100 + MARGIN_PERCENT as u128;
    proof {
        assert(goal_total * band <= 0xFFFF_FFFF_FFFF_FFFF * 0xFFFF_FFFF * 110) by (nonlinear_arith)
            requires
                0 <= goal_total <= 0xFFFF_FFFF_FFFF_FFFF * 0xFFFF_FFFF,
                band == 110,
        ;
    }
    if sum < goal_total && index < control.len() - 1 {
        find_next_faster(control, index)
    } else if 100 * sum > goal_total * band && index > 0 {
        find_prev_cheaper(control, index)
    } else {
        index
    }
}

/// Settles the position held after an actuation from what the actuator's
/// query returned.
pub fn adopt_index(current: usize, count: usize, status: i32, reported: usize) -> (index: usize)
    ensures
        index == adopted_index(current as int, count as int, status, reported as int),
{
    if status == 0 && reported < count {
        reported
    } else {
        current
    }
}

/// Each entry has a strictly greater speedup than every one before it.
pub open spec fn speedup_increasing(t: Seq<ControlState>) -> bool {
    forall|a: int, b: int|
        0 <= a < b < t.len() ==> (#[trigger] t[a]).speedup < (#[trigger] t[b]).speedup
}

/// Each entry has a strictly greater cost than every one before it.
pub open spec fn cost_increasing(t: Seq<ControlState>) -> bool {
    forall|a: int, b: int| 0 <= a < b < t.len() ==> (#[trigger] t[a]).cost < (#[trigger] t[b]).cost
}

/// The sample's rate lies in the closed band from the goal to the goal plus
/// the margin.
pub open spec fn rate_in_band(s: Sample, goal: u64) -> bool {
    goal <= s.rate && 100 * s.rate <= goal * (100 + MARGIN_PERCENT)
}

/// Every sample of the window has its rate in the band.
pub open spec fn rates_in_band(w: Seq<Sample>, goal: u64) -> bool {
    forall|k: int| 0 <= k < w.len() ==> rate_in_band(#[trigger] w[k], goal)
}

/// The policy never leaves the table and never moves against the side the
/// mean rate lies on: it stays or advances below the goal, stays or retreats
/// above the band, and stays in between.
pub proof fn lemma_target_in_table(
    control: Seq<ControlState>,
    window: Seq<Sample>,
    goal: u64,
    index: int,
)
    requires
        0 <= index < control.len(),
    ensures
        0 <= policy_target(control, window, goal, index) < control.len(),
        mean_below_goal(window, goal) ==> policy_target(control, window, goal, index) >= index,
        !mean_below_goal(window, goal) ==> policy_target(control, window, goal, index) <= index,
        !mean_below_goal(window, goal) && !mean_above_band(window, goal) ==> policy_target(
            control,
            window,
            goal,
            index,
        ) == index,
{
}

/// With a single state the policy asks for position 0 whatever the samples,
/// and position 0 is kept whatever an actuator reports.
pub proof fn lemma_single_state_stable(
    control: Seq<ControlState>,
    window: Seq<Sample>,
    goal: u64,
    status: i32,
    reported: int,
)
    requires
        control.len() == 1,
    ensures
        policy_target(control, window, goal, 0) == 0,
        adopted_index(0, 1, status, reported) == 0,
{
}

/// Bounded step towards performance: over a table of strictly increasing
/// speedup a mean rate below the goal moves the target to the very next
/// position, or nowhere from the last one. Whatever the mean rate, the
/// target is never more than one position ahead.
pub proof fn lemma_bounded_advance(
    control: Seq<ControlState>,
    window: Seq<Sample>,
    goal: u64,
    index: int,
)
    requires
        0 <= index < control.len(),
        speedup_increasing(control),
    ensures
        policy_target(control, window, goal, index) <= index + 1,
        mean_below_goal(window, goal) && index < control.len() - 1 ==> policy_target(
            control,
            window,
            goal,
            index,
        ) == index + 1,
        mean_below_goal(window, goal) && index == control.len() - 1 ==> policy_target(
            control,
            window,
            goal,
            index,
        ) == index,
{
    if index < control.len() - 1 {
        assert(control[index].speedup < control[index + 1].speedup);
        lemma_next_faster_is(control, index, index + 1);
    }
}

/// Bounded step towards economy: over a table of strictly increasing cost a
/// mean rate above the band moves the target to the position just before,
/// or nowhere from the first one. Whatever the mean rate, the target is
/// never more than one position behind.
pub proof fn lemma_bounded_retreat(
    control: Seq<ControlState>,
    window: Seq<Sample>,
    goal: u64,
    index: int,
)
    requires
        0 <= index < control.len(),
        cost_increasing(control),
    ensures
        policy_target(control, window, goal, index) >= index - 1,
        mean_above_band(window, goal) && index > 0 ==> policy_target(control, window, goal, index)
            == index - 1,
{
    lemma_directions_exclusive(window, goal);
    if index > 0 {
        assert(control[index].cost > control[index - 1].cost);
        lemma_prev_cheaper_is(control, index, index - 1);
    }
}

/// No window calls for both directions at once.
pub proof fn lemma_directions_exclusive(window: Seq<Sample>, goal: u64)
    ensures
        !(mean_below_goal(window, goal) && mean_above_band(window, goal)),
{
    let total = goal * window.len();
    assert(total >= 0) by (nonlinear_arith)
        requires
            total == goal * window.len(),
            goal >= 0,
            window.len() >= 0,
    ;
}

/// A window whose rates all lie in the band has its mean in the band.
pub proof fn lemma_band_mean(w: Seq<Sample>, goal: u64)
    requires
        rates_in_band(w, goal),
    ensures
        !mean_below_goal(w, goal),
        !mean_above_band(w, goal),
    decreases w.len(),
{
    if w.len() > 0 {
        let head = w.drop_last();
        assert forall|k: int| 0 <= k < head.len() implies rate_in_band(#[trigger] head[k], goal) by {
            assert(head[k] == w[k]);
        }
        lemma_band_mean(head, goal);
        let last = w.last();
        assert(w[w.len() - 1] == last);
        assert(rate_in_band(last, goal));
        assert(goal * w.len() == goal * head.len() + goal) by (nonlinear_arith)
            requires
                w.len() == head.len() + 1,
        ;
    } else {
        assert(goal * w.len() == 0) by (nonlinear_arith)
            requires
                w.len() == 0,
        ;
    }
}

/// Hysteresis: while every buffered rate lies between the goal and the goal
/// plus the margin, the policy asks for the position already in force, so
/// rates that wander inside the band cause no state change at any epoch.
pub proof fn lemma_band_holds_state(
    control: Seq<ControlState>,
    window: Seq<Sample>,
    goal: u64,
    index: int,
)
    requires
        rates_in_band(window, goal),
    ensures
        policy_target(control, window, goal, index) == index,
{
    lemma_band_mean(window, goal);
}

} // verus!
