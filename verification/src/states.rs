//! The two parallel state tables and how they are obtained.

use vstd::prelude::*;

verus! {

/// The value 1.0 in the fixed-point scale used for every real quantity.
pub const UNIT: u64 = 1_000_000;

/// A performance/cost operating point as the policy sees it.
#[derive(Clone, Copy, Debug, PartialEq, Eq, Structural)]
pub struct ControlState {
    /// Stable identifier; not necessarily the table position.
    pub id: u32,
    /// Throughput multiplier relative to the slowest state, in millionths.
    pub speedup: u64,
    /// Relative resource expenditure, in millionths.
    pub cost: u64,
}

/// The physical target paired, by table position, with a control state.
#[derive(Clone, Copy, Debug, PartialEq, Eq, Structural)]
pub struct CpuState {
    pub id: u32,
    /// Clock rate, in the platform's units.
    pub freq: u32,
    /// Number of active cores.
    pub cores: u32,
}

/// Why tables could not be loaded or a controller could not be built.
#[derive(Clone, Copy, Debug, PartialEq, Eq, Structural)]
pub enum PoetError {
    /// A table source is malformed: it holds no entries, or entries that
    /// do not form a table.
    Parse,
    /// The control and cpu sources disagree in length.
    CountMismatch,
    /// The tables handed to the constructor are empty or differ in length.
    MismatchedTableLength,
    /// The period or the buffer depth is zero.
    Initialization,
}

/// The built-in control state: identifier 0, speedup and cost 1.0.
pub open spec fn default_control_state() -> ControlState {
    ControlState { id: 0, speedup: UNIT, cost: UNIT }
}

/// The built-in cpu state: identifier 0, no frequency, no cores.
pub open spec fn default_cpu_state() -> CpuState {
    CpuState { id: 0, freq: 0, cores: 0 }
}

/// No two control states share an identifier.
pub open spec fn control_ids_unique(t: Seq<ControlState>) -> bool {
    forall|a: int, b: int| 0 <= a < b < t.len() ==> (#[trigger] t[a]).id != (#[trigger] t[b]).id
}

/// No two cpu states share an identifier.
pub open spec fn cpu_ids_unique(t: Seq<CpuState>) -> bool {
    forall|a: int, b: int| 0 <= a < b < t.len() ==> (#[trigger] t[a]).id != (#[trigger] t[b]).id
}

/// No entry has a smaller speedup than the one before it.
pub open spec fn speedup_sorted(t: Seq<ControlState>) -> bool {
    forall|a: int, b: int|
        0 <= a < b < t.len() ==> (#[trigger] t[a]).speedup <= (#[trigger] t[b]).speedup
}

/// Every entry has a positive speedup and a positive cost.
pub open spec fn speedup_and_cost_positive(t: Seq<ControlState>) -> bool {
    forall|k: int| 0 <= k < t.len() ==> (#[trigger] t[k]).speedup > 0 && t[k].cost > 0
}

/// A control table: at least one entry, identifiers unique, speedup and
/// cost positive, ordered by speedup.
pub open spec fn control_table_valid(t: Seq<ControlState>) -> bool {
    &&& t.len() > 0
    &&& control_ids_unique(t)
    &&& speedup_sorted(t)
    &&& speedup_and_cost_positive(t)
}

/// A cpu table: at least one entry, identifiers unique.
pub open spec fn cpu_table_valid(t: Seq<CpuState>) -> bool {
    &&& t.len() > 0
    &&& cpu_ids_unique(t)
}

/// What loading a control table yields: the single default entry when no
/// source is named, the source's entries when they form a control table,
/// and a parse error when they do not.
pub open spec fn loaded_control(source: Option<Seq<ControlState>>) -> Result<
    Seq<ControlState>,
    PoetError,
> {
    match source {
        None => Ok(seq![default_control_state()]),
        Some(entries) => if control_table_valid(entries) {
            Ok(entries)
        } else {
            Err(PoetError::Parse)
        },
    }
}

/// What loading a cpu table yields: the single default entry when no source
/// is named, the source's entries when they form a cpu table, and a parse
/// error when they do not.
pub open spec fn loaded_cpu(source: Option<Seq<CpuState>>) -> Result<Seq<CpuState>, PoetError> {
    match source {
        None => Ok(seq![default_cpu_state()]),
        Some(entries) => if cpu_table_valid(entries) {
            Ok(entries)
        } else {
            Err(PoetError::Parse)
        },
    }
}

/// What loading both tables yields: the first error of the two single loads,
/// else a count mismatch when the lengths differ, else the pair.
pub open spec fn loaded_pair(
    control: Option<Seq<ControlState>>,
    cpu: Option<Seq<CpuState>>,
) -> Result<(Seq<ControlState>, Seq<CpuState>), PoetError> {
    match (loaded_control(control), loaded_cpu(cpu)) {
        (Err(e), _) => Err(e),
        (Ok(_), Err(e)) => Err(e),
        (Ok(a), Ok(b)) => if a.len() == b.len() {
            Ok((a, b))
        } else {
            Err(PoetError::CountMismatch)
        },
    }
}

/// The entries of a source, where one is named.
pub open spec fn opt_view<T>(source: Option<Vec<T>>) -> Option<Seq<T>> {
    match source {
        None => None,
        Some(v) => Some(v@),
    }
}

/// Whether the exec result `r` is the spec result `want`, table by view.
pub open spec fn same_table<T>(r: Result<Vec<T>, PoetError>, want: Result<Seq<T>, PoetError>) -> bool {
    match r {
        Ok(v) => want == Ok::<Seq<T>, PoetError>(v@),
        Err(e) => want == Err::<Seq<T>, PoetError>(e),
    }
}

/// The built-in no-op control state: identifier 0, speedup and cost 1.0.
pub fn default_poet_control_state_t() -> (s: ControlState)
    ensures
        s == default_control_state(),
{
    ControlState { id: 0, speedup: UNIT, cost: UNIT }
}

/// The built-in no-op cpu state: identifier 0, no frequency, no cores.
pub fn default_poet_cpu_state_t() -> (s: CpuState)
    ensures
        s == default_cpu_state(),
{
    CpuState { id: 0, freq: 0, cores: 0 }
}

/// Whether `table` is a control table.
pub fn is_control_table(table: &Vec<ControlState>) -> (ok: bool)
    ensures
        ok == control_table_valid(table@),
{
    let n = table.len();
    if n == 0 {
        return false;
    }
    let mut i: usize = 0;
    while i < n
        invariant
            i <= n == table@.len(),
            forall|k: int| 0 <= k < i ==> (#[trigger] table@[k]).speedup > 0 && table@[k].cost > 0,
            forall|a: int, b: int|
                0 <= a < b < i ==> (#[trigger] table@[a]).speedup <= (#[trigger] table@[b]).speedup,
            forall|a: int, b: int|
                0 <= a < b < i ==> (#[trigger] table@[a]).id != (#[trigger] table@[b]).id,
        decreases n - i,
    {
        if table[i].speedup == 0 || table[i].cost == 0 {
            return false;
        }
        if i > 0 && table[i - 1].speedup > table[i].speedup {
            return false;
        }
        assert forall|a: int| 0 <= a < i implies (#[trigger] table@[a]).speedup <= table@[i as int].speedup by {
            if a < i - 1 {
                assert(table@[a].speedup <= table@[i - 1].speedup);
            }
        }
        let mut j: usize = 0;
        while j < i
            invariant
                j <= i < n == table@.len(),
                forall|a: int| 0 <= a < j ==> (#[trigger] table@[a]).id != table@[i as int].id,
            decreases i - j,
        {
            if table[j].id == table[i].id {
                return false;
            }
            j = j + 1;
        }
        i = i + 1;
    }
    true
}

/// Whether `table` is a cpu table.
pub fn is_cpu_table(table: &Vec<CpuState>) -> (ok: bool)
    ensures
        ok == cpu_table_valid(table@),
{
    let n = table.len();
    if n == 0 {
        return false;
    }
    let mut i: usize = 0;
    while i < n
        invariant
            i <= n == table@.len(),
            forall|a: int, b: int|
                0 <= a < b < i ==> (#[trigger] table@[a]).id != (#[trigger] table@[b]).id,
        decreases n - i,
    {
        let mut j: usize = 0;
        while j < i
            invariant
                j <= i < n == table@.len(),
                forall|a: int| 0 <= a < j ==> (#[trigger] table@[a]).id != table@[i as int].id,
            decreases i - j,
        {
            if table[j].id == table[i].id {
                return false;
            }
            j = j + 1;
        }
        i = i + 1;
    }
    true
}

/// The control table for `source`, the entries read from a named source, or
/// `None` where no source was named.
pub fn poet_get_control_states(source: Option<Vec<ControlState>>) -> (r: Result<
    Vec<ControlState>,
    PoetError,
>)
    ensures
        same_table(r, loaded_control(opt_view(source))),
{
    match source {
        None => {
            let mut table: Vec<ControlState> = Vec::new();
            table.push(default_poet_control_state_t());
            assert(table@ =~= seq![default_control_state()]);
            Ok(table)
        },
        Some(entries) => if is_control_table(&entries) {
            Ok(entries)
        } else {
            Err(PoetError::Parse)
        },
    }
}

/// The cpu table for `source`, the entries read from a named source, or
/// `None` where no source was named.
pub fn poet_get_cpu_states(source: Option<Vec<CpuState>>) -> (r: Result<Vec<CpuState>, PoetError>)
    ensures
        same_table(r, loaded_cpu(opt_view(source))),
{
    match source {
        None => {
            let mut table: Vec<CpuState> = Vec::new();
            table.push(default_poet_cpu_state_t());
            assert(table@ =~= seq![default_cpu_state()]);
            Ok(table)
        },
        Some(entries) => if is_cpu_table(&entries) {
            Ok(entries)
        } else {
            Err(PoetError::Parse)
        },
    }
}

/// Loads both tables, each on its own, and checks that they are parallel.
pub fn load_state_tables(
    control: Option<Vec<ControlState>>,
    cpu: Option<Vec<CpuState>>,
) -> (r: Result<(Vec<ControlState>, Vec<CpuState>), PoetError>)
    ensures
        match r {
            Ok(t) => loaded_pair(opt_view(control), opt_view(cpu)) == Ok::<
                (Seq<ControlState>, Seq<CpuState>),
                PoetError,
            >((t.0@, t.1@)),
            Err(e) => loaded_pair(opt_view(control), opt_view(cpu)) == Err::<
                (Seq<ControlState>, Seq<CpuState>),
                PoetError,
            >(e),
        },
{
    let control_table = match poet_get_control_states(control) {
        Ok(t) => t,
        Err(e) => { return Err(e); },
    };
    let cpu_table = match poet_get_cpu_states(cpu) {
        Ok(t) => t,
        Err(e) => { return Err(e); },
    };
    if control_table.len() != cpu_table.len() {
        return Err(PoetError::CountMismatch);
    }
    Ok((control_table, cpu_table))
}

/// Loading is a function of the source alone: equal sources give equal
/// results, and tables that load are the sources' own entries (or the
/// built-in default), parallel and valid.
pub proof fn lemma_load_round_trip(
    control: Option<Seq<ControlState>>,
    cpu: Option<Seq<CpuState>>,
    control_again: Option<Seq<ControlState>>,
    cpu_again: Option<Seq<CpuState>>,
)
    requires
        control == control_again,
        cpu == cpu_again,
    ensures
        loaded_pair(control, cpu) == loaded_pair(control_again, cpu_again),
        loaded_pair(control, cpu) matches Ok(t) ==> {
            &&& t.0.len() == t.1.len()
            &&& control_table_valid(t.0)
            &&& cpu_table_valid(t.1)
            &&& control matches Some(c) ==> t.0 == c
            &&& cpu matches Some(c) ==> t.1 == c
            &&& control is None ==> t.0 == seq![default_control_state()]
            &&& cpu is None ==> t.1 == seq![default_cpu_state()]
        },
{
    assert(seq![default_control_state()][0] == default_control_state());
    assert(seq![default_cpu_state()][0] == default_cpu_state());
}

} // verus!
