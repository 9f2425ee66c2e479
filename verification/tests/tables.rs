use poet::{
    default_poet_control_state_t, default_poet_cpu_state_t, is_control_table, is_cpu_table,
    load_state_tables,
    poet_get_control_states, poet_get_cpu_states, ControlState, CpuState, PoetError, SimulatedCpu,
    POET, UNIT,
};

fn control_entries() -> Vec<ControlState> {
    vec![
        ControlState { id: 0, speedup: UNIT, cost: UNIT },
        ControlState { id: 1, speedup: 2 * UNIT, cost: 3 * UNIT },
    ]
}

fn cpu_entries() -> Vec<CpuState> {
    vec![CpuState { id: 0, freq: 800, cores: 1 }, CpuState { id: 1, freq: 1600, cores: 2 }]
}

#[test]
fn default_control_state_is_the_unit_state() {
    let s = default_poet_control_state_t();
    assert_eq!(s, ControlState { id: 0, speedup: 1_000_000, cost: 1_000_000 });
    assert_eq!(UNIT, 1_000_000);
}

#[test]
fn default_cpu_state_is_all_zero() {
    assert_eq!(default_poet_cpu_state_t(), CpuState { id: 0, freq: 0, cores: 0 });
}

#[test]
fn no_source_yields_the_single_default_state() {
    assert_eq!(poet_get_control_states(None), Ok(vec![default_poet_control_state_t()]));
    assert_eq!(poet_get_cpu_states(None), Ok(vec![default_poet_cpu_state_t()]));
    assert_eq!(
        load_state_tables(None, None),
        Ok((vec![default_poet_control_state_t()], vec![default_poet_cpu_state_t()]))
    );
}

#[test]
fn a_source_yields_its_entries() {
    assert_eq!(poet_get_control_states(Some(control_entries())), Ok(control_entries()));
    assert_eq!(poet_get_cpu_states(Some(cpu_entries())), Ok(cpu_entries()));
}

#[test]
fn an_empty_source_is_a_parse_error() {
    assert_eq!(poet_get_control_states(Some(Vec::new())), Err(PoetError::Parse));
    assert_eq!(poet_get_cpu_states(Some(Vec::new())), Err(PoetError::Parse));
    assert_eq!(load_state_tables(Some(Vec::new()), Some(cpu_entries())), Err(PoetError::Parse));
    assert_eq!(load_state_tables(Some(control_entries()), Some(Vec::new())), Err(PoetError::Parse));
}

#[test]
fn sources_of_different_length_are_a_count_mismatch() {
    let mut cpu = cpu_entries();
    cpu.push(CpuState { id: 2, freq: 2400, cores: 4 });
    assert_eq!(load_state_tables(Some(control_entries()), Some(cpu)), Err(PoetError::CountMismatch));
    assert_eq!(load_state_tables(Some(control_entries()), None), Err(PoetError::CountMismatch));
}

#[test]
fn loading_twice_gives_equal_tables() {
    let first = load_state_tables(Some(control_entries()), Some(cpu_entries())).unwrap();
    let second = load_state_tables(Some(control_entries()), Some(cpu_entries())).unwrap();
    assert_eq!(first, second);
    assert_eq!(first.0.len(), 2);
    assert_eq!(first.1.len(), 2);
    assert_eq!(first.0, control_entries());
    assert_eq!(first.1, cpu_entries());
}

#[test]
fn test_control_cpu_tables_with_log() {
    let (control_states, cpu_states) =
        load_state_tables(Some(control_entries()), Some(cpu_entries())).unwrap();
    let mut poet = POET::new(
        100 * UNIT,
        control_states,
        cpu_states,
        SimulatedCpu { freq: 0, cores: 0 },
        20u32,
        1u32,
        true,
    )
    .unwrap();
    poet.apply_control(0, UNIT, UNIT);
    let record = poet.last_record().unwrap();
    assert_eq!((record.tag, record.rate, record.power, record.state_index), (0, UNIT, UNIT, 0));
}

#[test]
fn repeated_identifiers_are_a_parse_error() {
    let mut control = control_entries();
    control[1].id = 0;
    assert!(!is_control_table(&control));
    assert_eq!(poet_get_control_states(Some(control)), Err(PoetError::Parse));
    let mut cpu = cpu_entries();
    cpu.push(CpuState { id: 0, freq: 2400, cores: 4 });
    assert!(!is_cpu_table(&cpu));
    assert_eq!(poet_get_cpu_states(Some(cpu)), Err(PoetError::Parse));
}

#[test]
fn a_falling_speedup_is_a_parse_error() {
    let mut control = control_entries();
    control.push(ControlState { id: 2, speedup: 2 * UNIT - 1, cost: 4 * UNIT });
    assert!(!is_control_table(&control));
    assert_eq!(poet_get_control_states(Some(control)), Err(PoetError::Parse));
}

#[test]
fn equal_speedups_are_accepted() {
    let mut control = control_entries();
    control.push(ControlState { id: 2, speedup: 2 * UNIT, cost: 4 * UNIT });
    assert!(is_control_table(&control));
    assert_eq!(poet_get_control_states(Some(control.clone())), Ok(control));
}

#[test]
fn a_zero_speedup_or_cost_is_a_parse_error() {
    let mut control = control_entries();
    control[0].speedup = 0;
    assert_eq!(poet_get_control_states(Some(control)), Err(PoetError::Parse));
    let mut control = control_entries();
    control[1].cost = 0;
    assert_eq!(poet_get_control_states(Some(control)), Err(PoetError::Parse));
}

#[test]
fn the_default_tables_are_valid_tables() {
    assert!(is_control_table(&vec![default_poet_control_state_t()]));
    assert!(is_cpu_table(&vec![default_poet_cpu_state_t()]));
    assert!(!is_control_table(&Vec::new()));
    assert!(!is_cpu_table(&Vec::new()));
    assert!(is_cpu_table(&cpu_entries()));
}
