use poet::{
    default_poet_control_state_t, default_poet_cpu_state_t, Actuator, ControlState, CpuState,
    LogRecord, PoetError, Sample, SimulatedCpu, POET, UNIT,
};

/// Scales a real quantity into the library's fixed-point unit.
fn fx(x: f64) -> u64 {
    (x * UNIT as f64) as u64
}

/// An actuator that counts its calls and reports a fixed answer.
struct Recorder {
    applies: usize,
    queries: usize,
    last_target: Option<usize>,
    last_previous: Option<usize>,
    status: i32,
    report: Option<usize>,
}

impl Recorder {
    fn reporting(status: i32, report: Option<usize>) -> Recorder {
        Recorder { applies: 0, queries: 0, last_target: None, last_previous: None, status, report }
    }
}

impl Actuator for Recorder {
    fn apply(&mut self, _cpu_states: &Vec<CpuState>, target_id: usize, previous_id: usize) {
        println!("Received apply call");
        self.applies += 1;
        self.last_target = Some(target_id);
        self.last_previous = Some(previous_id);
    }

    fn current_state(&self, cpu_states: &Vec<CpuState>) -> (i32, usize) {
        println!("Received curr state call");
        match self.report {
            // an invalid position: one past the table
            None => (self.status, cpu_states.len()),
            Some(i) => (self.status, i),
        }
    }
}

fn three_states() -> (Vec<ControlState>, Vec<CpuState>) {
    let control = vec![
        ControlState { id: 0, speedup: fx(1.0), cost: fx(1.0) },
        ControlState { id: 1, speedup: fx(1.5), cost: fx(1.8) },
        ControlState { id: 2, speedup: fx(2.0), cost: fx(3.0) },
    ];
    let cpu = vec![
        CpuState { id: 0, freq: 1000, cores: 1 },
        CpuState { id: 1, freq: 1500, cores: 2 },
        CpuState { id: 2, freq: 2000, cores: 4 },
    ];
    (control, cpu)
}

fn idle_cpu() -> SimulatedCpu {
    SimulatedCpu { freq: 0, cores: 0 }
}

#[test]
fn test_basic() {
    let control_states = vec![default_poet_control_state_t()];
    let cpu_states = vec![default_poet_cpu_state_t()];
    let mut poet =
        POET::new(fx(100.0), control_states, cpu_states, idle_cpu(), 20u32, 1u32, false).unwrap();
    poet.apply_control(0, fx(1.0), fx(1.0));
    assert_eq!(poet.current_state_index(), 0);
}

#[test]
fn test_rust_callbacks() {
    let control_states = vec![default_poet_control_state_t()];
    let cpu_states = vec![default_poet_cpu_state_t()];
    let mut poet = POET::new(
        fx(100.0),
        control_states,
        cpu_states,
        Recorder::reporting(0, None),
        20u32,
        1u32,
        false,
    )
    .unwrap();
    for i in 0..50 {
        poet.apply_control(i, fx(1.0), fx(1.0));
        assert_eq!(poet.current_state_index(), 0);
    }
    assert_eq!(poet.current_state_index(), 0);
    assert_eq!(poet.actuator().applies, 0);
    assert_eq!(poet.last_record(), None);
}

#[test]
fn construction_keeps_the_tables_and_starts_at_zero() {
    let (control, cpu) = three_states();
    let poet = POET::new(fx(100.0), control.clone(), cpu.clone(), idle_cpu(), 5, 3, true).unwrap();
    assert_eq!(poet.current_state_index(), 0);
    assert_eq!(poet.control_states(), &control);
    assert_eq!(poet.cpu_states(), &cpu);
    assert_eq!(poet.last_record(), None);
    assert_eq!(*poet.actuator(), idle_cpu());
}

#[test]
fn construction_rejects_tables_of_different_length() {
    let (control, mut cpu) = three_states();
    cpu.pop();
    let r = POET::new(fx(100.0), control, cpu, idle_cpu(), 20, 1, false);
    assert_eq!(r.err(), Some(PoetError::MismatchedTableLength));
}

#[test]
fn construction_rejects_empty_tables() {
    let r = POET::new(fx(100.0), Vec::new(), Vec::new(), idle_cpu(), 20, 1, false);
    assert_eq!(r.err(), Some(PoetError::MismatchedTableLength));
}

#[test]
fn construction_rejects_zero_period() {
    let (control, cpu) = three_states();
    let r = POET::new(fx(100.0), control, cpu, idle_cpu(), 0, 1, false);
    assert_eq!(r.err(), Some(PoetError::Initialization));
}

#[test]
fn construction_rejects_zero_depth() {
    let (control, cpu) = three_states();
    let r = POET::new(fx(100.0), control, cpu, idle_cpu(), 20, 0, false);
    assert_eq!(r.err(), Some(PoetError::Initialization));
}

#[test]
fn table_errors_come_before_parameter_errors() {
    let (control, _) = three_states();
    let r = POET::new(fx(100.0), control, Vec::new(), idle_cpu(), 0, 0, false);
    assert_eq!(r.err(), Some(PoetError::MismatchedTableLength));
}

#[test]
fn a_zero_goal_is_accepted() {
    let (control, cpu) = three_states();
    assert!(POET::new(0, control, cpu, idle_cpu(), 1, 1, false).is_ok());
}

#[test]
fn one_epoch_advances_by_one_position() {
    let (control, cpu) = three_states();
    let mut poet = POET::new(fx(100.0), control, cpu, idle_cpu(), 2, 1, false).unwrap();
    poet.apply_control(0, fx(1.0), fx(1.0));
    assert_eq!(poet.current_state_index(), 0);
    poet.apply_control(1, fx(1.0), fx(1.0));
    assert_eq!(poet.current_state_index(), 1);
    assert_eq!(*poet.actuator(), SimulatedCpu { freq: 1500, cores: 2 });
    poet.apply_control(2, fx(1.0), fx(1.0));
    assert_eq!(poet.current_state_index(), 1);
    poet.apply_control(3, fx(1.0), fx(1.0));
    assert_eq!(poet.current_state_index(), 2);
    poet.apply_control(4, fx(1.0), fx(1.0));
    poet.apply_control(5, fx(1.0), fx(1.0));
    assert_eq!(poet.current_state_index(), 2);
    assert_eq!(*poet.actuator(), SimulatedCpu { freq: 2000, cores: 4 });
}

#[test]
fn excess_rate_retreats_by_one_position() {
    let (control, cpu) = three_states();
    let mut poet = POET::new(fx(100.0), control, cpu, idle_cpu(), 1, 1, false).unwrap();
    poet.apply_control(0, fx(50.0), fx(1.0));
    poet.apply_control(1, fx(50.0), fx(1.0));
    assert_eq!(poet.current_state_index(), 2);
    // exactly on the upper edge of the band: no change
    poet.apply_control(2, fx(110.0), fx(1.0));
    assert_eq!(poet.current_state_index(), 2);
    poet.apply_control(3, 110 * UNIT + 1, fx(1.0));
    assert_eq!(poet.current_state_index(), 1);
    poet.apply_control(4, fx(200.0), fx(1.0));
    assert_eq!(poet.current_state_index(), 0);
    poet.apply_control(5, fx(200.0), fx(1.0));
    assert_eq!(poet.current_state_index(), 0);
}

#[test]
fn rates_inside_the_band_cause_no_change() {
    let (control, cpu) = three_states();
    let mut poet =
        POET::new(fx(100.0), control, cpu, Recorder::reporting(0, Some(1)), 1, 3, false).unwrap();
    poet.apply_control(0, fx(10.0), fx(1.0));
    assert_eq!(poet.current_state_index(), 1);
    assert_eq!(poet.actuator().applies, 1);
    let rates = [100.0, 109.0, 101.5, 110.0, 100.0, 104.0, 108.0, 100.5];
    // let the low first sample leave the window
    let mut tag = 1;
    for _ in 0..3 {
        for r in rates.iter() {
            poet.apply_control(tag, fx(*r), fx(1.0));
            tag += 1;
        }
    }
    let applies = poet.actuator().applies;
    for r in rates.iter() {
        poet.apply_control(tag, fx(*r), fx(1.0));
        tag += 1;
        assert_eq!(poet.current_state_index(), 1);
    }
    assert_eq!(poet.actuator().applies, applies);
}

#[test]
fn the_window_smooths_over_its_depth() {
    let (control, cpu) = three_states();
    let mut poet = POET::new(fx(100.0), control, cpu, idle_cpu(), 1, 2, false).unwrap();
    // mean of {150} is above the band, but position 0 cannot retreat
    poet.apply_control(0, fx(150.0), fx(1.0));
    assert_eq!(poet.current_state_index(), 0);
    // mean of {150, 60} is 105: inside the band
    poet.apply_control(1, fx(60.0), fx(1.0));
    assert_eq!(poet.current_state_index(), 0);
    // 150 is evicted: mean of {60, 130} is 95: below the goal
    poet.apply_control(2, fx(130.0), fx(1.0));
    assert_eq!(poet.current_state_index(), 1);
    // mean of {130, 100} is 115: above the band
    poet.apply_control(3, fx(100.0), fx(1.0));
    assert_eq!(poet.current_state_index(), 0);
}

#[test]
fn decisions_wait_for_the_end_of_an_epoch() {
    let (control, cpu) = three_states();
    let mut poet =
        POET::new(fx(100.0), control, cpu, Recorder::reporting(0, Some(1)), 20, 1, false).unwrap();
    for tag in 0..19 {
        poet.apply_control(tag, fx(1.0), fx(1.0));
        assert_eq!(poet.current_state_index(), 0);
    }
    assert_eq!(poet.actuator().applies, 0);
    poet.apply_control(19, fx(1.0), fx(1.0));
    assert_eq!(poet.actuator().applies, 1);
    assert_eq!(poet.actuator().last_target, Some(1));
    assert_eq!(poet.actuator().last_previous, Some(0));
    assert_eq!(poet.current_state_index(), 1);
}

#[test]
fn the_report_overrides_the_request() {
    let (control, cpu) = three_states();
    let mut poet =
        POET::new(fx(100.0), control, cpu, Recorder::reporting(0, Some(2)), 1, 1, false).unwrap();
    poet.apply_control(0, fx(1.0), fx(1.0));
    assert_eq!(poet.actuator().last_target, Some(1));
    assert_eq!(poet.current_state_index(), 2);
}

#[test]
fn a_failed_query_keeps_the_last_position() {
    let (control, cpu) = three_states();
    let mut poet =
        POET::new(fx(100.0), control, cpu, Recorder::reporting(-1, Some(2)), 1, 1, false).unwrap();
    for tag in 0..5 {
        poet.apply_control(tag, fx(1.0), fx(1.0));
        assert_eq!(poet.current_state_index(), 0);
    }
    assert_eq!(poet.actuator().applies, 5);
}

#[test]
fn a_sentinel_report_keeps_the_last_position() {
    let (control, cpu) = three_states();
    let mut poet =
        POET::new(fx(100.0), control, cpu, Recorder::reporting(0, None), 1, 1, false).unwrap();
    poet.apply_control(0, fx(1.0), fx(1.0));
    assert_eq!(poet.current_state_index(), 0);
    poet.apply_control(1, fx(1.0), fx(1.0));
    assert_eq!(poet.current_state_index(), 0);
    assert_eq!(poet.actuator().applies, 2);
}

#[test]
fn observe_and_adopt_split_one_call() {
    let (control, cpu) = three_states();
    let mut poet = POET::new(fx(100.0), control, cpu, idle_cpu(), 1, 1, false).unwrap();
    assert_eq!(poet.observe(fx(1.0), fx(1.0)), 1);
    assert_eq!(poet.current_state_index(), 0);
    poet.adopt(0, 1);
    assert_eq!(poet.current_state_index(), 1);
    poet.adopt(0, 3);
    assert_eq!(poet.current_state_index(), 1);
    poet.adopt(7, 2);
    assert_eq!(poet.current_state_index(), 1);
    poet.adopt(0, 2);
    assert_eq!(poet.current_state_index(), 2);
    assert_eq!(poet.observe(fx(100.0), fx(1.0)), 2);
    assert_eq!(poet.observe(fx(500.0), fx(1.0)), 1);
}

#[test]
fn every_call_is_recorded_while_logging() {
    let (control, cpu) = three_states();
    let mut poet = POET::new(fx(100.0), control, cpu, idle_cpu(), 2, 1, true).unwrap();
    poet.apply_control(7, fx(1.0), fx(2.0));
    assert_eq!(
        poet.last_record(),
        Some(LogRecord { tag: 7, rate: fx(1.0), power: fx(2.0), state_index: 0 })
    );
    poet.apply_control(8, fx(3.0), fx(4.0));
    assert_eq!(
        poet.last_record(),
        Some(LogRecord { tag: 8, rate: fx(3.0), power: fx(4.0), state_index: 1 })
    );
}

#[test]
fn the_window_mean_covers_the_samples_held() {
    let (control, cpu) = three_states();
    let mut poet = POET::new(fx(100.0), control, cpu, idle_cpu(), 20, 2, false).unwrap();
    assert_eq!(poet.window_means(), None);
    poet.apply_control(0, 10, 100);
    assert_eq!(poet.window_means(), Some(Sample { rate: 10, power: 100 }));
    poet.apply_control(1, 20, 200);
    assert_eq!(poet.window_means(), Some(Sample { rate: 15, power: 150 }));
    poet.apply_control(2, 40, 400);
    assert_eq!(poet.window_means(), Some(Sample { rate: 30, power: 300 }));
}
