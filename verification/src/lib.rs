//! An adaptive performance/energy controller.
//!
//! Once per iteration the host reports a measured rate and power draw. Every
//! `period` calls the controller averages its window of recent samples,
//! compares the mean rate with the performance goal and moves at most one
//! step through an ordered table of operating points. Decisions reach the
//! platform through an [`Actuator`], whose read-back is adopted over the
//! controller's own request.
//!
//! Real-valued quantities (rates, power, speedup, cost) are carried as
//! fixed-point integers in units of one millionth ([`UNIT`]).

pub mod states;
pub mod policy;
pub mod actuator;
pub mod controller;

pub use actuator::{Actuator, SimulatedCpu};
pub use controller::{Call, Model, POET};
pub use policy::{
    adopt_index, choose_target, find_next_faster, find_prev_cheaper, mean_sample,
    window_power_sum, window_rate_sum, LogRecord, Sample, MARGIN_PERCENT,
};
pub use states::{
    default_poet_control_state_t, default_poet_cpu_state_t, is_control_table, is_cpu_table,
    load_state_tables, poet_get_control_states, poet_get_cpu_states, ControlState, CpuState,
    PoetError, UNIT,
};
