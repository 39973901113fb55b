//! Decision logic of a hinge-angle tablet-mode daemon and of a DSI
//! panel-corruption repair daemon, verified with Verus.

pub mod text;
pub mod state;
pub mod numeric;
pub mod accel;
pub mod acpi;
pub mod cli;
pub mod display;
pub mod watchdog;
pub mod kmsg;
pub mod repair;
pub mod control;
