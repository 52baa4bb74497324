//! A second front end to the same machine: a display addressed by cell index,
//! and a processor whose timers are fields of their own and whose execution
//! reports the pixels it touched.

pub mod cpu;
pub mod display;
