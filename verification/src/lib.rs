//! A per-class time tracker: timers that are started, stopped and cancelled
//! per task class, a log of finished timers, and reports over both.

pub mod class;
pub mod clock;
pub mod text;
pub mod time;
pub mod ledger;
pub mod store;
pub mod session;
