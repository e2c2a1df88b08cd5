//! Memory-pressure alerting: parsing of the kernel's memory reports, the alert
//! policy state machine, and the decisions and texts around notifications.
use vstd::prelude::*;

pub mod alert;
pub mod clock;
pub mod config;
pub mod memory;
pub mod monitor;
pub mod policy;
pub mod report;
pub mod text;

verus! {

} // verus!
