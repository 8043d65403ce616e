//! Verified core of a small environmental display: the fixed-width frame
//! text, the arbitration of one two-wire bus between several drivers, and the
//! sequencing of the measure-and-render cycle.

pub mod arbiter;
pub mod buffer;
pub mod frame;
pub mod station;
