//! Writing a disk image onto a removable device: which devices are offered,
//! which transfers may start, and the state machine that drives a chunked,
//! progress-reporting copy.

pub mod device;
pub mod engine;
pub mod request;
