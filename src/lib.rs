//! Decision logic of a small serial-port command-line tool: argument
//! planning, the framed write sequence with its pacing, and the polling
//! read loop. Opening the device, sleeping and printing are left to the
//! program that drives these functions.

pub mod args;
pub mod frames;
pub mod reading;
pub mod session;
