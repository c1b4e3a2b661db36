//! Decision logic of a GPU overclocking tool.
//!
//! The tool adjusts clock offsets and power limits of NVIDIA GPUs, either for
//! one device named on the command line or for every device listed in a
//! configuration file. Talking to the driver, reading files and gaining root
//! privileges are the caller's business. This library decides what has to be
//! done, in which order, and when to give up:
//!
//! * [`params`] holds the requested parameter changes and the setter calls
//!   that they stand for;
//! * [`config`] holds the targets of a run and resolves the tool's input;
//! * [`plan`] lays out the driver calls of a run;
//! * [`session`] walks through a run step by step and aborts it on the
//!   first failure;
//! * [`machine`] answers the steps that only ask how the machine is;
//! * [`error`] names what can go wrong and words the messages;
//! * [`laws`] states what holds of every run.

pub mod config;
pub mod error;
pub mod laws;
pub mod machine;
pub mod params;
pub mod plan;
pub mod session;
