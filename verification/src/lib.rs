//! Core logic of a countdown-driven propulsion controller.
//!
//! The crate verifies the two components that carry the system's real
//! lifecycle hazards: the command vocabulary with its parser, and the
//! mission computer, a single-consumer state machine that owns at most one
//! in-flight timed firing action. A sequential model of the command conduit
//! (the latest-value-wins channel between producers and the consumer)
//! states the delivery contract the surrounding runtime must provide.
//!
//! Everything asynchronous (the HTTP adapter, the watch channel, the timer
//! tasks) lives outside this crate and drives these verified transitions.

pub mod command;
pub mod computer;
pub mod conduit;
