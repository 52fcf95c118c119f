//! The engine of an interactive directory-size browser.
//!
//! The crate holds the size aggregation over a walked directory tree
//! (`stats`), the ordering of the resulting entries (`ranking`), the rule of
//! the status log (`journal`), and the controller that turns channel messages
//! and operator commands into state changes and requests for background work:
//! as a state machine over mathematical values (`model`) and as the code
//! that runs it (`controller`). `protocol` holds what the controller
//! exchanges with the program around it, `status` and `present` the text that
//! it writes and shows. Terminal handling, file-system access and threads are
//! left to the program that drives the controller.

pub mod clock;
pub mod controller;
pub mod journal;
pub mod model;
pub mod paths;
pub mod present;
pub mod protocol;
pub mod ranking;
pub mod stats;
pub mod status;
pub mod text;
