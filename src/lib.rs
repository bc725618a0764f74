//! Turns a stream of compiler diagnostics into annotation batches for a
//! remote check run, with the conversion, batching and run decisions
//! stated as contracts and proved.

pub mod clippy;
pub mod check_run;
pub mod publisher;
pub mod action;
