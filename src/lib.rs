//! Host-side driver for a two-axis rotator spoken to over a line-oriented
//! serial protocol: wire tokens, request lines, reply validation and the
//! typed decoding of what the device answers.
//!
//! A transaction sends [`Operation::request`], feeds every read from the
//! port to [`reply::accept_chunk`] until it reports the reply complete, and
//! hands the text to the `expect_*` function of the operation.
pub mod error;
pub mod laws;
pub mod numeral;
pub mod operation;
pub mod reply;
pub mod wire;

pub use error::Error;
pub use operation::Operation;
pub use wire::{build_request, Command, Direction};
