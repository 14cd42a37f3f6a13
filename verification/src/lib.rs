//! A verified pipeline-execution engine for an interactive command
//! interpreter, together with a few small verified companions (a wallet
//! record, a wifi QR payload parser, a timer value).
//!
//! The heart of the crate is the executor: it receives the segments of one
//! input line (each segment a program name plus arguments), decides for each
//! segment whether it is a built-in or an external command, how its standard
//! streams are wired, and how a failed spawn breaks the pipe chain. The
//! decisions are pure and fully verified; performing them (spawning, changing
//! directory, waiting) is left to the caller.

pub mod executor;
pub mod laws;
pub mod model;
pub mod pipeline;
pub mod timer;
pub mod wallet;
pub mod wifi;
