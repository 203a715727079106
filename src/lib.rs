//! Compile-time instrumentation of allocation calls and raw-pointer
//! dereferences, with a deduplicated table of source spans.
//!
//! Every call of a hooked allocation function becomes a block that makes the
//! call, reports it to the trace runtime with the index of its source span,
//! and yields the call's result. Every dereference of a raw pointer first
//! reports the pointer. The span table, serialized at the end of the pass,
//! maps each index back to its file and byte range.
pub mod ast;
pub mod entry;
pub mod hooks;
pub mod instrument;
pub mod rewrite;
pub mod span;
pub mod span_file;

pub use instrument::{finalize, initialize, instrument_program, LifetimeInstrumentation, PassError};
