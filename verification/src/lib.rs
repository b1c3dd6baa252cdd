//! Verified core of a single-shot TensorFlow Lite inference worker.
//!
//! The library owns the two pieces of logic that are worth specifying
//! precisely: the strict binary decoder for the job description that
//! arrives over an untrusted channel, and the linear state machine that
//! sequences one inference run and pins down its failure semantics.
//! All file access and every call into the inference backend live in the
//! surrounding binary, which drives the state machine with the outcome of
//! each step.

pub mod descriptor;
pub mod pipeline;
pub mod utf8;
pub mod varint;
