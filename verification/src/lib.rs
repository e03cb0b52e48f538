//! Core of a bounded-parallelism line fan-out tool.
//!
//! A stream of input lines is fanned out to concurrently running instances of
//! a fixed command: each line is split on a delimiter into the multi-line
//! standard input of one subprocess, and the captured outputs are reassembled
//! into one output record per input line, in the original input order.
//!
//! This crate holds the verified engine: the line splitter, the job-result
//! data model, the output formatter with its failure policy, and the
//! bookkeeping discipline of the bounded FIFO queue that carries job handles
//! from the dispatcher to the output sequencer. Reading input, spawning the
//! subprocesses and writing output are left to the surrounding binary.

pub mod output_stream;
pub mod queue;
pub mod sub_process;
pub mod splitter;
pub mod text;
