//! Core of a command-line benchmark comparator: tokenizing command strings,
//! collecting per-run measurements, aggregating them into summary statistics,
//! and ranking commands by time or peak memory.
//!
//! Durations are carried as whole nanoseconds and memory as whole bytes, so
//! every aggregation step is exact integer arithmetic.

pub mod display;
pub mod runner;
pub mod sampler;
pub mod stats;
pub mod tokenizer;
pub mod types;

use vstd::prelude::*;

verus! {

/// Relies on `String::push`: appends the given character to the end of the
/// string.
pub assume_specification[ String::push ](s: &mut String, ch: char)
    ensures
        final(s)@ == old(s)@.push(ch),
;

} // verus!
