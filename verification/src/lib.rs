//! Memory stress testing: configuration checks, buffer allocation, the
//! access patterns that hammer a buffer of 64-bit words, and the integrity
//! check that records every word that no longer holds what was written.

pub mod arith;
pub mod config;
pub mod buffer;
pub mod hammer;
pub mod patterns;
pub mod rng;
pub mod random;
pub mod integrity;
pub mod run;

pub mod logfile;
pub mod laws;
pub mod purpose;
