//! A micro-benchmarking harness: it runs a fixed workload under hardware
//! performance counters and emits one CSV row per iteration, carrying the
//! workload result, the elapsed wall-clock time, a cycle-timestamp delta,
//! and one column per configured counter.

pub mod args;
pub mod counters;
pub mod decimal;
pub mod output;
pub mod prime;
pub mod procstat;
pub mod row;
pub mod runner;
