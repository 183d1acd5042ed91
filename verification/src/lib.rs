//! A CPU/IO task scheduler simulation: tasks of two kinds compete for workers
//! under a shared CPU budget. This crate holds the scheduling decisions, the
//! task and metric bookkeeping, and a few small numeric routines; threads,
//! clocks and printing are left to the program that drives it.

pub mod task;
pub mod config;
pub mod generator;
pub mod scheduler;
pub mod budget;
pub mod metrics;
pub mod numeric;
pub mod monitor;
