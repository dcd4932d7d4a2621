//! Task scheduling and execution-context core of a small teaching kernel.
pub mod config;
pub mod context;
pub mod laws;
pub mod manager;
pub mod mm;
pub mod processor;
pub mod task;
