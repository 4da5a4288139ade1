//! A Motorola 68000-family CPU core: instruction semantics, condition codes,
//! exception entry, timing tables and the decoded-operation and trace
//! executors. Register effects, flags and clock counts are stated against a
//! mathematical model and proved; bus traffic is stated as a log of the
//! calls the CPU makes, in full for the paths the README lists.

pub mod types;
pub mod cpu;
pub mod op_cache;
pub mod exceptions;
pub mod fc;
pub mod fslw;
pub mod mem_ops;
pub mod memory;
pub mod vector;
pub mod ea;
pub mod flags;
pub mod instructions;
pub mod timing_020;
pub mod reg_ops;
pub mod trace_jit;
pub mod addressing;
pub mod workloads;
pub mod engine;
pub mod trace_profile;
pub mod timing_040;
