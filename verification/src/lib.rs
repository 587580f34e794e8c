//! The core of a process supervisor: a registry of managed processes with its
//! lifecycle state machine, the per-process log codec, memory metrics taken
//! from a system snapshot, and terminal sessions with their shell jobs.
//!
//! The library decides and records; starting, signalling and waiting for
//! operating-system processes, and reading or writing files, is left to the
//! host program, which reports each outcome back.

pub mod text;
pub mod string_map;
pub mod types;
pub mod error;
pub mod process_manager;
pub mod timestamp;
pub mod log_handler;
pub mod terminal;
pub mod monitoring;
pub mod events;
pub mod output_capture;
pub mod config_handler;
pub mod commands;
