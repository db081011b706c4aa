//! Core of a multi-display capture-to-stream pipeline: display enumeration
//! and geometry reconciliation, per-display capture-loop pacing and
//! lifecycle, pixel-format conversion, and the supervisor that coordinates
//! the loops' joint startup and shutdown. The network streaming sink, the
//! configuration file, and the process glue around this core live outside
//! the library and hand it plain values.

pub mod capture;
pub mod config;
pub mod supervisor;
