//! Mass-production flashing orchestrator.
//!
//! The library tracks every serial port ever seen during a session, decides
//! which ports are eligible under user-defined whitelist/blacklist rules,
//! keeps a FIFO queue of ports waiting to be flashed, and admits queued ports
//! into a bounded set of active workers.  All decisions are made here on plain
//! values; the surrounding application performs the device I/O and feeds the
//! results back in.

pub mod errors;

pub mod text;

pub mod progress;

pub mod mass_production;

pub mod state;

pub mod filter;

pub mod scanner;

pub mod session;

pub mod laws;

pub mod logging;

pub mod config;

pub mod device;

pub mod flash;

pub mod stub_config_spec;
