//! Live host-telemetry broadcasting: the subscriber registry and its fan-out,
//! the newline-delimited wire framing, the incremental frame reassembly of the
//! stream client, and the parsing of listen and connect addresses.

pub mod frame;
pub mod error;
pub mod hub;
pub mod registry;
pub mod addr;
pub mod cli;
pub mod metrics;
