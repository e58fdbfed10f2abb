//! The relay pipeline: what happens to a packet between the reader that
//! read it and the writer it is written to.
//!
//! A packet that was read gets a destination, runs through the chain of
//! relay passes in order, and is then written to at most one writer. The
//! functions here decide all of that; the caller reads and writes.

pub mod chain;
pub mod delivery;
pub mod laws;
pub mod model;
pub mod order;
pub mod passes;
pub mod rewrite;
pub mod steps;

pub use chain::{default_passes, needs_decoding, run_relay_passes};
pub use delivery::{handle_write_failure, send_packet, Delivery};
pub use model::RelayPass;
pub use steps::{
    client_relay_reads, handle_client_relay, handle_server_relay, server_relay_reads, RelayRead,
    RelayStep,
};
