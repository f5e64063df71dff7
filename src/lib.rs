//! Core of a user-space TCP/IP stack: error kinds, TCP configuration, the ARP
//! cache, scatter-gather buffers, the cooperative runtime's clock and task
//! table, and the decision logic of TCP passive open and established
//! connections. Time is counted in nanoseconds on a clock that callers advance.

pub mod fail;
pub mod config;
pub mod arp;
pub mod tcp;
pub mod endpoint;
pub mod rto;
pub mod established;
pub mod handshake;
pub mod passive_open;
pub mod runtime;

