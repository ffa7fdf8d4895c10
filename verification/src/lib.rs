//! A transparent content firewall core: pattern rule sets with per-direction
//! blacklist/whitelist semantics, a hot-swappable rule store, an IP/TCP packet
//! codec with reset synthesis, and the queue-allocation state machine for a
//! pool of kernel packet queues.

pub mod checksum;
pub mod codec;
pub mod config;
pub mod pool;
pub mod store;
pub mod worker;
pub mod rules;
