//! Exact prices for concentrated-liquidity pools, and the deterministic core of
//! a monitor that polls many pools on independent timers.
//!
//! The crate holds no I/O. A host program performs the reads and the sleeps and
//! hands their outcomes to the state machines defined here.

pub mod address;
pub mod call_queue;
pub mod connection;
pub mod poller;
pub mod pool;
pub mod price;
pub mod sqrt_price;
pub mod supervisor;
pub mod wide;
