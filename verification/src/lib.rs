//! Core of a serial-terminal analyzer: a bounded receive buffer with FIFO
//! eviction, an ASCII/hex display codec, pattern-based content filtering,
//! structured send/receive logging, and the connection/reconnect state
//! machine that drives a byte-oriented transport link.

pub mod buffer;
pub mod clock;
pub mod codec;
pub mod filter;
pub mod logging;
pub mod serial;
pub mod session;
pub mod virtual_com;
