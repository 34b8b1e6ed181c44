//! A minimal stop-and-wait file-transfer protocol over an unreliable
//! datagram transport: the wire-format codec for the five message kinds,
//! and the lock-step transfer engines that drive an upload or download
//! one acknowledged block at a time.

pub mod packet;
pub mod server;
pub mod transfer;
