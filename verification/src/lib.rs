//! An emulated connected pair of stream sockets.
//!
//! Two endpoints are created together and cross-wired: whatever is written
//! to one becomes readable on the other through a bounded byte queue. The
//! emulation follows the behaviour of the real primitive (partial transfers,
//! end-of-file once the writer is gone, broken pipe once the reader is gone,
//! readiness for event polling) and records on every transfer the causal
//! clock that a race detector needs.

pub mod arena;
pub mod buffer;
pub mod clock;
pub mod epoll;
pub mod error;
pub mod fd;
pub mod laws;
pub mod machine;
pub mod socket;
pub mod wiring;
