//! UDP datagrams tunnelled over WebSocket connections.
//!
//! The crate holds the protocol logic only: the WebSocket frame codec, the
//! pool of outbound connections, the record of the last peer address and the
//! decisions of the write multiplexer. Every function works on plain values;
//! sockets, timers and tasks belong to the program that drives the library.

pub mod addr;
pub mod pool;
pub mod write;
pub mod ws;

pub use write::{datagram_buffer, MAX_DATAGRAM_SIZE};
