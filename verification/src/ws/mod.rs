//! WebSocket framing: binary data frames, the close handshake, masking and
//! the extended payload lengths.

pub mod bytes;
pub mod decode;
pub mod event;
pub mod frame;
pub mod laws;
pub mod mask;
pub mod ws;

pub use decode::Step;
pub use event::{Event, WsError};
pub use frame::{Frame, Role};
pub use ws::WebSocket;
