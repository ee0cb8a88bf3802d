//! Point-to-point message exchange between peers: length-prefixed framing,
//! protocol selection, and the per-connection event queue.

pub mod protocol;
pub mod handler;
pub mod substream;
