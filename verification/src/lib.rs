//! Verified core of a message-streaming server: the batch wire format, the
//! partition reconciler and the request dispatcher.
pub mod buffers;
pub mod client;
pub mod codec;
pub mod dispatch;
pub mod error;
pub mod hash;
pub mod index;
pub mod message;
pub mod namespace;
pub mod reconciler;
pub mod send_messages2;
mod sequences;
