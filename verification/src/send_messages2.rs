//! The `SendMessages2` batch format.
//!
//! A batch is a 256-byte command header and a blob of message frames. Each
//! frame is a 48-byte header, the payload and the user headers, in this order.
pub mod batch;
pub mod checksum;
pub mod contents;
pub mod decode;
pub mod encode;
pub mod encrypt;
pub mod frames;
pub mod header;
pub mod laws;
pub mod layout;
pub mod legacy;
pub mod messages;
