//! The protocol between the client and the daemon: length-prefixed frames that
//! each hold one tagged message.

pub mod assemble;
pub mod decode;
pub mod frame;
pub mod laws;
pub mod wire_laws;
pub mod message;
pub mod request;
pub mod wire;
