//! Supersilver: the wire protocol between the volume-knob controller and its
//! host, and the decisions that the controller firmware and the host daemon
//! take around it.

pub mod controller;
pub mod decimal;
pub mod host;
pub mod knob;
pub mod protocol;
pub mod wire;

pub use protocol::{encode, Decoder, EncoderState, ProtocolError};
