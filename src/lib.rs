//! Realtime chat relay: frame decoding, attachment decoding, the connection
//! registry and the per-connection reader state machine.

pub mod json;
pub mod codec;
pub mod attachment;
pub mod registry;
pub mod relay;
pub mod dtos;
