//! Core of an event based IPC framework: payload forms, the event frame
//! format, the reply correlator, handler lookup, the connection state machine
//! and the buffering of the encrypted stream, each with a proved contract.

pub mod buffer;
pub mod correlator;
pub mod dispatcher;
pub mod encrypted;
pub mod error;
pub mod event;
pub mod payload;
pub mod registry;
pub mod serializer;
pub mod wire;
