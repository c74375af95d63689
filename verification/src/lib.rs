//! Veriform: a cryptographically verifiable, length-prefixed binary
//! serialization format for structured messages.
//!
//! The crate provides the codec runtime: the `vint64` variable-length
//! integer codec, wire types and field headers, the streaming pull-parser
//! state machines for messages and sequences, the Verihash transcript
//! hasher driven by the decoder's event stream, and the buffer-backed
//! encoder with length pre-computation.

pub mod builtins;
pub mod decoder;
pub mod derive_helpers;
pub mod encoder;
pub mod error;
pub mod field;
pub mod laws;
pub mod message;
pub mod string;
pub mod verihash;
pub mod vint64;

pub use crate::encoder::Encoder;
pub use crate::error::Error;
pub use crate::message::Message;
