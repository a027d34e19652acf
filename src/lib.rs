//! The message-passing core between a native host and an embedded UI engine:
//! the value model and its standard binary codec, named channels and the
//! registry that routes inbound calls, the engine boundary that sends and
//! answers on the platform thread only, the platform task runner, and the
//! plugin registrar.
pub mod boundary;
pub mod channel;
pub mod codec;
pub mod download;
pub mod ffi;
pub mod input;
pub mod plugins;
pub mod standard_codec;
pub mod tasks;
pub mod text;
pub mod textinput;
pub mod value;
pub mod wire;
pub mod wire_proofs;
