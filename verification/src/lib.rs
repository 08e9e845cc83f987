//! Client-side engine for the DSP chat protocol: the wire codec that frames
//! and parses messages, the frame reader that splits a byte stream into
//! NUL-terminated frames, and the application state machine that multiplexes
//! input, received payloads and send completions while keeping exclusive
//! custody of the connection's write half.

pub mod client;
pub mod codec;
pub mod config;
pub mod protocol;
pub mod state;
