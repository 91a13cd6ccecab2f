//! Payload decoding and peer presence tracking for a delay-tolerant chat client.

pub mod pattern;
pub mod text;
pub mod hexcode;
pub mod decode;
pub mod framing;
pub mod presence;
pub mod history;
pub mod listing;
pub mod transcript;
pub mod input;
pub mod daemon;
