//! Client-side core of a line-delimited JSON control channel for a media
//! player: a request/reply correlator with an event queue, and a template
//! interpreter for status strings.

pub mod commands;
pub mod digits;
pub mod error;
pub mod json;
pub mod resolve;
pub mod template;
pub mod text;
pub mod wire;
