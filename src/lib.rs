//! A client library for the line-oriented control protocol of a music
//! playback daemon: typed commands, their wire form, and incremental
//! decoding of the daemon's replies.
pub mod types;
pub mod wire;
pub mod records;
pub mod protocol;
pub mod command;
pub mod response;
pub mod buffer;
pub mod laws;
pub mod round_trip;
