//! Watch-together rooms.
//!
//! A room's participants watch one file together. Web clients and desktop Syncplay clients share
//! rooms. Each operation of the engine changes the state of one or more rooms and returns the
//! notifications that the change gives rise to; delivering them is up to the caller.

pub mod activity;
pub mod engine;
pub mod laws;
pub mod membership;
pub mod notices;
pub mod playback;
pub mod room;
