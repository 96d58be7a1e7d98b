//! Rules engine of a two-player grid battle game whose whole session state
//! travels inside opaque action tokens.

pub mod grid;
pub mod hits;
pub mod ship;
pub mod player;
mod chance;
pub mod game;
pub mod codec;
pub mod action;
pub mod base64url;
pub mod engine;
pub mod start;
pub mod render;
