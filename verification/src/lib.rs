//! On Air Record: the verified core of an audio broadcast and DVR service.
//!
//! The library holds the rules and the arithmetic of the recorder: how captured audio is cut into
//! frames, how a timestamp maps to a byte offset in a segment file, what a WAV header says, how the
//! waveform envelope is rendered, how settings are parsed and patched, which release counts as newer,
//! and who may do what. Everything that talks to a device, a socket, a database or the disk lives in
//! the companion application crate and hands this library plain values.

pub mod audio;
pub mod config;
pub mod controllers;
pub mod db;
pub mod dto;
pub mod error;
pub mod models;
pub mod repositories;
pub mod util;
