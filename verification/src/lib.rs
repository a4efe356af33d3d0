//! A pond of water cells that answers touches with local changes and with
//! decaying circular waves, and that is turned into one color per cell for
//! every frame.
//!
//! Heights are fixed-point numbers: a level of [`level::FULL`] stands for 1.0.
//! The shape of a wave over age and distance is supplied by the caller of
//! [`pond::Pond::render`]; everything else is decided here.

pub mod coordinate;
pub mod level;
pub mod ripple;
pub mod grid;
pub mod epicenter;
pub mod color;
pub mod config;
pub mod event;
pub mod pond;
