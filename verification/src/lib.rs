//! Particle Life: the integer core of a particle-life simulator.
//!
//! The modules hold the parts of the simulator whose behaviour can be stated
//! exactly over integers, bytes and strings: command-line world sizes,
//! attraction-matrix share codes, the attraction-matrix memory layout, the
//! xorshift generator, spatial-grid dispatch sizes, benchmark schedulers,
//! PNG framing helpers and the UI request records.

mod text;
mod png_io;
pub mod cli;
pub mod config;
pub mod simulation;
pub mod benchmark;
pub mod ui;
pub mod icon;
pub mod renderer;
