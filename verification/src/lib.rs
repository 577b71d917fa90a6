//! Block-wise spectral preparation of I/Q sensor samples.
//!
//! The crate holds the exact, integer part of the chain that turns a flat
//! sequence of samples into frequency-bin rows: reading the command line,
//! telling the measuring points apart, cutting their samples into blocks,
//! taking the mean off each block, choosing the window and mapping bins to
//! signed frequency indices.

pub mod cli;
pub mod config;
pub mod dc;
pub mod freq;
pub mod group;
pub mod pipeline;
pub mod sample;
pub mod segment;
pub mod window;
