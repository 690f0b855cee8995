//! The treasury: splits what the collector gathered among three strategies.

pub mod entrypoints;
pub mod instructions;
pub mod states;
