//! Sampling of one counter from a control group's memory accounting file.
//!
//! The crate holds the rules of the tool: how a counter is looked up in the
//! text of a stat file, how the command line becomes a configuration, and
//! which step follows which while sampling. Reading files, printing and
//! waiting are left to the program that uses the crate.

pub mod command_line;
pub mod decimal;
pub mod options;
pub mod sampler;
pub mod stat;
pub mod stat_lemmas;
pub mod text;
pub mod timestamp;
