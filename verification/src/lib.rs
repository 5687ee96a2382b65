//! Configuration-file fallback for clap command lines: the verified analysis of the derive input
//! and the runtime merge of command-line values with configuration values.

pub mod arg;
pub mod clap_attr;
pub mod command;
pub mod format;
pub mod input;
pub mod laws;
pub mod generator;
pub mod opts;
pub mod parse;
pub mod source;
pub mod text;
pub mod types;
