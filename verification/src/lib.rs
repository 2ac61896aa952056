//! A small grep library: line formatting, pattern matching and per-file
//! search logic, verified over byte sequences. Pattern compilation and
//! matching call the `regex` crate; terminal styling calls the `colored`
//! crate; both stand behind trusted wrappers with stated contracts.

pub mod config;
pub mod error;
pub mod format;
pub mod paint;
pub mod pattern;
pub mod search;
pub mod text;
