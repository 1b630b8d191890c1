//! Decisions behind the `zena` command line: what to compile, what to reuse, what to run.
pub mod args;
pub mod artifact;
pub mod compile;
pub mod components;
pub mod engine;
pub mod guest;
pub mod key;
pub mod loader;
pub mod number;
pub mod order;
pub mod path;
pub mod pattern;
pub mod run;
pub mod session;
pub mod stale;
pub mod suite;
pub mod text;
pub mod tool;
pub mod trace;
pub mod tty;
pub mod variables;
pub mod verdict;
