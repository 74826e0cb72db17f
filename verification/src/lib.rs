//! A benchmark driver library for Go projects: it discovers benchmark
//! functions, rewrites sources so they build against a custom timing runtime,
//! plans the build of per-package runner binaries, and aggregates the raw
//! timing samples those binaries emit.

pub mod builder;
pub mod checker;
pub mod cli;
pub mod discovery;
pub mod gosource;
pub mod patcher;
pub mod results;
pub mod runner;
pub mod templater;
pub mod text;
pub mod utils;
pub mod version;
