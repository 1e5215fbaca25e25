//! A verified core for script-like execution of a single-file program: scan
//! the raw source text for an embedded toolchain directive and for imported
//! dependencies, produce the ephemeral project's file contents, and decide
//! the pipeline of toolchain steps so that the prior working context is
//! always restored and a failing dependency never aborts the run.

pub mod context;
pub mod directives;
pub mod imports;
pub mod pipeline;
pub mod scaffold;
pub mod text;
