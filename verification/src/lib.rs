//! Selective assembly and manifest generation for a depot-based game release.
//!
//! The library holds the decision logic of the pipeline: which targets a run
//! builds, how declarative copy rules resolve against a source tree, how an
//! extracted archive's layout is flattened, and how the build manifests are
//! rendered. All filesystem, network and version-control work is performed by
//! the surrounding binary, which hands the library plain values and executes
//! the plans it returns.

pub mod args;
pub mod download;
pub mod extract;
pub mod fetch;
pub mod fsutil;
pub mod github;
pub mod run;
pub mod strutil;
pub mod vdf;
pub mod yini;
