//! Locates the first toolchain of a compiler release history that shows a
//! regression in a user-supplied project: a ternary binary search over dated
//! releases and merge commits, the bound resolution in front of it, and the
//! naming, installing and classifying rules around each probe.

pub mod bounds;
pub mod commits;
pub mod dates;
pub mod least_satisfying;
pub mod orchestrator;
pub mod perf;
pub mod runner;
pub mod text;
pub mod toolchains;
