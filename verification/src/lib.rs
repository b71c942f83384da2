//! Metrics for the dependencies of a cargo workspace.
//!
//! The heart of the crate attributes lines of code and unsafe-code counts to
//! the direct dependencies of a workspace. For every direct dependency it
//! tells apart the packages that only this dependency pulls in from those it
//! shares with the rest of the graph, and sums the per-package reports over
//! both sets. Beside it stand the decisions taken while the activity of a
//! repository is fetched from GitHub, and the banner of the advisories that
//! an update touches.
//!
//! Nothing here reads a file, runs a program or talks to the network: the
//! caller does, and hands in what came back.

pub mod advisory;
pub mod code;
pub mod geiger;
pub mod github;
pub mod graph;
pub mod laws;
pub mod report;
