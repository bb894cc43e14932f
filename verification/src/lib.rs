//! Decision core of a command-line proxy for a version-control tool.
//!
//! The proxy forwards most invocations to the underlying tool unchanged,
//! but intercepts a few subcommands: `commit` is wrapped with authorship
//! hooks, `blame` is answered by an authorship query, and simple `fetch`
//! and `push` invocations are augmented with extra synchronization
//! refspecs. This crate holds the pure decision layer: command
//! classification, argument rewriting, blame-target parsing, the commit
//! hook state machine, and exit-code mapping. All process spawning,
//! repository access and terminal I/O live outside it.

pub mod blame;
pub mod commit_flow;
pub mod refspec;
pub mod router;
