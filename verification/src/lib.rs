//! Republishes a subdirectory of a bare Git repository as a repository of its
//! own, the subgit, and keeps the two in step: what is pushed to either side
//! reaches the other.
//!
//! This crate holds the decisions and proves them. It touches no repository
//! and no file: what it needs to know of Git it asks for as plain values, and
//! what is to be done it hands back as plain values. Whoever links it carries
//! that out.
//!
//! - `oid`, `location`, `text`, `filter`: commit identifiers, the two sides,
//!   texts, and the filters of refs and paths.
//! - `map`: the commit map, which translates the commits of each side.
//! - `copier`, `engine`, `track`, `content`: the copy of commits from one
//!   side to the other, as a run of questions and answers; what a run comes
//!   to; and what it does to the files.
//! - `sync`, `hooks`: the synchronisation of refs that each hook runs.
//! - `action`, `cli`, `settings`, `setup`: the recursion guard, the
//!   dispatcher, the settings, and the setup of a subgit.
//! - `port`, `git`: what is asked of Git, and how Git is asked on its command
//!   line.
//! - `declarative`: commit histories written down as trees, for trying a
//!   subgit out.

pub mod action;
pub mod cli;
pub mod content;
pub mod copier;
pub mod declarative;
pub mod engine;
pub mod filter;
pub mod git;
pub mod hooks;
pub mod location;
pub mod map;
pub mod oid;
pub mod port;
pub mod settings;
pub mod setup;
pub mod sync;
pub mod text;
pub mod track;
