//! A declarative description of commit histories, for trying a subgit out:
//! a history is written down as a tree of commits with the files that each
//! changes, replayed into a repository, and the files that each branch must
//! hold in the end are derived from it.

pub mod git;
pub mod harness;
pub mod tree;
pub mod util;
