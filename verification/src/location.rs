//! The two sides of a synchronisation.

use vstd::prelude::*;
use vstd::string::StringExecFns;

verus! {

/// One of the two repositories that are kept in step.
#[derive(Clone, Copy, Debug, PartialEq, Eq, Structural)]
pub enum Location {
    SUBGIT,
    UPSTREAM,
}

impl Location {
    /// The other side.
    pub open spec fn spec_flip(self) -> Location {
        match self {
            Location::SUBGIT => Location::UPSTREAM,
            Location::UPSTREAM => Location::SUBGIT,
        }
    }

    /// The other side.
    #[verifier::when_used_as_spec(spec_flip)]
    pub fn flip(self) -> (r: Location)
        ensures
            r == self.spec_flip(),
    {
        match self {
            Location::SUBGIT => Location::UPSTREAM,
            Location::UPSTREAM => Location::SUBGIT,
        }
    }

    /// The short name of the side, as it appears in the data directory.
    pub open spec fn name(self) -> Seq<char> {
        match self {
            Location::SUBGIT => "local"@,
            Location::UPSTREAM => "upstream"@,
        }
    }

    /// The name of the table that holds the entries whose source is this side.
    pub open spec fn source_table(self) -> Seq<char> {
        match self {
            Location::SUBGIT => "from_local"@,
            Location::UPSTREAM => "from_upstream"@,
        }
    }

    /// The short name of the side.
    pub fn as_ref(&self) -> (r: &'static str)
        ensures
            r@ == self.name(),
    {
        match self {
            Location::SUBGIT => "local",
            Location::UPSTREAM => "upstream",
        }
    }

    /// The name of the table that holds the entries whose source is this
    /// side.
    pub fn as_source_table(&self) -> (r: &'static str)
        ensures
            r@ == self.source_table(),
    {
        match self {
            Location::SUBGIT => "from_local",
            Location::UPSTREAM => "from_upstream",
        }
    }
}

impl Location {
    /// The statement that creates the table of the side in the store of the
    /// commit map, unless it is there.
    pub open spec fn creation(self) -> Seq<char> {
        "CREATE TABLE IF NOT EXISTS "@ + self.source_table()
            + " (source TEXT NOT NULL, dest TEXT NOT NULL, timestamp DATETIME NOT NULL);"@
    }

    /// The statement that creates the table of the side.
    pub fn create_statement(&self) -> (r: String)
        ensures
            r@ == self.creation(),
    {
        let mut out = "CREATE TABLE IF NOT EXISTS ".to_owned();
        out.append(self.as_source_table());
        out.append(" (source TEXT NOT NULL, dest TEXT NOT NULL, timestamp DATETIME NOT NULL);");
        out
    }
}

} // verus!
