//! Resolution of refspecs — the fetch/push pattern language that maps
//! remote-repository references to local ones — against a concrete set of
//! advertised remote references.
//!
//! The crate parses refspec strings into [`types::Refspec`] values, gathers
//! them into a [`group::MatchGroup`], and matches the group against a
//! sequence of advertised references, producing the ordered sequence of
//! ref-to-ref mappings that a fetch or push must execute. All of it is pure
//! computation: no I/O happens here, and nothing is mutated.

use vstd::prelude::*;

pub mod bytes;
pub mod group;
pub mod laws;
pub mod matching;
pub mod namer;
pub mod oid;
pub mod parse;
pub mod types;

verus! {

/// The kind of repository a set of refs belongs to.
#[derive(Debug, Copy, Clone, PartialEq, Eq, Hash, PartialOrd, Ord, Structural)]
pub enum Kind {
    Bare,
    WorkingTree,
}

impl Kind {
    /// Whether the repository has no working tree.
    pub fn is_bare(&self) -> (r: bool)
        ensures
            r == (*self is Bare),
    {
        matches!(self, Kind::Bare)
    }
}

} // verus!
