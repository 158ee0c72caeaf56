//! The data model: operations, parsed refspecs, advertised remote
//! references, and the mappings a match run produces.

use vstd::prelude::*;
use crate::oid::Oid;

verus! {

/// The operation a refspec belongs to.
#[derive(Debug, Copy, Clone, PartialEq, Eq, Structural)]
pub enum Operation {
    Fetch,
    Push,
}

/// One parsed, validated refspec. Constructed by [`crate::parse::parse`]
/// and immutable thereafter.
#[derive(Debug, Clone)]
pub struct Refspec {
    /// The operation the spec was parsed for.
    pub operation: Operation,
    /// The source pattern; absent only for a push delete spec (`:dest`).
    pub source: Option<Vec<u8>>,
    /// The destination pattern; absent when no `:` was given.
    pub destination: Option<Vec<u8>>,
    /// Whether the spec carried the leading force marker `+`.
    pub force: bool,
    /// Whether the spec is an exclusion (leading `-`, push only): it
    /// removes matches of other specs instead of adding its own.
    pub exclude: bool,
}

/// The mathematical content of a [`Refspec`].
#[verifier::ext_equal]
pub ghost struct SpecRefspec {
    pub operation: Operation,
    pub source: Option<Seq<u8>>,
    pub destination: Option<Seq<u8>>,
    pub force: bool,
    pub exclude: bool,
}

impl View for Refspec {
    type V = SpecRefspec;

    open spec fn view(&self) -> SpecRefspec {
        SpecRefspec {
            operation: self.operation,
            source: match self.source {
                Some(s) => Some(s@),
                None => None,
            },
            destination: match self.destination {
                Some(d) => Some(d@),
                None => None,
            },
            force: self.force,
            exclude: self.exclude,
        }
    }
}

/// One advertised remote reference: its fully qualified name, the object it
/// points to, and — when it is an annotated tag — the peeled target.
#[derive(Debug, Clone)]
pub struct RemoteItem {
    /// The fully qualified ref name as advertised, e.g. `refs/heads/main`.
    pub full_ref_name: Vec<u8>,
    /// The object id the ref points to.
    pub target: Oid,
    /// For an annotated tag, the id of the object the tag peels to.
    pub tag: Option<Oid>,
}

/// The mathematical content of a [`RemoteItem`].
#[verifier::ext_equal]
pub ghost struct SpecItem {
    pub full_ref_name: Seq<u8>,
    pub target: Seq<u8>,
    pub tag: Option<Seq<u8>>,
}

impl View for RemoteItem {
    type V = SpecItem;

    open spec fn view(&self) -> SpecItem {
        SpecItem {
            full_ref_name: self.full_ref_name@,
            target: self.target@,
            tag: match self.tag {
                Some(t) => Some(t@),
                None => None,
            },
        }
    }
}

/// The remote side of a mapping: a fully qualified ref name, or — for a
/// refspec whose source was a literal object id — that id.
#[derive(Debug, Clone, PartialEq, Eq)]
pub enum RemoteRef {
    Name(Vec<u8>),
    ObjectId(Oid),
}

/// The mathematical content of a [`RemoteRef`].
#[verifier::ext_equal]
pub ghost enum SpecRemote {
    Name(Seq<u8>),
    ObjectId(Seq<u8>),
}

impl View for RemoteRef {
    type V = SpecRemote;

    open spec fn view(&self) -> SpecRemote {
        match self {
            RemoteRef::Name(n) => SpecRemote::Name(n@),
            RemoteRef::ObjectId(o) => SpecRemote::ObjectId(o@),
        }
    }
}

/// One unit of output: what to fetch or push, and the local ref to update.
/// An absent local side means the remote content is wanted without any
/// local ref update (the transient fetch marker is the caller's concern).
#[derive(Debug, Clone, PartialEq, Eq)]
pub struct Mapping {
    pub remote: RemoteRef,
    pub local: Option<Vec<u8>>,
}

/// The mathematical content of a [`Mapping`].
#[verifier::ext_equal]
pub ghost struct SpecMapping {
    pub remote: SpecRemote,
    pub local: Option<Seq<u8>>,
}

impl View for Mapping {
    type V = SpecMapping;

    open spec fn view(&self) -> SpecMapping {
        SpecMapping {
            remote: self.remote@,
            local: match self.local {
                Some(l) => Some(l@),
                None => None,
            },
        }
    }
}

impl Mapping {
    /// A fresh copy of the mapping.
    pub fn duplicate(&self) -> (r: Mapping)
        ensures
            r@ == self@,
    {
        let remote = match &self.remote {
            RemoteRef::Name(n) => RemoteRef::Name(crate::bytes::copy_bytes(n)),
            RemoteRef::ObjectId(o) => RemoteRef::ObjectId(o.duplicate()),
        };
        let local = match &self.local {
            Some(l) => Some(crate::bytes::copy_bytes(l)),
            None => None,
        };
        Mapping { remote, local }
    }
}

/// The views of a sequence of items.
pub open spec fn items_view(items: Seq<RemoteItem>) -> Seq<SpecItem> {
    items.map_values(|it: RemoteItem| it@)
}

/// The views of a sequence of mappings.
pub open spec fn mappings_view(ms: Seq<Mapping>) -> Seq<SpecMapping> {
    ms.map_values(|m: Mapping| m@)
}

} // verus!
