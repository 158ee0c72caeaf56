//! Naming heuristics: turning a partially qualified token — a bare branch
//! name, a tag-shaped name, a hex object id — into a fully qualified ref
//! name. Two distinct conventions exist and must not be confused: naming on
//! the remote side, and naming of the local tracking ref. Which names count
//! as tag-shaped, and which prefix marks a remote-tracking path, are
//! configuration, not rules of this crate: remotes may name refs arbitrarily.

use vstd::prelude::*;
use crate::bytes::{contains_byte, concat_bytes, copy_bytes, starts_with};
use crate::oid::{check_oid_hex, is_oid_hex};

verus! {

/// The branch namespace, `refs/heads/`.
pub open spec fn heads_ns() -> Seq<u8> {
    seq![114u8, 101, 102, 115, 47, 104, 101, 97, 100, 115, 47]
}

/// The tag namespace, `refs/tags/`.
pub open spec fn tags_ns() -> Seq<u8> {
    seq![114u8, 101, 102, 115, 47, 116, 97, 103, 115, 47]
}

/// The remote-tracking namespace, `refs/remotes/`.
pub open spec fn remotes_ns() -> Seq<u8> {
    seq![114u8, 101, 102, 115, 47, 114, 101, 109, 111, 116, 101, 115, 47]
}

/// The reserved destination token `FETCH_HEAD`: it names the transient
/// fetch marker, so no persistent local ref is written for it.
pub open spec fn fetch_head() -> Seq<u8> {
    seq![70u8, 69, 84, 67, 72, 95, 72, 69, 65, 68]
}

/// The branch namespace as bytes.
pub fn heads_ns_bytes() -> (r: Vec<u8>)
    ensures
        r@ == heads_ns(),
{
    let mut v: Vec<u8> = Vec::new();
    v.push(114);
    v.push(101);
    v.push(102);
    v.push(115);
    v.push(47);
    v.push(104);
    v.push(101);
    v.push(97);
    v.push(100);
    v.push(115);
    v.push(47);
    proof {
        assert(v@ =~= heads_ns());
    }
    v
}

/// The tag namespace as bytes.
pub fn tags_ns_bytes() -> (r: Vec<u8>)
    ensures
        r@ == tags_ns(),
{
    let mut v: Vec<u8> = Vec::new();
    v.push(114);
    v.push(101);
    v.push(102);
    v.push(115);
    v.push(47);
    v.push(116);
    v.push(97);
    v.push(103);
    v.push(115);
    v.push(47);
    proof {
        assert(v@ =~= tags_ns());
    }
    v
}

/// The remote-tracking namespace as bytes.
pub fn remotes_ns_bytes() -> (r: Vec<u8>)
    ensures
        r@ == remotes_ns(),
{
    let mut v: Vec<u8> = Vec::new();
    v.push(114);
    v.push(101);
    v.push(102);
    v.push(115);
    v.push(47);
    v.push(114);
    v.push(101);
    v.push(109);
    v.push(111);
    v.push(116);
    v.push(101);
    v.push(115);
    v.push(47);
    proof {
        assert(v@ =~= remotes_ns());
    }
    v
}

/// The reserved token `FETCH_HEAD` as bytes.
pub fn fetch_head_bytes() -> (r: Vec<u8>)
    ensures
        r@ == fetch_head(),
{
    let mut v: Vec<u8> = Vec::new();
    v.push(70);
    v.push(69);
    v.push(84);
    v.push(67);
    v.push(72);
    v.push(95);
    v.push(72);
    v.push(69);
    v.push(65);
    v.push(68);
    proof {
        assert(v@ =~= fetch_head());
    }
    v
}

/// The naming conventions in force for one matching run.
#[derive(Debug, Clone)]
pub struct NamerConfig {
    /// A token starting with one of these is taken for a tag name. This is
    /// a guess by convention, never authoritative.
    pub tag_prefixes: Vec<Vec<u8>>,
    /// A token starting with this (the remote's name and a slash) already
    /// denotes a remote-tracking path.
    pub tracking_prefix: Vec<u8>,
}

/// The mathematical content of a [`NamerConfig`].
#[verifier::ext_equal]
pub ghost struct SpecNamer {
    pub tag_prefixes: Seq<Seq<u8>>,
    pub tracking_prefix: Seq<u8>,
}

impl View for NamerConfig {
    type V = SpecNamer;

    open spec fn view(&self) -> SpecNamer {
        SpecNamer {
            tag_prefixes: self.tag_prefixes@.map_values(|p: Vec<u8>| p@),
            tracking_prefix: self.tracking_prefix@,
        }
    }
}

/// Whether `t` is tag-shaped under the configured conventions.
pub open spec fn spec_tag_like(cfg: SpecNamer, t: Seq<u8>) -> bool {
    exists|i: int| 0 <= i < cfg.tag_prefixes.len() && cfg.tag_prefixes[i].is_prefix_of(t)
}

/// Remote-side naming: a token with a `/` is already structured; a
/// tag-shaped token goes under the tag namespace; a hex object id denotes
/// an object, not a name, and stays as given; anything else is a branch.
pub open spec fn spec_full_remote_ref(cfg: SpecNamer, t: Seq<u8>) -> Seq<u8> {
    if t.contains(crate::bytes::SLASH) {
        t
    } else if spec_tag_like(cfg, t) {
        tags_ns() + t
    } else if is_oid_hex(t) {
        t
    } else {
        heads_ns() + t
    }
}

/// Local tracking-ref naming: a token carrying the remote's prefix goes
/// under the remote-tracking namespace; a tag-shaped token under the tag
/// namespace; anything else is left as given.
pub open spec fn spec_full_tracking_ref(cfg: SpecNamer, t: Seq<u8>) -> Seq<u8> {
    if cfg.tracking_prefix.is_prefix_of(t) {
        remotes_ns() + t
    } else if spec_tag_like(cfg, t) {
        tags_ns() + t
    } else {
        t
    }
}

impl NamerConfig {
    /// A configuration with the given conventions.
    pub fn new(tag_prefixes: Vec<Vec<u8>>, tracking_prefix: Vec<u8>) -> (r: NamerConfig)
        ensures
            r@.tag_prefixes == tag_prefixes@.map_values(|p: Vec<u8>| p@),
            r@.tracking_prefix == tracking_prefix@,
    {
        NamerConfig { tag_prefixes, tracking_prefix }
    }

    /// Whether `t` is tag-shaped under these conventions.
    pub fn tag_like(&self, t: &Vec<u8>) -> (r: bool)
        ensures
            r == spec_tag_like(self@, t@),
    {
        let mut i: usize = 0;
        while i < self.tag_prefixes.len()
            invariant
                i <= self.tag_prefixes@.len(),
                forall|j: int| 0 <= j < i ==> !self@.tag_prefixes[j].is_prefix_of(t@),
            decreases self.tag_prefixes@.len() - i,
        {
            if starts_with(t, &self.tag_prefixes[i]) {
                proof {
                    assert(self@.tag_prefixes[i as int].is_prefix_of(t@));
                }
                return true;
            }
            i += 1;
        }
        false
    }

    /// Fully qualifies `t` as a remote-side name.
    pub fn full_remote_ref(&self, t: &Vec<u8>) -> (r: Vec<u8>)
        ensures
            r@ == spec_full_remote_ref(self@, t@),
    {
        if contains_byte(t, crate::bytes::SLASH) {
            copy_bytes(t)
        } else if self.tag_like(t) {
            let ns = tags_ns_bytes();
            concat_bytes(&ns, t)
        } else if check_oid_hex(t) {
            copy_bytes(t)
        } else {
            let ns = heads_ns_bytes();
            concat_bytes(&ns, t)
        }
    }

    /// Fully qualifies `t` as a local tracking-ref name.
    pub fn full_tracking_ref(&self, t: &Vec<u8>) -> (r: Vec<u8>)
        ensures
            r@ == spec_full_tracking_ref(self@, t@),
    {
        if starts_with(t, &self.tracking_prefix) {
            let ns = remotes_ns_bytes();
            concat_bytes(&ns, t)
        } else if self.tag_like(t) {
            let ns = tags_ns_bytes();
            concat_bytes(&ns, t)
        } else {
            copy_bytes(t)
        }
    }
}

} // verus!
