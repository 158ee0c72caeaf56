//! Aggregate matching: a [`MatchGroup`] owns the parsed refspecs of one
//! operation, in insertion order, and matches a whole collection of
//! advertised references against all of them at once.
//!
//! The order of the result is fixed: name-derived mappings come first,
//! keyed by spec index and then by item order; mappings from object-id
//! sources follow in spec order; tag-autofollow mappings come last in item
//! order. Push exclusions remove name matches before autofollow is
//! computed, and duplicate local destinations are resolved in favour of the
//! earliest mapping.

use vstd::prelude::*;
use crate::bytes::{bytes_eq, copy_bytes};
use crate::matching::{
    has_star, has_star_bytes, spec_pat_matches, pattern_matches, wild_matches, wild_middle,
    wild_subst, wildcard_dest,
};
use crate::namer::{
    NamerConfig, SpecNamer, fetch_head, fetch_head_bytes, spec_full_tracking_ref, tags_ns,
    tags_ns_bytes,
};
use crate::oid::{Oid, check_oid_hex, is_oid_hex};
use crate::parse::refspec_wf;
use crate::types::{
    Mapping, Operation, RemoteItem, RemoteRef, Refspec, SpecItem, SpecMapping, SpecRefspec,
    SpecRemote, items_view, mappings_view,
};

verus! {

/// A set of refspecs for one operation, with the naming conventions the
/// matching run uses. Matching is stateless: nothing here changes across
/// calls.
#[derive(Debug, Clone)]
pub struct MatchGroup {
    /// The operation all held specs belong to.
    pub operation: Operation,
    /// The parsed specs, in insertion order; the order decides precedence.
    pub specs: Vec<Refspec>,
    /// The naming conventions used to qualify unqualified tokens.
    pub config: NamerConfig,
}

/// The mathematical content of a [`MatchGroup`].
#[verifier::ext_equal]
pub ghost struct SpecGroup {
    pub operation: Operation,
    pub specs: Seq<SpecRefspec>,
    pub namer: SpecNamer,
}

impl View for MatchGroup {
    type V = SpecGroup;

    open spec fn view(&self) -> SpecGroup {
        SpecGroup {
            operation: self.operation,
            specs: self.specs@.map_values(|r: Refspec| r@),
            namer: self.config@,
        }
    }
}

/// Every held spec is well-formed and belongs to the group's operation.
pub open spec fn group_wf(g: SpecGroup) -> bool {
    forall|i: int|
        0 <= i < g.specs.len() ==> refspec_wf(#[trigger] g.specs[i]) && g.specs[i].operation
            == g.operation
}

/// A positive spec whose source is a literal object id: it bypasses name
/// matching and always yields exactly one mapping.
pub open spec fn is_oid_spec(sp: SpecRefspec) -> bool {
    &&& !sp.exclude
    &&& sp.source matches Some(s) && is_oid_hex(s)
}

/// A positive spec whose source is a name pattern.
pub open spec fn is_name_spec(sp: SpecRefspec) -> bool {
    &&& !sp.exclude
    &&& sp.source matches Some(s) && !is_oid_hex(s)
}

/// Whether some exclusion spec of the group removes `name` (push only).
pub open spec fn spec_excluded(g: SpecGroup, name: Seq<u8>) -> bool {
    g.operation is Push && exists|i: int|
        0 <= i < g.specs.len() && (#[trigger] g.specs[i]).exclude && spec_pat_matches(
            g.namer,
            g.specs[i].source->0,
            name,
        )
}

/// The destination token for a match of `sp` on `name`: the destination
/// pattern, with the captured middle segment substituted when both sides
/// carry a wildcard.
pub open spec fn spec_dest_token(sp: SpecRefspec, name: Seq<u8>) -> Seq<u8>
    recommends
        sp.destination is Some,
{
    let d = sp.destination->0;
    match sp.source {
        Some(s) => if has_star(s) && has_star(d) {
            wild_subst(d, wild_middle(s, name))
        } else {
            d
        },
        None => d,
    }
}

/// The local side a match of `sp` on `name` maps to: nothing without a
/// destination pattern and nothing for the reserved `FETCH_HEAD` token;
/// otherwise the destination token, qualified as a tracking ref.
pub open spec fn spec_local_of(g: SpecGroup, sp: SpecRefspec, name: Seq<u8>) -> Option<Seq<u8>> {
    match sp.destination {
        None => None,
        Some(d) => {
            let t = spec_dest_token(sp, name);
            if t == fetch_head() {
                None
            } else {
                Some(spec_full_tracking_ref(g.namer, t))
            }
        },
    }
}

/// The mapping a match of `sp` on item `it` produces.
pub open spec fn spec_name_mapping(g: SpecGroup, sp: SpecRefspec, it: SpecItem) -> SpecMapping {
    SpecMapping {
        remote: SpecRemote::Name(it.full_ref_name),
        local: spec_local_of(g, sp, it.full_ref_name),
    }
}

/// The one mapping an object-id source produces, independent of the items.
pub open spec fn spec_oid_mapping(g: SpecGroup, sp: SpecRefspec) -> SpecMapping
    recommends
        is_oid_spec(sp),
{
    SpecMapping {
        remote: SpecRemote::ObjectId(sp.source->0),
        local: spec_local_of(g, sp, sp.source->0),
    }
}

/// Whether the name spec `sp` matches item `it` and survives exclusion.
pub open spec fn spec_item_match(g: SpecGroup, sp: SpecRefspec, it: SpecItem) -> bool
    recommends
        is_name_spec(sp),
{
    spec_pat_matches(g.namer, sp.source->0, it.full_ref_name) && !spec_excluded(
        g,
        it.full_ref_name,
    )
}

/// The mappings the name spec `sp` derives from the first `n` items.
pub open spec fn maps_for_spec_upto(
    g: SpecGroup,
    sp: SpecRefspec,
    items: Seq<SpecItem>,
    n: int,
) -> Seq<SpecMapping>
    decreases n,
{
    if n <= 0 {
        Seq::empty()
    } else {
        maps_for_spec_upto(g, sp, items, n - 1) + if spec_item_match(g, sp, items[n - 1]) {
            seq![spec_name_mapping(g, sp, items[n - 1])]
        } else {
            Seq::empty()
        }
    }
}

/// The name-derived mappings of the first `n` specs, spec order first,
/// item order second.
pub open spec fn name_maps_upto(g: SpecGroup, items: Seq<SpecItem>, n: int) -> Seq<SpecMapping>
    decreases n,
{
    if n <= 0 {
        Seq::empty()
    } else {
        name_maps_upto(g, items, n - 1) + if is_name_spec(g.specs[n - 1]) {
            maps_for_spec_upto(g, g.specs[n - 1], items, items.len() as int)
        } else {
            Seq::empty()
        }
    }
}

/// The object-id mappings of the first `n` specs, in spec order.
pub open spec fn oid_maps_upto(g: SpecGroup, n: int) -> Seq<SpecMapping>
    decreases n,
{
    if n <= 0 {
        Seq::empty()
    } else {
        oid_maps_upto(g, n - 1) + if is_oid_spec(g.specs[n - 1]) {
            seq![spec_oid_mapping(g, g.specs[n - 1])]
        } else {
            Seq::empty()
        }
    }
}

/// Whether some positive name spec of the group selects `name`, exclusion
/// applied.
pub open spec fn spec_selected_name(g: SpecGroup, name: Seq<u8>) -> bool {
    (exists|i: int|
        0 <= i < g.specs.len() && is_name_spec(#[trigger] g.specs[i]) && spec_pat_matches(
            g.namer,
            g.specs[i].source->0,
            name,
        )) && !spec_excluded(g, name)
}

/// Tag autofollow: when fetching, a tag item that no spec selected is
/// added anyway if its peeled target is an object some selected item
/// already points to.
pub open spec fn spec_follow(g: SpecGroup, items: Seq<SpecItem>, j: int) -> bool
    recommends
        0 <= j < items.len(),
{
    &&& g.operation is Fetch
    &&& tags_ns().is_prefix_of(items[j].full_ref_name)
    &&& items[j].tag is Some
    &&& !spec_selected_name(g, items[j].full_ref_name)
    &&& exists|k: int|
        0 <= k < items.len() && spec_selected_name(g, (#[trigger] items[k]).full_ref_name)
            && items[k].target == items[j].tag->0
}

/// The mapping an autofollowed tag produces: its own name on both sides.
pub open spec fn spec_follow_mapping(it: SpecItem) -> SpecMapping {
    SpecMapping { remote: SpecRemote::Name(it.full_ref_name), local: Some(it.full_ref_name) }
}

/// The autofollow mappings of the first `n` items, in item order.
pub open spec fn follow_maps_upto(g: SpecGroup, items: Seq<SpecItem>, n: int) -> Seq<SpecMapping>
    decreases n,
{
    if n <= 0 {
        Seq::empty()
    } else {
        follow_maps_upto(g, items, n - 1) + if spec_follow(g, items, n - 1) {
            seq![spec_follow_mapping(items[n - 1])]
        } else {
            Seq::empty()
        }
    }
}

/// Whether `l` is a local destination already present in `acc`.
pub open spec fn local_taken(acc: Seq<SpecMapping>, l: Option<Seq<u8>>) -> bool {
    l is Some && exists|k: int| 0 <= k < acc.len() && (#[trigger] acc[k]).local == l
}

/// The first `n` candidates with duplicate local destinations dropped:
/// a candidate is kept unless an earlier kept mapping already writes the
/// same local ref. Mappings that write no local ref are always kept.
pub open spec fn dedup_upto(s: Seq<SpecMapping>, n: int) -> Seq<SpecMapping>
    decreases n,
{
    if n <= 0 {
        Seq::empty()
    } else {
        let acc = dedup_upto(s, n - 1);
        if local_taken(acc, s[n - 1].local) {
            acc
        } else {
            acc.push(s[n - 1])
        }
    }
}

/// All candidate mappings, in output order: name-derived, then object-id,
/// then autofollow.
pub open spec fn spec_candidates(g: SpecGroup, items: Seq<SpecItem>) -> Seq<SpecMapping> {
    name_maps_upto(g, items, g.specs.len() as int) + oid_maps_upto(g, g.specs.len() as int)
        + follow_maps_upto(g, items, items.len() as int)
}

/// What matching the group against `items` yields.
pub open spec fn spec_match(g: SpecGroup, items: Seq<SpecItem>) -> Seq<SpecMapping> {
    dedup_upto(spec_candidates(g, items), spec_candidates(g, items).len() as int)
}

/// Appending a mapping appends its view.
proof fn lemma_view_push(s: Seq<Mapping>, m: Mapping)
    ensures
        mappings_view(s.push(m)) =~= mappings_view(s).push(m@),
{
}

/// Without fetching, no tag is autofollowed.
pub proof fn lemma_follow_maps_empty(g: SpecGroup, items: Seq<SpecItem>, n: int)
    requires
        !(g.operation is Fetch),
    ensures
        follow_maps_upto(g, items, n) =~= Seq::<SpecMapping>::empty(),
    decreases n,
{
    if n > 0 {
        lemma_follow_maps_empty(g, items, n - 1);
    }
}

impl MatchGroup {
    /// An empty group for `operation` under the given conventions.
    pub fn new(operation: Operation, config: NamerConfig) -> (g: MatchGroup)
        ensures
            g@.operation == operation,
            g@.specs =~= Seq::<SpecRefspec>::empty(),
            g@.namer == config@,
            group_wf(g@),
    {
        let g = MatchGroup { operation, specs: Vec::new(), config };
        proof {
            assert(g@.specs =~= Seq::<SpecRefspec>::empty());
        }
        g
    }

    /// Appends one parsed spec; insertion order decides precedence.
    pub fn add(&mut self, r: Refspec)
        requires
            refspec_wf(r@),
            r@.operation == old(self)@.operation,
        ensures
            final(self)@.operation == old(self)@.operation,
            final(self)@.namer == old(self)@.namer,
            final(self)@.specs == old(self)@.specs.push(r@),
            group_wf(old(self)@) ==> group_wf(final(self)@),
    {
        let ghost before = self@;
        self.specs.push(r);
        proof {
            assert(self@.specs =~= before.specs.push(r@));
            if group_wf(before) {
                assert forall|i: int| 0 <= i < self@.specs.len() implies refspec_wf(
                    #[trigger] self@.specs[i],
                ) && self@.specs[i].operation == self@.operation by {
                    if i < before.specs.len() {
                        assert(refspec_wf(before.specs[i]));
                    }
                }
            }
        }
    }

    /// Whether some exclusion spec of this (push) group removes `name`.
    fn excluded_name(&self, name: &Vec<u8>) -> (r: bool)
        requires
            group_wf(self@),
        ensures
            r == spec_excluded(self@, name@),
    {
        if !matches!(self.operation, Operation::Push) {
            return false;
        }
        let mut i: usize = 0;
        while i < self.specs.len()
            invariant
                group_wf(self@),
                i <= self@.specs.len(),
                self@.specs.len() == self.specs@.len(),
                forall|j: int|
                    0 <= j < i ==> !((#[trigger] self@.specs[j]).exclude && spec_pat_matches(
                        self@.namer,
                        self@.specs[j].source->0,
                        name@,
                    )),
            decreases self.specs@.len() - i,
        {
            let sp = &self.specs[i];
            if sp.exclude {
                match &sp.source {
                    Some(s) => {
                        if pattern_matches(&self.config, s, name) {
                            proof {
                                assert(self@.specs[i as int].exclude && spec_pat_matches(
                                    self@.namer,
                                    self@.specs[i as int].source->0,
                                    name@,
                                ));
                            }
                            return true;
                        }
                    },
                    None => {
                        proof {
                            assert(refspec_wf(self@.specs[i as int]));
                        }
                    },
                }
            }
            i += 1;
        }
        false
    }

    /// Whether some positive name spec selects `name`, exclusion applied.
    fn name_selected(&self, name: &Vec<u8>) -> (r: bool)
        requires
            group_wf(self@),
        ensures
            r == spec_selected_name(self@, name@),
    {
        let mut i: usize = 0;
        while i < self.specs.len()
            invariant
                group_wf(self@),
                i <= self@.specs.len(),
                self@.specs.len() == self.specs@.len(),
                forall|j: int|
                    0 <= j < i ==> !(is_name_spec(#[trigger] self@.specs[j]) && spec_pat_matches(
                        self@.namer,
                        self@.specs[j].source->0,
                        name@,
                    )),
            decreases self.specs@.len() - i,
        {
            let sp = &self.specs[i];
            if !sp.exclude {
                match &sp.source {
                    Some(s) => {
                        if !check_oid_hex(s) && pattern_matches(&self.config, s, name) {
                            proof {
                                assert(is_name_spec(self@.specs[i as int]) && spec_pat_matches(
                                    self@.namer,
                                    self@.specs[i as int].source->0,
                                    name@,
                                ));
                            }
                            return !self.excluded_name(name);
                        }
                    },
                    None => {},
                }
            }
            i += 1;
        }
        false
    }

    /// Whether some selected item points at target `t`.
    fn any_selected_target(&self, items: &Vec<RemoteItem>, t: &Oid) -> (r: bool)
        requires
            group_wf(self@),
        ensures
            r == (exists|k: int|
                0 <= k < items_view(items@).len() && spec_selected_name(
                    self@,
                    (#[trigger] items_view(items@)[k]).full_ref_name,
                ) && items_view(items@)[k].target == t@),
    {
        let ghost iv = items_view(items@);
        let mut k: usize = 0;
        while k < items.len()
            invariant
                group_wf(self@),
                iv == items_view(items@),
                k <= iv.len(),
                iv.len() == items@.len(),
                forall|j: int|
                    0 <= j < k ==> !(spec_selected_name(self@, (#[trigger] iv[j]).full_ref_name)
                        && iv[j].target == t@),
            decreases items@.len() - k,
        {
            let it = &items[k];
            if bytes_eq(&it.target.hex, &t.hex) {
                if self.name_selected(&it.full_ref_name) {
                    proof {
                        assert(spec_selected_name(self@, iv[k as int].full_ref_name)
                            && iv[k as int].target == t@);
                    }
                    return true;
                }
            }
            k += 1;
        }
        false
    }

    /// The local side for a match of `sp` on `name`.
    fn local_of(&self, sp: &Refspec, name: &Vec<u8>) -> (r: Option<Vec<u8>>)
        requires
            (sp@.source is Some && has_star(sp@.source->0) && sp@.destination is Some && has_star(
                sp@.destination->0,
            )) ==> wild_matches(sp@.source->0, name@),
        ensures
            match r {
                Some(l) => spec_local_of(self@, sp@, name@) == Some(l@),
                None => spec_local_of(self@, sp@, name@) is None,
            },
    {
        match &sp.destination {
            None => None,
            Some(d) => {
                let src_star = match &sp.source {
                    Some(s) => has_star_bytes(s),
                    None => false,
                };
                let t: Vec<u8> = if src_star && has_star_bytes(d) {
                    let s = match &sp.source {
                        Some(s) => s,
                        None => vstd::pervasive::unreached(),
                    };
                    wildcard_dest(d, s, name)
                } else {
                    copy_bytes(d)
                };
                proof {
                    assert(t@ == spec_dest_token(sp@, name@));
                }
                let fh = fetch_head_bytes();
                if bytes_eq(&t, &fh) {
                    None
                } else {
                    Some(self.config.full_tracking_ref(&t))
                }
            },
        }
    }

    /// Matches every advertised item against every spec of the group.
    ///
    /// The result is deterministic in the inputs: name-derived mappings in
    /// spec-then-item order with push exclusions applied, then one mapping
    /// per object-id source, then fetch tag-autofollow mappings, and at
    /// last duplicate local destinations dropped in favour of the earliest
    /// mapping. Absence of matches is not a failure: the result is then
    /// empty.
    pub fn match_items(&self, items: &Vec<RemoteItem>) -> (res: Vec<Mapping>)
        requires
            group_wf(self@),
        ensures
            mappings_view(res@) == spec_match(self@, items_view(items@)),
    {
        let ghost gv = self@;
        let ghost iv = items_view(items@);
        let mut cands: Vec<Mapping> = Vec::new();
        proof {
            assert(mappings_view(cands@) =~= name_maps_upto(gv, iv, 0));
        }
        // Name-derived mappings: spec order first, item order second.
        let mut i: usize = 0;
        while i < self.specs.len()
            invariant
                group_wf(gv),
                gv == self@,
                iv == items_view(items@),
                i <= self@.specs.len(),
                self@.specs.len() == self.specs@.len(),
                iv.len() == items@.len(),
                mappings_view(cands@) == name_maps_upto(gv, iv, i as int),
            decreases self.specs@.len() - i,
        {
            let sp = &self.specs[i];
            let mut is_name = false;
            if !sp.exclude {
                match &sp.source {
                    Some(s) => {
                        is_name = !check_oid_hex(s);
                    },
                    None => {},
                }
            }
            proof {
                assert(is_name == is_name_spec(gv.specs[i as int]));
            }
            if is_name {
                let src = match &sp.source {
                    Some(s) => s,
                    None => vstd::pervasive::unreached(),
                };
                let mut j: usize = 0;
                while j < items.len()
                    invariant
                        group_wf(gv),
                        gv == self@,
                        iv == items_view(items@),
                        i < self@.specs.len(),
                        self@.specs.len() == self.specs@.len(),
                        iv.len() == items@.len(),
                        j <= iv.len(),
                        sp == &self.specs[i as int],
                        is_name_spec(gv.specs[i as int]),
                        sp@ == gv.specs[i as int],
                        src@ == gv.specs[i as int].source->0,
                        mappings_view(cands@) == name_maps_upto(gv, iv, i as int)
                            + maps_for_spec_upto(gv, gv.specs[i as int], iv, j as int),
                    decreases items@.len() - j,
                {
                    let it = &items[j];
                    proof {
                        assert(iv[j as int] == items@[j as int]@);
                    }
                    if pattern_matches(&self.config, src, &it.full_ref_name) && !self.excluded_name(
                        &it.full_ref_name,
                    ) {
                        let local = self.local_of(sp, &it.full_ref_name);
                        let m = Mapping {
                            remote: RemoteRef::Name(copy_bytes(&it.full_ref_name)),
                            local,
                        };
                        proof {
                            assert(m@ =~~= spec_name_mapping(gv, gv.specs[i as int], iv[j as int]));
                        }
                        let ghost before = cands@;
                        cands.push(m);
                        proof {
                            lemma_view_push(before, m);
                            assert(spec_item_match(gv, gv.specs[i as int], iv[j as int]));
                            assert(maps_for_spec_upto(gv, gv.specs[i as int], iv, j + 1)
                                == maps_for_spec_upto(gv, gv.specs[i as int], iv, j as int)
                                + seq![spec_name_mapping(gv, gv.specs[i as int], iv[j as int])]);
                            assert(mappings_view(cands@) =~= name_maps_upto(gv, iv, i as int)
                                + maps_for_spec_upto(gv, gv.specs[i as int], iv, j + 1));
                        }
                    } else {
                        proof {
                            assert(maps_for_spec_upto(gv, gv.specs[i as int], iv, j + 1)
                                =~= maps_for_spec_upto(gv, gv.specs[i as int], iv, j as int));
                        }
                    }
                    j += 1;
                }
                proof {
                    assert(name_maps_upto(gv, iv, i + 1) =~= name_maps_upto(gv, iv, i as int)
                        + maps_for_spec_upto(gv, gv.specs[i as int], iv, iv.len() as int));
                }
            } else {
                proof {
                    assert(name_maps_upto(gv, iv, i + 1) =~= name_maps_upto(gv, iv, i as int));
                }
            }
            i += 1;
        }
        // Object-id sources: one mapping each, independent of the items.
        let ghost names_full = name_maps_upto(gv, iv, gv.specs.len() as int);
        let mut i2: usize = 0;
        proof {
            assert(mappings_view(cands@) =~= names_full + oid_maps_upto(gv, 0));
        }
        while i2 < self.specs.len()
            invariant
                group_wf(gv),
                gv == self@,
                iv == items_view(items@),
                i2 <= self@.specs.len(),
                self@.specs.len() == self.specs@.len(),
                names_full == name_maps_upto(gv, iv, gv.specs.len() as int),
                mappings_view(cands@) == names_full + oid_maps_upto(gv, i2 as int),
            decreases self.specs@.len() - i2,
        {
            let sp = &self.specs[i2];
            let mut is_oid = false;
            if !sp.exclude {
                match &sp.source {
                    Some(s) => {
                        is_oid = check_oid_hex(s);
                    },
                    None => {},
                }
            }
            proof {
                assert(is_oid == is_oid_spec(gv.specs[i2 as int]));
            }
            if is_oid {
                let src = match &sp.source {
                    Some(s) => s,
                    None => vstd::pervasive::unreached(),
                };
                proof {
                    assert(refspec_wf(gv.specs[i2 as int]));
                    assert(!has_star(src@)) by {
                        if has_star(src@) {
                            crate::matching::lemma_star_found(src@);
                            let p = crate::matching::star_pos(src@);
                            assert(crate::oid::is_hex_lower(src@[p]));
                        }
                    }
                }
                let local = self.local_of(sp, src);
                let m = Mapping {
                    remote: RemoteRef::ObjectId(Oid { hex: copy_bytes(src) }),
                    local,
                };
                proof {
                    assert(m@ =~~= spec_oid_mapping(gv, gv.specs[i2 as int]));
                }
                let ghost before = cands@;
                cands.push(m);
                proof {
                    lemma_view_push(before, m);
                    assert(oid_maps_upto(gv, i2 + 1) == oid_maps_upto(gv, i2 as int)
                        + seq![spec_oid_mapping(gv, gv.specs[i2 as int])]);
                    assert(mappings_view(cands@) =~= names_full + oid_maps_upto(gv, i2 + 1));
                }
            } else {
                proof {
                    assert(oid_maps_upto(gv, i2 + 1) =~= oid_maps_upto(gv, i2 as int));
                }
            }
            i2 += 1;
        }
        // Tag autofollow (fetch only), in item order.
        let ghost oids_full = oid_maps_upto(gv, gv.specs.len() as int);
        proof {
            assert(mappings_view(cands@) =~= names_full + oids_full + follow_maps_upto(gv, iv, 0));
        }
        if matches!(self.operation, Operation::Fetch) {
            let tags = tags_ns_bytes();
            let mut j2: usize = 0;
            while j2 < items.len()
                invariant
                    group_wf(gv),
                    gv == self@,
                    iv == items_view(items@),
                    j2 <= iv.len(),
                    iv.len() == items@.len(),
                    gv.operation is Fetch,
                    tags@ == tags_ns(),
                    names_full == name_maps_upto(gv, iv, gv.specs.len() as int),
                    oids_full == oid_maps_upto(gv, gv.specs.len() as int),
                    mappings_view(cands@) == names_full + oids_full + follow_maps_upto(
                        gv,
                        iv,
                        j2 as int,
                    ),
                decreases items@.len() - j2,
            {
                let it = &items[j2];
                let mut follow = false;
                if crate::bytes::starts_with(&it.full_ref_name, &tags) {
                    match &it.tag {
                        Some(peeled) => {
                            if !self.name_selected(&it.full_ref_name) {
                                follow = self.any_selected_target(items, peeled);
                            }
                        },
                        None => {},
                    }
                }
                proof {
                    assert(follow == spec_follow(gv, iv, j2 as int));
                }
                if follow {
                    let m = Mapping {
                        remote: RemoteRef::Name(copy_bytes(&it.full_ref_name)),
                        local: Some(copy_bytes(&it.full_ref_name)),
                    };
                    proof {
                        assert(m@ =~~= spec_follow_mapping(iv[j2 as int]));
                    }
                    let ghost before = cands@;
                    cands.push(m);
                    proof {
                        lemma_view_push(before, m);
                        assert(follow_maps_upto(gv, iv, j2 + 1) == follow_maps_upto(
                            gv,
                            iv,
                            j2 as int,
                        ) + seq![spec_follow_mapping(iv[j2 as int])]);
                        assert(mappings_view(cands@) =~= names_full + oids_full + follow_maps_upto(
                            gv,
                            iv,
                            j2 + 1,
                        ));
                    }
                } else {
                    proof {
                        assert(follow_maps_upto(gv, iv, j2 + 1) =~= follow_maps_upto(
                            gv,
                            iv,
                            j2 as int,
                        ));
                    }
                }
                j2 += 1;
            }
        } else {
            proof {
                lemma_follow_maps_empty(gv, iv, iv.len() as int);
                assert(mappings_view(cands@) =~= names_full + oids_full + follow_maps_upto(
                    gv,
                    iv,
                    iv.len() as int,
                ));
            }
        }
        proof {
            assert(mappings_view(cands@) == spec_candidates(gv, iv));
        }
        // Duplicate local destinations: the earliest mapping wins.
        let ghost cv = mappings_view(cands@);
        let mut res: Vec<Mapping> = Vec::new();
        proof {
            assert(mappings_view(res@) =~= dedup_upto(cv, 0));
        }
        let mut k: usize = 0;
        while k < cands.len()
            invariant
                cv == mappings_view(cands@),
                k <= cv.len(),
                cv.len() == cands@.len(),
                mappings_view(res@) == dedup_upto(cv, k as int),
            decreases cands@.len() - k,
        {
            let c = &cands[k];
            let taken = match &c.local {
                Some(l) => local_taken_bytes(&res, l),
                None => false,
            };
            proof {
                assert(taken == local_taken(dedup_upto(cv, k as int), cv[k as int].local));
            }
            if !taken {
                let m = c.duplicate();
                res.push(m);
                proof {
                    assert(mappings_view(res@) =~= dedup_upto(cv, k + 1));
                }
            } else {
                proof {
                    assert(dedup_upto(cv, k + 1) =~= dedup_upto(cv, k as int));
                }
            }
            k += 1;
        }
        proof {
            assert(mappings_view(res@) == spec_match(gv, iv));
        }
        res
    }
}

/// Whether some mapping of `res` already writes the local ref `l`.
fn local_taken_bytes(res: &Vec<Mapping>, l: &Vec<u8>) -> (r: bool)
    ensures
        r == local_taken(mappings_view(res@), Some(l@)),
{
    let mut i: usize = 0;
    while i < res.len()
        invariant
            i <= res@.len(),
            forall|j: int| 0 <= j < i ==> (#[trigger] mappings_view(res@)[j]).local != Some(l@),
        decreases res@.len() - i,
    {
        let taken = match &res[i].local {
            Some(x) => bytes_eq(x, l),
            None => false,
        };
        if taken {
            proof {
                assert(mappings_view(res@)[i as int].local == Some(l@));
            }
            return true;
        }
        i += 1;
    }
    false
}

} // verus!
