//! The properties the matching core guarantees, stated and proved over the
//! specification model that [`crate::group::MatchGroup::match_items`] is
//! pinned to. Each holds for every input its `requires` admits.

use vstd::prelude::*;
use crate::group::{
    SpecGroup, dedup_upto, follow_maps_upto, group_wf, is_name_spec, is_oid_spec, local_taken,
    maps_for_spec_upto, name_maps_upto, oid_maps_upto, spec_candidates, spec_follow,
    spec_follow_mapping, spec_item_match, spec_match, spec_oid_mapping, spec_selected_name,
};
use crate::matching::spec_pat_matches;
use crate::types::{SpecItem, SpecMapping, SpecRemote};

verus! {

/// Matching is deterministic: the result is a pure function of the group
/// and the advertised items, so two runs over the same inputs agree
/// exactly, element for element.
pub proof fn lemma_match_deterministic(
    g: SpecGroup,
    items: Seq<SpecItem>,
    a: Seq<SpecMapping>,
    b: Seq<SpecMapping>,
)
    requires
        a == spec_match(g, items),
        b == spec_match(g, items),
    ensures
        a == b,
{
}

/// Wildcard round trip: a name built by putting a non-empty segment in a
/// pattern's wildcard position matches that pattern, and matching captures
/// exactly that segment again — so expanding the segment into the
/// destination pattern is faithful.
pub proof fn lemma_wildcard_round_trip(pat: Seq<u8>, m: Seq<u8>)
    requires
        crate::matching::has_star(pat),
        m.len() > 0,
    ensures
        crate::matching::wild_matches(pat, crate::matching::wild_prefix(pat) + m
            + crate::matching::wild_suffix(pat)),
        crate::matching::wild_middle(pat, crate::matching::wild_prefix(pat) + m
            + crate::matching::wild_suffix(pat)) == m,
{
    let pre = crate::matching::wild_prefix(pat);
    let suf = crate::matching::wild_suffix(pat);
    let name = pre + m + suf;
    crate::matching::lemma_star_found(pat);
    assert(pre.is_prefix_of(name)) by {
        assert(pre =~= name.subrange(0, pre.len() as int));
    }
    assert(suf.is_suffix_of(name)) by {
        assert(suf =~= name.subrange(name.len() - suf.len(), name.len() as int));
    }
    assert(crate::matching::wild_middle(pat, name) =~= m);
}

/// A name spec that matches no item derives no mapping.
proof fn lemma_maps_for_spec_empty(g: SpecGroup, sp: crate::types::SpecRefspec, items: Seq<SpecItem>, n: int)
    requires
        forall|j: int| 0 <= j < n ==> !spec_item_match(g, sp, #[trigger] items[j]),
    ensures
        maps_for_spec_upto(g, sp, items, n) =~= Seq::<SpecMapping>::empty(),
    decreases n,
{
    if n > 0 {
        lemma_maps_for_spec_empty(g, sp, items, n - 1);
    }
}

/// Without any autofollow trigger, no autofollow mapping arises.
proof fn lemma_follow_maps_none(g: SpecGroup, items: Seq<SpecItem>, n: int)
    requires
        forall|j: int| 0 <= j < n ==> !spec_follow(g, items, j),
    ensures
        follow_maps_upto(g, items, n) =~= Seq::<SpecMapping>::empty(),
    decreases n,
{
    if n > 0 {
        lemma_follow_maps_none(g, items, n - 1);
    }
}

/// An object-id source matches unconditionally: a group holding one spec
/// whose source is a literal object id yields exactly that spec's one
/// mapping, whatever the advertised items hold — even when there are none.
pub proof fn lemma_object_id_source(g: SpecGroup, items: Seq<SpecItem>)
    requires
        g.specs.len() == 1,
        is_oid_spec(g.specs[0]),
    ensures
        spec_match(g, items) =~= seq![spec_oid_mapping(g, g.specs[0])],
{
    let m = spec_oid_mapping(g, g.specs[0]);
    assert(!is_name_spec(g.specs[0]));
    assert(name_maps_upto(g, items, 0) == Seq::<SpecMapping>::empty());
    assert(oid_maps_upto(g, 0) == Seq::<SpecMapping>::empty());
    assert(name_maps_upto(g, items, 1) =~= Seq::<SpecMapping>::empty());
    assert(oid_maps_upto(g, 1) =~= seq![m]);
    assert forall|j: int| 0 <= j < items.len() implies !spec_follow(g, items, j) by {
        if spec_follow(g, items, j) {
            let k = choose|k: int|
                0 <= k < items.len() && spec_selected_name(g, (#[trigger] items[k]).full_ref_name)
                    && items[k].target == items[j].tag->0;
            let i = choose|i: int|
                0 <= i < g.specs.len() && is_name_spec(#[trigger] g.specs[i]) && spec_pat_matches(
                    g.namer,
                    g.specs[i].source->0,
                    items[k].full_ref_name,
                );
            assert(i == 0);
        }
    }
    lemma_follow_maps_none(g, items, items.len() as int);
    let c = spec_candidates(g, items);
    assert(c =~= seq![m]);
    assert(dedup_upto(c, 1) =~= dedup_upto(c, 0).push(c[0]));
    assert(spec_match(g, items) =~= seq![m]);
}

/// What deduplication guarantees: the result keeps only candidates; a kept
/// mapping that writes a local ref is the earliest candidate writing that
/// ref; every written local ref stays written; and no two kept mappings
/// write the same local ref.
pub proof fn lemma_dedup_props(s: Seq<SpecMapping>, n: int)
    requires
        0 <= n <= s.len(),
    ensures
        forall|x: int, y: int|
            0 <= x < y < dedup_upto(s, n).len() && (#[trigger] dedup_upto(s, n)[y]).local is Some
                ==> (#[trigger] dedup_upto(s, n)[x]).local != dedup_upto(s, n)[y].local,
        forall|k: int|
            0 <= k < n && (#[trigger] s[k]).local is Some ==> local_taken(
                dedup_upto(s, n),
                s[k].local,
            ),
        forall|x: int|
            0 <= x < dedup_upto(s, n).len() ==> exists|k: int|
                0 <= k < n && #[trigger] dedup_upto(s, n)[x] == s[k] && (s[k].local is Some
                    ==> forall|k2: int| 0 <= k2 < k ==> (#[trigger] s[k2]).local != s[k].local),
    decreases n,
{
    if n > 0 {
        lemma_dedup_props(s, n - 1);
        let prev = dedup_upto(s, n - 1);
        let d = dedup_upto(s, n);
        if local_taken(prev, s[n - 1].local) {
            assert(d == prev);
            assert forall|k: int|
                0 <= k < n && (#[trigger] s[k]).local is Some implies local_taken(d, s[k].local) by {
                if k < n - 1 {
                    assert(local_taken(prev, s[k].local));
                }
            }
            assert forall|x: int| 0 <= x < d.len() implies exists|k: int|
                0 <= k < n && #[trigger] d[x] == s[k] && (s[k].local is Some ==> forall|k2: int|
                    0 <= k2 < k ==> (#[trigger] s[k2]).local != s[k].local) by {
                let k = choose|k: int|
                    0 <= k < n - 1 && #[trigger] prev[x] == s[k] && (s[k].local is Some
                        ==> forall|k2: int| 0 <= k2 < k ==> (#[trigger] s[k2]).local != s[k].local);
                assert(0 <= k < n && d[x] == s[k]);
            }
        } else {
            assert(d == prev.push(s[n - 1]));
            // uniqueness: the new last element's local is not yet taken
            assert forall|x: int, y: int|
                0 <= x < y < d.len() && (#[trigger] d[y]).local is Some implies (#[trigger] d[x]).local
                    != d[y].local by {
                if y == d.len() - 1 {
                    assert(d[y] == s[n - 1]);
                    if d[x].local == d[y].local {
                        assert(local_taken(prev, s[n - 1].local));
                    }
                } else {
                    assert(d[x] == prev[x] && d[y] == prev[y]);
                }
            }
            // coverage
            assert forall|k: int|
                0 <= k < n && (#[trigger] s[k]).local is Some implies local_taken(d, s[k].local) by {
                if k < n - 1 {
                    assert(local_taken(prev, s[k].local));
                    let x = choose|x: int| 0 <= x < prev.len() && (#[trigger] prev[x]).local == s[k].local;
                    assert(d[x].local == s[k].local);
                } else {
                    assert(d[d.len() - 1].local == s[n - 1].local);
                }
            }
            // provenance and first-occurrence
            assert forall|x: int| 0 <= x < d.len() implies exists|k: int|
                0 <= k < n && #[trigger] d[x] == s[k] && (s[k].local is Some ==> forall|k2: int|
                    0 <= k2 < k ==> (#[trigger] s[k2]).local != s[k].local) by {
                if x < d.len() - 1 {
                    let k = choose|k: int|
                        0 <= k < n - 1 && #[trigger] prev[x] == s[k] && (s[k].local is Some
                            ==> forall|k2: int|
                                0 <= k2 < k ==> (#[trigger] s[k2]).local != s[k].local);
                    assert(0 <= k < n && d[x] == s[k]);
                } else {
                    assert(d[x] == s[n - 1]);
                    if s[n - 1].local is Some {
                        assert forall|k2: int| 0 <= k2 < n - 1 implies (#[trigger] s[k2]).local
                            != s[n - 1].local by {
                            if s[k2].local == s[n - 1].local {
                                assert(local_taken(prev, s[k2].local));
                            }
                        }
                    }
                    assert(0 <= n - 1 < n && d[x] == s[n - 1] && (s[n - 1].local is Some
                        ==> forall|k2: int|
                            0 <= k2 < n - 1 ==> (#[trigger] s[k2]).local != s[n - 1].local));
                }
            }
        }
    }
}

/// Duplicate destinations resolve in favour of the earliest spec: the
/// result never writes one local ref twice, and each result mapping is the
/// earliest candidate writing its local ref. Candidate order is spec order
/// first, so of two specs resolving to the same destination the earlier
/// one wins.
pub proof fn lemma_duplicate_destination(g: SpecGroup, items: Seq<SpecItem>)
    ensures
        forall|x: int, y: int|
            0 <= x < y < spec_match(g, items).len() && (#[trigger] spec_match(g, items)[y]).local
                is Some ==> (#[trigger] spec_match(g, items)[x]).local != spec_match(
                g,
                items,
            )[y].local,
        forall|x: int|
            0 <= x < spec_match(g, items).len() ==> exists|k: int|
                0 <= k < spec_candidates(g, items).len() && #[trigger] spec_match(g, items)[x]
                    == spec_candidates(g, items)[k] && (spec_candidates(g, items)[k].local is Some
                    ==> forall|k2: int|
                        0 <= k2 < k ==> (#[trigger] spec_candidates(g, items)[k2]).local
                            != spec_candidates(g, items)[k].local),
{
    lemma_dedup_props(spec_candidates(g, items), spec_candidates(g, items).len() as int);
}

/// A mapping whose remote side is a name an exclusion spec removes.
pub open spec fn remote_not_excluded(g: SpecGroup, m: SpecMapping) -> bool {
    m.remote matches SpecRemote::Name(nm) ==> !crate::group::spec_excluded(g, nm)
}

/// Name-derived mappings of one spec never name an excluded ref.
proof fn lemma_maps_for_spec_not_excluded(
    g: SpecGroup,
    sp: crate::types::SpecRefspec,
    items: Seq<SpecItem>,
    n: int,
)
    ensures
        forall|x: int|
            0 <= x < maps_for_spec_upto(g, sp, items, n).len() ==> remote_not_excluded(
                g,
                #[trigger] maps_for_spec_upto(g, sp, items, n)[x],
            ),
    decreases n,
{
    if n > 0 {
        lemma_maps_for_spec_not_excluded(g, sp, items, n - 1);
        let prev = maps_for_spec_upto(g, sp, items, n - 1);
        let f = maps_for_spec_upto(g, sp, items, n);
        assert forall|x: int| 0 <= x < f.len() implies remote_not_excluded(g, #[trigger] f[x]) by {
            if x < prev.len() {
                assert(f[x] == prev[x]);
            }
        }
    }
}

/// Name-derived mappings of the whole group never name an excluded ref.
proof fn lemma_name_maps_not_excluded(g: SpecGroup, items: Seq<SpecItem>, n: int)
    ensures
        forall|x: int|
            0 <= x < name_maps_upto(g, items, n).len() ==> remote_not_excluded(
                g,
                #[trigger] name_maps_upto(g, items, n)[x],
            ),
    decreases n,
{
    if n > 0 {
        lemma_name_maps_not_excluded(g, items, n - 1);
        lemma_maps_for_spec_not_excluded(g, g.specs[n - 1], items, items.len() as int);
        let prev = name_maps_upto(g, items, n - 1);
        let f = name_maps_upto(g, items, n);
        assert forall|x: int| 0 <= x < f.len() implies remote_not_excluded(g, #[trigger] f[x]) by {
            if x < prev.len() {
                assert(f[x] == prev[x]);
            } else {
                assert(f[x] == maps_for_spec_upto(g, g.specs[n - 1], items, items.len() as int)[
                    x - prev.len()]);
            }
        }
    }
}

/// Object-id mappings have no remote name at all.
proof fn lemma_oid_maps_not_excluded(g: SpecGroup, n: int)
    ensures
        forall|x: int|
            0 <= x < oid_maps_upto(g, n).len() ==> remote_not_excluded(
                g,
                #[trigger] oid_maps_upto(g, n)[x],
            ),
    decreases n,
{
    if n > 0 {
        lemma_oid_maps_not_excluded(g, n - 1);
        let prev = oid_maps_upto(g, n - 1);
        let f = oid_maps_upto(g, n);
        assert forall|x: int| 0 <= x < f.len() implies remote_not_excluded(g, #[trigger] f[x]) by {
            if x < prev.len() {
                assert(f[x] == prev[x]);
            }
        }
    }
}

/// Exclusion precedence on push: whatever the positive specs matched, no
/// mapping of the result names a remote ref that an exclusion spec of the
/// group removes — exclusions are applied after all positive specs,
/// regardless of their relative order in the group.
pub proof fn lemma_exclusion_precedence(g: SpecGroup, items: Seq<SpecItem>)
    requires
        g.operation is Push,
    ensures
        forall|x: int|
            0 <= x < spec_match(g, items).len() ==> remote_not_excluded(
                g,
                #[trigger] spec_match(g, items)[x],
            ),
{
    let a = name_maps_upto(g, items, g.specs.len() as int);
    let b = oid_maps_upto(g, g.specs.len() as int);
    let f = follow_maps_upto(g, items, items.len() as int);
    let c = spec_candidates(g, items);
    lemma_name_maps_not_excluded(g, items, g.specs.len() as int);
    lemma_oid_maps_not_excluded(g, g.specs.len() as int);
    crate::group::lemma_follow_maps_empty(g, items, items.len() as int);
    assert forall|k: int| 0 <= k < c.len() implies remote_not_excluded(g, #[trigger] c[k]) by {
        if k < a.len() {
            assert(c[k] == a[k]);
        } else if k < a.len() + b.len() {
            assert(c[k] == b[k - a.len()]);
        } else {
            assert(c[k] == f[k - a.len() - b.len()]);
        }
    }
    lemma_dedup_props(c, c.len() as int);
    assert forall|x: int| 0 <= x < spec_match(g, items).len() implies remote_not_excluded(
        g,
        #[trigger] spec_match(g, items)[x],
    ) by {
        let k = choose|k: int|
            0 <= k < c.len() && #[trigger] spec_match(g, items)[x] == c[k] && (c[k].local is Some
                ==> forall|k2: int| 0 <= k2 < k ==> (#[trigger] c[k2]).local != c[k].local);
        assert(remote_not_excluded(g, c[k]));
    }
}

/// An autofollow trigger puts its mapping among the candidates.
proof fn lemma_follow_in_follow_maps(g: SpecGroup, items: Seq<SpecItem>, n: int, j: int)
    requires
        0 <= j < n <= items.len(),
        spec_follow(g, items, j),
    ensures
        exists|x: int|
            0 <= x < follow_maps_upto(g, items, n).len() && #[trigger] follow_maps_upto(
                g,
                items,
                n,
            )[x] == spec_follow_mapping(items[j]),
    decreases n,
{
    if j == n - 1 {
        let f = follow_maps_upto(g, items, n);
        assert(f[follow_maps_upto(g, items, n - 1).len() as int] == spec_follow_mapping(
            items[j],
        ));
    } else {
        lemma_follow_in_follow_maps(g, items, n - 1, j);
        let x = choose|x: int|
            0 <= x < follow_maps_upto(g, items, n - 1).len() && #[trigger] follow_maps_upto(
                g,
                items,
                n - 1,
            )[x] == spec_follow_mapping(items[j]);
        assert(follow_maps_upto(g, items, n)[x] == spec_follow_mapping(items[j]));
    }
}

/// Tag autofollow: when fetching, a tag item no spec selected, whose
/// peeled target is an object some selected item points to, appears in the
/// result as an additional mapping naming the tag — provided no candidate
/// of another name already writes the tag's own name as its local ref (a
/// collision on the destination would fall to duplicate resolution).
pub proof fn lemma_tag_autofollow(g: SpecGroup, items: Seq<SpecItem>, j: int)
    requires
        0 <= j < items.len(),
        spec_follow(g, items, j),
        forall|x: int|
            0 <= x < spec_candidates(g, items).len() && (#[trigger] spec_candidates(
                g,
                items,
            )[x]).local == Some(items[j].full_ref_name) ==> spec_candidates(g, items)[x].remote
                == SpecRemote::Name(items[j].full_ref_name),
    ensures
        exists|x: int|
            0 <= x < spec_match(g, items).len() && (#[trigger] spec_match(g, items)[x]).remote
                == SpecRemote::Name(items[j].full_ref_name),
{
    let c = spec_candidates(g, items);
    let m = spec_follow_mapping(items[j]);
    lemma_follow_in_follow_maps(g, items, items.len() as int, j);
    let x0 = choose|x: int|
        0 <= x < follow_maps_upto(g, items, items.len() as int).len() && #[trigger] follow_maps_upto(
            g,
            items,
            items.len() as int,
        )[x] == m;
    let base = name_maps_upto(g, items, g.specs.len() as int) + oid_maps_upto(
        g,
        g.specs.len() as int,
    );
    assert(c[base.len() + x0] == m);
    lemma_dedup_props(c, c.len() as int);
    assert(local_taken(spec_match(g, items), m.local));
    let y = choose|y: int|
        0 <= y < spec_match(g, items).len() && (#[trigger] spec_match(g, items)[y]).local
            == m.local;
    let k = choose|k: int|
        0 <= k < c.len() && #[trigger] spec_match(g, items)[y] == c[k] && (c[k].local is Some
            ==> forall|k2: int| 0 <= k2 < k ==> (#[trigger] c[k2]).local != c[k].local);
    assert(c[k].local == Some(items[j].full_ref_name));
    assert(spec_match(g, items)[y].remote == SpecRemote::Name(items[j].full_ref_name));
}

/// Absence of matches is not an error: a group holding one name spec whose
/// pattern selects no advertised item yields the empty result. Matching
/// itself is total — given well-formed specs it always terminates with a
/// (possibly empty) sequence, never a failure.
pub proof fn lemma_no_match_is_empty(g: SpecGroup, items: Seq<SpecItem>)
    requires
        g.specs.len() == 1,
        is_name_spec(g.specs[0]),
        forall|j: int|
            0 <= j < items.len() ==> !spec_pat_matches(
                g.namer,
                g.specs[0].source->0,
                (#[trigger] items[j]).full_ref_name,
            ),
    ensures
        spec_match(g, items) =~= Seq::<SpecMapping>::empty(),
{
    assert forall|j: int| 0 <= j < items.len() implies !spec_item_match(
        g,
        g.specs[0],
        #[trigger] items[j],
    ) by {}
    lemma_maps_for_spec_empty(g, g.specs[0], items, items.len() as int);
    assert(name_maps_upto(g, items, 0) == Seq::<SpecMapping>::empty());
    assert(oid_maps_upto(g, 0) == Seq::<SpecMapping>::empty());
    assert(name_maps_upto(g, items, 1) =~= Seq::<SpecMapping>::empty());
    assert(!is_oid_spec(g.specs[0]));
    assert(oid_maps_upto(g, 1) =~= Seq::<SpecMapping>::empty());
    assert forall|j: int| 0 <= j < items.len() implies !spec_follow(g, items, j) by {
        if spec_follow(g, items, j) {
            let k = choose|k: int|
                0 <= k < items.len() && spec_selected_name(g, (#[trigger] items[k]).full_ref_name)
                    && items[k].target == items[j].tag->0;
            let i = choose|i: int|
                0 <= i < g.specs.len() && is_name_spec(#[trigger] g.specs[i]) && spec_pat_matches(
                    g.namer,
                    g.specs[i].source->0,
                    items[k].full_ref_name,
                );
            assert(i == 0);
        }
    }
    lemma_follow_maps_none(g, items, items.len() as int);
    let c = spec_candidates(g, items);
    assert(c =~= Seq::<SpecMapping>::empty());
    assert(spec_match(g, items) =~= Seq::<SpecMapping>::empty());
}

} // verus!
