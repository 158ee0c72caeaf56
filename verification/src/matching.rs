//! Pattern matching: testing one refspec source pattern against one
//! advertised ref name, and expanding the captured wildcard segment into a
//! destination pattern.

use vstd::prelude::*;
use crate::bytes::{
    STAR, bytes_eq, contains_byte, ends_with, find_byte, find_first, lemma_find_first, starts_with,
    subvec, concat_bytes,
};
use crate::namer::{NamerConfig, SpecNamer, spec_full_remote_ref};

verus! {

/// Whether the pattern side holds a wildcard.
pub open spec fn has_star(s: Seq<u8>) -> bool {
    s.contains(STAR)
}

/// At most one wildcard: any two wildcard positions coincide.
pub open spec fn at_most_one_star(s: Seq<u8>) -> bool {
    forall|i: int, j: int|
        0 <= i < s.len() && 0 <= j < s.len() && s[i] == STAR && s[j] == STAR ==> i == j
}

/// The position of the wildcard (meaningful when `has_star(s)`).
pub open spec fn star_pos(s: Seq<u8>) -> int {
    find_first(s, STAR)->0
}

/// What stands before the wildcard.
pub open spec fn wild_prefix(s: Seq<u8>) -> Seq<u8>
    recommends
        has_star(s),
{
    s.take(star_pos(s))
}

/// What stands after the wildcard.
pub open spec fn wild_suffix(s: Seq<u8>) -> Seq<u8>
    recommends
        has_star(s),
{
    s.subrange(star_pos(s) + 1, s.len() as int)
}

/// A single-wildcard pattern `prefix*suffix` matches a name when the name
/// starts with the prefix, ends with the suffix, and the middle segment
/// between them is non-empty.
pub open spec fn wild_matches(pat: Seq<u8>, name: Seq<u8>) -> bool
    recommends
        has_star(pat),
{
    &&& name.len() >= pat.len()
    &&& wild_prefix(pat).is_prefix_of(name)
    &&& wild_suffix(pat).is_suffix_of(name)
}

/// The middle segment a matching name puts in place of the wildcard.
pub open spec fn wild_middle(pat: Seq<u8>, name: Seq<u8>) -> Seq<u8>
    recommends
        has_star(pat),
        wild_matches(pat, name),
{
    name.subrange(wild_prefix(pat).len() as int, name.len() - wild_suffix(pat).len())
}

/// The destination pattern with its wildcard replaced by `mid`.
pub open spec fn wild_subst(dst: Seq<u8>, mid: Seq<u8>) -> Seq<u8>
    recommends
        has_star(dst),
{
    wild_prefix(dst) + mid + wild_suffix(dst)
}

/// Whether a source pattern matches an advertised name: a wildcard pattern
/// matches by prefix and suffix; an exact pattern matches the name itself,
/// or the name it fully qualifies to on the remote side.
pub open spec fn spec_pat_matches(cfg: SpecNamer, pat: Seq<u8>, name: Seq<u8>) -> bool {
    if has_star(pat) {
        wild_matches(pat, name)
    } else {
        pat == name || spec_full_remote_ref(cfg, pat) == name
    }
}

/// Finding a wildcard answers `has_star`; the position found is the least.
pub proof fn lemma_star_found(s: Seq<u8>)
    ensures
        match find_first(s, STAR) {
            Some(i) => has_star(s) && star_pos(s) == i && 0 <= i < s.len() && s[i] == STAR
                && (forall|j: int| 0 <= j < i ==> s[j] != STAR),
            None => !has_star(s),
        },
{
    lemma_find_first(s, STAR);
    match find_first(s, STAR) {
        Some(i) => {
            assert(s[i] == STAR);
        },
        None => {
            assert(!s.contains(STAR)) by {
                if s.contains(STAR) {
                    let i = choose|i: int| 0 <= i < s.len() && s[i] == STAR;
                    assert(s[i] != STAR);
                }
            }
        },
    }
}

/// Whether `s` holds a wildcard.
pub fn has_star_bytes(s: &Vec<u8>) -> (r: bool)
    ensures
        r == has_star(s@),
{
    contains_byte(s, STAR)
}

/// Whether `s` holds at most one wildcard.
pub fn check_at_most_one_star(s: &Vec<u8>) -> (r: bool)
    ensures
        r == at_most_one_star(s@),
{
    proof {
        lemma_star_found(s@);
    }
    match find_byte(s, STAR) {
        None => true,
        Some(p) => {
            let n = s.len();
            proof {
                assert(p < n);
            }
            let mut j: usize = p + 1;
            while j < s.len()
                invariant
                    p < j <= s@.len(),
                    0 <= p < s@.len(),
                    s@[p as int] == STAR,
                    forall|k: int| 0 <= k < p ==> s@[k] != STAR,
                    forall|k: int| p < k < j ==> s@[k] != STAR,
                decreases s@.len() - j,
            {
                if s[j] == STAR {
                    return false;
                }
                j += 1;
            }
            proof {
                assert forall|i: int, k: int|
                    0 <= i < s@.len() && 0 <= k < s@.len() && s@[i] == STAR && s@[k] == STAR
                    implies i == k by {
                    assert(i == p as int);
                    assert(k == p as int);
                }
            }
            true
        },
    }
}

/// Tests the source pattern `pat` against the advertised name.
pub fn pattern_matches(cfg: &NamerConfig, pat: &Vec<u8>, name: &Vec<u8>) -> (r: bool)
    ensures
        r == spec_pat_matches(cfg@, pat@, name@),
{
    proof {
        lemma_star_found(pat@);
    }
    match find_byte(pat, STAR) {
        Some(p) => {
            if name.len() < pat.len() {
                return false;
            }
            let prefix = subvec(pat, 0, p);
            let suffix = subvec(pat, p + 1, pat.len());
            starts_with(name, &prefix) && ends_with(name, &suffix)
        },
        None => {
            if bytes_eq(pat, name) {
                true
            } else {
                let q = cfg.full_remote_ref(pat);
                bytes_eq(&q, name)
            }
        },
    }
}

/// Expands the destination pattern for a name matched by `pat`.
pub fn wildcard_dest(dst: &Vec<u8>, pat: &Vec<u8>, name: &Vec<u8>) -> (r: Vec<u8>)
    requires
        has_star(dst@),
        has_star(pat@),
        wild_matches(pat@, name@),
    ensures
        r@ == wild_subst(dst@, wild_middle(pat@, name@)),
{
    proof {
        lemma_star_found(pat@);
        lemma_star_found(dst@);
    }
    let p = match find_byte(pat, STAR) {
        Some(p) => p,
        None => vstd::pervasive::unreached(),
    };
    let q = match find_byte(dst, STAR) {
        Some(q) => q,
        None => vstd::pervasive::unreached(),
    };
    let dn = dst.len();
    proof {
        assert(p < pat@.len());
        assert(q < dn);
    }
    let suffix_len: usize = pat.len() - p - 1;
    let middle = subvec(name, p, name.len() - suffix_len);
    let dst_prefix = subvec(dst, 0, q);
    let dst_suffix = subvec(dst, q + 1, dn);
    let head = concat_bytes(&dst_prefix, &middle);
    let r = concat_bytes(&head, &dst_suffix);
    proof {
        assert(middle@ == wild_middle(pat@, name@));
        assert(r@ =~= wild_subst(dst@, wild_middle(pat@, name@)));
    }
    r
}

} // verus!
