//! Parsing one refspec string into a validated [`Refspec`]. A failure is
//! local to the one string; the caller decides whether to abort a batch or
//! skip the spec.

use vstd::prelude::*;
use crate::bytes::{COLON, DASH, PLUS, copy_bytes, find_byte, find_first, subvec};
use crate::matching::{at_most_one_star, check_at_most_one_star, has_star, has_star_bytes};
use crate::types::{Operation, Refspec, SpecRefspec};

verus! {

/// Why a refspec string was rejected.
#[derive(Debug, Copy, Clone, PartialEq, Eq, Structural)]
pub enum ParseError {
    /// The input, or the pattern a side needs, is empty.
    Empty,
    /// A second `+` or `-` follows the leading force or exclusion marker.
    InvalidPrefix,
    /// An exclusion spec (`-pattern`) outside a push.
    NegativeNotAllowed,
    /// An exclusion spec carries a destination side; it must not.
    NegativeWithDestination,
    /// A fetch spec with an empty source side.
    MissingSource,
    /// More than one `*` on one side.
    MultipleWildcards,
    /// A `*` on one side without the matching `*` on the other.
    WildcardMismatch,
}

/// Whether an optional pattern side holds at most one wildcard.
pub open spec fn opt_at_most_one_star(o: Option<Seq<u8>>) -> bool {
    match o {
        Some(s) => at_most_one_star(s),
        None => true,
    }
}

/// Whether an optional pattern side holds a wildcard.
pub open spec fn opt_has_star(o: Option<Seq<u8>>) -> bool {
    match o {
        Some(s) => has_star(s),
        None => false,
    }
}

/// The invariant every parsed refspec satisfies: non-empty sides, a source
/// absent only for a push delete spec, no side with two wildcards, and a
/// wildcard on one side matched by one on the other.
pub open spec fn refspec_wf(r: SpecRefspec) -> bool {
    &&& match r.source {
        Some(s) => s.len() > 0 && at_most_one_star(s),
        None => r.operation is Push && r.destination is Some && !r.exclude,
    }
    &&& match r.destination {
        Some(d) => d.len() > 0 && at_most_one_star(d),
        None => true,
    }
    &&& r.exclude ==> r.operation is Push && r.destination is None && r.source is Some
    &&& opt_has_star(r.source) && r.destination is Some ==> opt_has_star(r.destination)
    &&& opt_has_star(r.destination) ==> opt_has_star(r.source)
}

/// What parsing `s` for `op` yields: the refspec, or the first reason for
/// rejection, checked in a fixed order.
pub open spec fn spec_parse(s: Seq<u8>, op: Operation) -> Result<SpecRefspec, ParseError> {
    if s.len() == 0 {
        Err(ParseError::Empty)
    } else {
        let force = s[0] == PLUS;
        let exclude = s[0] == DASH;
        let rest = if force || exclude {
            s.drop_first()
        } else {
            s
        };
        if (force || exclude) && rest.len() > 0 && (rest[0] == PLUS || rest[0] == DASH) {
            Err(ParseError::InvalidPrefix)
        } else if exclude && !(op is Push) {
            Err(ParseError::NegativeNotAllowed)
        } else {
            let colon = find_first(rest, COLON);
            let src_raw = match colon {
                Some(i) => rest.take(i),
                None => rest,
            };
            let dst_raw = match colon {
                Some(i) => rest.subrange(i + 1, rest.len() as int),
                None => Seq::empty(),
            };
            if exclude && colon is Some {
                Err(ParseError::NegativeWithDestination)
            } else {
                let source: Option<Seq<u8>> = if src_raw.len() == 0 {
                    None
                } else {
                    Some(src_raw)
                };
                let destination: Option<Seq<u8>> = if colon is Some && dst_raw.len() > 0 {
                    Some(dst_raw)
                } else {
                    None
                };
                if source is None && destination is None {
                    Err(ParseError::Empty)
                } else if source is None && op is Fetch {
                    Err(ParseError::MissingSource)
                } else if !opt_at_most_one_star(source) || !opt_at_most_one_star(destination) {
                    Err(ParseError::MultipleWildcards)
                } else if (opt_has_star(source) && destination is Some && !opt_has_star(destination))
                    || (opt_has_star(destination) && !opt_has_star(source)) {
                    Err(ParseError::WildcardMismatch)
                } else {
                    Ok(SpecRefspec { operation: op, source, destination, force, exclude })
                }
            }
        }
    }
}

/// Parses one refspec string for the given operation.
///
/// A leading `+` marks force; a leading `-` marks a push exclusion, which
/// carries no destination. The string splits at the first `:` into source
/// and destination patterns; an empty side is an absent side. Each side may
/// hold at most one `*`, and a wildcard source demands a wildcard
/// destination whenever a destination is given, and the other way round.
pub fn parse(input: &Vec<u8>, op: Operation) -> (r: Result<Refspec, ParseError>)
    ensures
        match r {
            Ok(rs) => spec_parse(input@, op) == Ok::<SpecRefspec, ParseError>(rs@)
                && refspec_wf(rs@) && rs@.operation == op,
            Err(e) => spec_parse(input@, op) == Err::<SpecRefspec, ParseError>(e),
        },
{
    if input.len() == 0 {
        return Err(ParseError::Empty);
    }
    let b0 = input[0];
    let force = b0 == PLUS;
    let exclude = b0 == DASH;
    let rest: Vec<u8> = if force || exclude {
        subvec(input, 1, input.len())
    } else {
        copy_bytes(input)
    };
    proof {
        assert(input@.drop_first() =~= input@.subrange(1, input@.len() as int));
    }
    if (force || exclude) && rest.len() > 0 {
        let r0 = rest[0];
        if r0 == PLUS || r0 == DASH {
            return Err(ParseError::InvalidPrefix);
        }
    }
    let is_push = matches!(op, Operation::Push);
    if exclude && !is_push {
        return Err(ParseError::NegativeNotAllowed);
    }
    let n = rest.len();
    let colon = find_byte(&rest, COLON);
    proof {
        crate::bytes::lemma_find_first(rest@, COLON);
    }
    let (src_raw, dst_raw): (Vec<u8>, Option<Vec<u8>>) = match colon {
        Some(i) => {
            proof {
                assert(i < n);
            }
            (subvec(&rest, 0, i), Some(subvec(&rest, i + 1, n)))
        },
        None => (rest, None),
    };
    if exclude && dst_raw.is_some() {
        return Err(ParseError::NegativeWithDestination);
    }
    let source: Option<Vec<u8>> = if src_raw.len() == 0 {
        None
    } else {
        Some(src_raw)
    };
    let destination: Option<Vec<u8>> = match dst_raw {
        Some(d) => if d.len() > 0 {
            Some(d)
        } else {
            None
        },
        None => None,
    };
    if source.is_none() && destination.is_none() {
        return Err(ParseError::Empty);
    }
    if source.is_none() && !is_push {
        return Err(ParseError::MissingSource);
    }
    let src_ok = match &source {
        Some(s) => check_at_most_one_star(s),
        None => true,
    };
    let dst_ok = match &destination {
        Some(d) => check_at_most_one_star(d),
        None => true,
    };
    if !src_ok || !dst_ok {
        return Err(ParseError::MultipleWildcards);
    }
    let s_star = match &source {
        Some(s) => has_star_bytes(s),
        None => false,
    };
    let d_star = match &destination {
        Some(d) => has_star_bytes(d),
        None => false,
    };
    if (s_star && destination.is_some() && !d_star) || (d_star && !s_star) {
        return Err(ParseError::WildcardMismatch);
    }
    let rs = Refspec { operation: op, source, destination, force, exclude };
    proof {
        assert(spec_parse(input@, op) == Ok::<SpecRefspec, ParseError>(rs@));
    }
    Ok(rs)
}

} // verus!
