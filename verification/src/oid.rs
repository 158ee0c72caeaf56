//! Object identifiers. An id is carried as the lowercase hexadecimal byte
//! string that names it on the wire: 40 digits for the short id form, 64 for
//! the long one. A refspec whose source side is such a string names an
//! object directly and bypasses ref-name matching.

use vstd::prelude::*;

verus! {

/// A lowercase hexadecimal digit: `0` to `9` or `a` to `f`.
pub open spec fn is_hex_lower(b: u8) -> bool {
    (48 <= b && b <= 57) || (97 <= b && b <= 102)
}

/// A full object id written in lowercase hex: 40 or 64 digits.
pub open spec fn is_oid_hex(s: Seq<u8>) -> bool {
    (s.len() == 40 || s.len() == 64) && (forall|i: int| 0 <= i < s.len() ==> is_hex_lower(s[i]))
}

/// Whether `s` spells a full lowercase-hex object id.
pub fn check_oid_hex(s: &Vec<u8>) -> (r: bool)
    ensures
        r == is_oid_hex(s@),
{
    if s.len() != 40 && s.len() != 64 {
        return false;
    }
    let mut i: usize = 0;
    while i < s.len()
        invariant
            i <= s@.len(),
            forall|j: int| 0 <= j < i ==> is_hex_lower(s@[j]),
        decreases s@.len() - i,
    {
        let b = s[i];
        if !((48 <= b && b <= 57) || (97 <= b && b <= 102)) {
            return false;
        }
        i += 1;
    }
    true
}

/// An object id, held as its lowercase hex spelling.
#[derive(Debug, Clone, PartialEq, Eq)]
pub struct Oid {
    pub hex: Vec<u8>,
}

impl View for Oid {
    type V = Seq<u8>;

    open spec fn view(&self) -> Seq<u8> {
        self.hex@
    }
}

impl Oid {
    /// A well-formed id spells a full lowercase-hex object name.
    pub open spec fn wf(self) -> bool {
        is_oid_hex(self@)
    }

    /// Accepts `s` as an object id exactly when it is a full lowercase-hex
    /// spelling.
    pub fn from_hex(s: &Vec<u8>) -> (r: Option<Oid>)
        ensures
            match r {
                Some(o) => is_oid_hex(s@) && o@ == s@ && o.wf(),
                None => !is_oid_hex(s@),
            },
    {
        if check_oid_hex(s) {
            Some(Oid { hex: crate::bytes::copy_bytes(s) })
        } else {
            None
        }
    }

    /// A fresh copy of the id.
    pub fn duplicate(&self) -> (r: Oid)
        ensures
            r@ == self@,
    {
        Oid { hex: crate::bytes::copy_bytes(&self.hex) }
    }
}

} // verus!
