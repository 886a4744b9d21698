//! Four-character codes.
use vstd::prelude::*;

verus! {

/// A four-character code, as it stands in a box header.
pub type FourCc = [u8; 4];

/// Whether `code` spells the four characters.
pub open spec fn spells(code: FourCc, a: u8, b: u8, c: u8, d: u8) -> bool {
    code@[0] == a && code@[1] == b && code@[2] == c && code@[3] == d
}

/// Whether `code` spells the four characters.
pub fn four_cc_is(code: FourCc, a: u8, b: u8, c: u8, d: u8) -> (same: bool)
    ensures
        same == spells(code, a, b, c, d),
{
    code[0] == a && code[1] == b && code[2] == c && code[3] == d
}

/// Whether two codes are the same.
pub fn four_cc_eq(left: FourCc, right: FourCc) -> (same: bool)
    ensures
        same == (left@ == right@),
{
    let same: bool = left[0] == right[0] && left[1] == right[1] && left[2] == right[2] && left[3]
        == right[3];
    proof {
        if same {
            assert(left@ =~= right@);
        }
    }
    same
}

} // verus!
