//! FPSP: single-precision floating point, a cell holding the bits of an `f32`.
//! The arithmetic itself is floating point and is carried out outside the
//! verified library; here is the table of letters.
use vstd::prelude::*;

use crate::befunge98::fingerprints::{Fingerprint, FingerprintFunction, FingerprintName, fingerprint_map, table};

verus! {

/// The table of FPSP: `a` to `i`, `k` to `n`, `p` to `t`, `v`, `x` and `y`.
pub open spec fn letters_table() -> Seq<Option<FingerprintFunction>> {
    table(
        FingerprintName::Fpsp,
        seq![97u8, 98, 99, 100, 101, 102, 103, 104, 105, 107, 108, 109, 110, 112, 113, 114, 115, 116, 118, 120, 121],
    )
}

/// The letters of FPSP.
pub fn list_of_ops() -> (r: Fingerprint)
    ensures
        r@ == letters_table(),
{
    let letters: [u8; 21] = [
        97, 98, 99, 100, 101, 102, 103, 104, 105, 107, 108, 109, 110, 112, 113, 114, 115, 116, 118,
        120, 121,
    ];
    assert(letters@ =~= seq![97u8, 98, 99, 100, 101, 102, 103, 104, 105, 107, 108, 109, 110, 112, 113, 114, 115, 116, 118, 120, 121]);
    fingerprint_map(FingerprintName::Fpsp, letters.as_slice())
}

} // verus!
