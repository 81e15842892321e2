//! NULL: every letter reflects.
use vstd::prelude::*;

use crate::befunge98::fingerprints::{Fingerprint, FingerprintFunction};

verus! {

/// The table of NULL: each letter reflects.
pub open spec fn reflecting() -> Seq<Option<FingerprintFunction>> {
    Seq::new(26, |i: int| Some(FingerprintFunction::Reflect))
}

/// The letters of NULL.
pub fn list_of_ops() -> (r: Fingerprint)
    ensures
        r@ == reflecting(),
{
    let arr: Fingerprint = [Some(FingerprintFunction::Reflect); 26];
    assert(arr@ =~= reflecting());
    arr
}

} // verus!
