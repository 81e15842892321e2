//! ROMA: the Roman numerals.
use vstd::prelude::*;

use crate::befunge98::fingerprints::{Fingerprint, FingerprintFunction, FingerprintName, fingerprint_map, table};
use crate::befunge98::{Cursor, Env};
use crate::befunge::Value;
use crate::settings::Settings;

verus! {

/// The table of ROMA: `c`, `d`, `i`, `l`, `m`, `v` and `x`.
pub open spec fn letters_table() -> Seq<Option<FingerprintFunction>> {
    table(FingerprintName::Roma, seq![99u8, 100, 105, 108, 109, 118, 120])
}

/// The letters of ROMA.
pub fn list_of_ops() -> (r: Fingerprint)
    ensures
        r@ == letters_table(),
{
    let letters: [u8; 7] = [99, 100, 105, 108, 109, 118, 120];
    assert(letters@ =~= seq![99u8, 100, 105, 108, 109, 118, 120]);
    fingerprint_map(FingerprintName::Roma, letters.as_slice())
}

/// The number that a letter of ROMA pushes.
pub open spec fn numeral(letter: u8) -> Option<Value> {
    if letter == 99 {
        Some(100)
    } else if letter == 100 {
        Some(500)
    } else if letter == 105 {
        Some(1)
    } else if letter == 108 {
        Some(50)
    } else if letter == 109 {
        Some(1000)
    } else if letter == 118 {
        Some(5)
    } else if letter == 120 {
        Some(10)
    } else {
        None
    }
}

/// `C`: pushes 100.
pub fn roma_c(this: &mut Cursor, _state: &mut Env, _settings: &Settings)
    requires
        old(this)@.wf(),
    ensures
        final(this)@ == old(this)@.push(100),
        *final(_state) == *old(_state),
{
    this.push(100)
}

/// `D`: pushes 500.
pub fn roma_d(this: &mut Cursor, _state: &mut Env, _settings: &Settings)
    requires
        old(this)@.wf(),
    ensures
        final(this)@ == old(this)@.push(500),
        *final(_state) == *old(_state),
{
    this.push(500)
}

/// `I`: pushes 1.
pub fn roma_i(this: &mut Cursor, _state: &mut Env, _settings: &Settings)
    requires
        old(this)@.wf(),
    ensures
        final(this)@ == old(this)@.push(1),
        *final(_state) == *old(_state),
{
    this.push(1)
}

/// `L`: pushes 50.
pub fn roma_l(this: &mut Cursor, _state: &mut Env, _settings: &Settings)
    requires
        old(this)@.wf(),
    ensures
        final(this)@ == old(this)@.push(50),
        *final(_state) == *old(_state),
{
    this.push(50)
}

/// `M`: pushes 1000.
pub fn roma_m(this: &mut Cursor, _state: &mut Env, _settings: &Settings)
    requires
        old(this)@.wf(),
    ensures
        final(this)@ == old(this)@.push(1000),
        *final(_state) == *old(_state),
{
    this.push(1000)
}

/// `V`: pushes 5.
pub fn roma_v(this: &mut Cursor, _state: &mut Env, _settings: &Settings)
    requires
        old(this)@.wf(),
    ensures
        final(this)@ == old(this)@.push(5),
        *final(_state) == *old(_state),
{
    this.push(5)
}

/// `X`: pushes 10.
pub fn roma_x(this: &mut Cursor, _state: &mut Env, _settings: &Settings)
    requires
        old(this)@.wf(),
    ensures
        final(this)@ == old(this)@.push(10),
        *final(_state) == *old(_state),
{
    this.push(10)
}

} // verus!
