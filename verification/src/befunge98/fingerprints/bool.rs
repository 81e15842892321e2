//! BOOL: bitwise logic on cells.
use vstd::prelude::*;

use crate::befunge98::fingerprints::{Fingerprint, FingerprintFunction, FingerprintName, fingerprint_map, table};
use crate::befunge98::{Cursor, StateTempName};
use crate::befunge98::model::CursorView;
use crate::settings::Settings;

verus! {

/// The table of BOOL: `a`, `n`, `o` and `x`.
pub open spec fn letters_table() -> Seq<Option<FingerprintFunction>> {
    table(FingerprintName::Bool, seq![97u8, 110, 111, 120])
}

/// The letters of BOOL.
pub fn list_of_ops() -> (r: Fingerprint)
    ensures
        r@ == letters_table(),
{
    let letters: [u8; 4] = [97, 110, 111, 120];
    assert(letters@ =~= seq![97u8, 110, 111, 120]);
    fingerprint_map(FingerprintName::Bool, letters.as_slice())
}

/// What a letter of BOOL does to the cursor.
pub open spec fn logic(letter: u8, c: CursorView) -> Option<CursorView> {
    let a = c.top();
    let b = c.pop().top();
    if letter == 97 {
        Some(c.pop().pop().push(a & b))
    } else if letter == 110 {
        Some(c.pop().push(!a))
    } else if letter == 111 {
        Some(c.pop().pop().push(a | b))
    } else if letter == 120 {
        Some(c.pop().pop().push(a ^ b))
    } else {
        None
    }
}

/// `A`: pops `a` and `b`, pushes `a & b`.
pub fn bool_a(this: &mut Cursor, _state: &mut StateTempName, _settings: &Settings)
    requires
        old(this)@.wf(),
    ensures
        final(this)@.wf(),
        final(this)@ == old(this)@.pop().pop().push(old(this)@.top() & old(this)@.pop().top()),
        *final(_state) == *old(_state),
{
    let a = this.pop();
    let b = this.pop();
    this.push(a & b);
}

/// `N`: pops `a`, pushes its bitwise complement.
pub fn bool_n(this: &mut Cursor, _state: &mut StateTempName, _settings: &Settings)
    requires
        old(this)@.wf(),
    ensures
        final(this)@.wf(),
        final(this)@ == old(this)@.pop().push(!old(this)@.top()),
        *final(_state) == *old(_state),
{
    let a = this.pop();
    this.push(!a);
}

/// `O`: pops `a` and `b`, pushes `a | b`.
pub fn bool_o(this: &mut Cursor, _state: &mut StateTempName, _settings: &Settings)
    requires
        old(this)@.wf(),
    ensures
        final(this)@.wf(),
        final(this)@ == old(this)@.pop().pop().push(old(this)@.top() | old(this)@.pop().top()),
        *final(_state) == *old(_state),
{
    let a = this.pop();
    let b = this.pop();
    this.push(a | b);
}

/// `X`: pops `a` and `b`, pushes `a ^ b`.
pub fn bool_x(this: &mut Cursor, _state: &mut StateTempName, _settings: &Settings)
    requires
        old(this)@.wf(),
    ensures
        final(this)@.wf(),
        final(this)@ == old(this)@.pop().pop().push(old(this)@.top() ^ old(this)@.pop().top()),
        *final(_state) == *old(_state),
{
    let a = this.pop();
    let b = this.pop();
    this.push(a ^ b);
}

} // verus!
