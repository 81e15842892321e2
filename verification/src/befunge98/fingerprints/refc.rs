//! REFC: vectors stored by reference.
use vstd::prelude::*;

use crate::befunge::Value;
use crate::befunge98::fingerprints::{Fingerprint, FingerprintFunction, FingerprintName, fingerprint_map, table};
use crate::befunge98::model::{CursorView, EnvView};
use crate::befunge98::{Cursor, Env};
use crate::befunge98::records_kept;
use crate::settings::Settings;

verus! {

/// The table of REFC: `r` and `d`.
pub open spec fn letters_table() -> Seq<Option<FingerprintFunction>> {
    table(FingerprintName::Refc, seq![114u8, 100])
}

/// The letters of REFC.
pub fn list_of_ops() -> (r: Fingerprint)
    ensures
        r@ == letters_table(),
{
    let letters: [u8; 2] = [114, 100];
    assert(letters@ =~= seq![114u8, 100]);
    fingerprint_map(FingerprintName::Refc, letters.as_slice())
}

/// What `R` does: it pops `y` and `x`, stores the vector `(x, y)` and
/// pushes its reference, the number of vectors stored before it.
pub open spec fn reference(c: CursorView, e: EnvView) -> (CursorView, EnvView) {
    let y = c.top();
    let x = c.pop().top();
    (
        c.pop().pop().push(e.refc_vectors.len() as Value),
        EnvView { refc_vectors: e.refc_vectors.push((x, y)), ..e },
    )
}

/// What `D` does: it pops a reference and pushes the vector stored under
/// it, `x` then `y`; it reflects when no vector is stored under it.
pub open spec fn dereference(c: CursorView, e: EnvView) -> CursorView {
    let k = c.top() as usize;
    let c1 = c.pop();
    if k < e.refc_vectors.len() {
        c1.push(e.refc_vectors[k as int].0).push(e.refc_vectors[k as int].1)
    } else {
        c1.facing(c1.direction.spec_reverse())
    }
}

/// `R`: stores the vector on the stack and pushes its reference.
pub fn refc_r(this: &mut Cursor, state: &mut Env, _settings: &Settings)
    requires
        old(this)@.wf(),
    ensures
        (final(this)@, final(state)@) == reference(old(this)@, old(state)@),
        records_kept(*old(state), *final(state)),
{
    let y = this.pop();
    let x = this.pop();
    this.push(state.refc_vectors.len() as i64);
    state.refc_vectors.push((x, y));
}

/// `D`: pushes the vector stored under the reference on the stack.
pub fn refc_d(this: &mut Cursor, state: &mut Env, _settings: &Settings)
    requires
        old(this)@.wf(),
    ensures
        final(this)@ == dereference(old(this)@, old(state)@),
        *final(state) == *old(state),
{
    let id = this.pop();
    let k = id as usize;
    if k < state.refc_vectors.len() {
        let (x, y) = state.refc_vectors[k];
        this.push(x);
        this.push(y);
    } else {
        this.direction = this.direction.reverse();
    }
}

/// `D` on a stored reference pops it and pushes the vector stored under it,
/// `x` then `y`, keeping the direction; on a reference that names no
/// stored vector (below 0 or past the last) it pops it and reflects. (On a
/// 32-bit target a reference past 2^32 wraps onto a stored vector; the law
/// is stated for 64-bit ones.)
pub proof fn lemma_dereference(c: CursorView, e: EnvView)
    requires
        c.wf(),
        usize::BITS == 64,
        e.refc_vectors.len() < 0x8000_0000_0000_0000,
    ensures
        0 <= c.top() < e.refc_vectors.len() ==> dereference(c, e) == c.pop().push(
            e.refc_vectors[c.top() as int].0,
        ).push(e.refc_vectors[c.top() as int].1),
        c.top() < 0 || c.top() >= e.refc_vectors.len() ==> dereference(c, e) == c.pop().facing(
            c.direction.spec_reverse(),
        ),
{
    let k = c.top();
    if k < 0 {
        assert(((k as usize) as u64) >= 0x8000_0000_0000_0000u64) by (bit_vector)
            requires
                k < 0,
                usize::BITS == 64,
        ;
    }
}

/// Dereferencing the reference that `R` just made gives back the vector it
/// stored: the stack is as it was before, but for the cells that the pops
/// of `R` took from an empty stack, which are now there as zeros. (A
/// reference is read back faithfully while fewer than 2^63 vectors are
/// stored.)
pub proof fn lemma_reference_round_trip(c: CursorView, e: EnvView)
    requires
        c.wf(),
        e.refc_vectors.len() < 0x8000_0000_0000_0000,
        e.refc_vectors.len() <= usize::MAX,
    ensures
        ({
            let (c1, e1) = reference(c, e);
            dereference(c1, e1) == c.pop().pop().push(c.pop().top()).push(c.top())
        }),
{
    let (c1, e1) = reference(c, e);
    let n = e.refc_vectors.len();
    assert(n as Value == n);
    assert((n as Value) as usize == n);
    assert(c1.top() == n as Value);
    assert(c1.pop() =~~= c.pop().pop());
}

} // verus!
