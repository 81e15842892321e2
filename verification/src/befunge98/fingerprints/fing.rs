//! FING: moving the meanings of letters around.
use vstd::prelude::*;

use crate::befunge::Value;
use crate::befunge98::fingerprints::{Fingerprint, FingerprintFunction, FingerprintName, fingerprint_map, table};
use crate::befunge98::model::CursorView;
use crate::befunge98::{Cursor, Env};
use crate::settings::Settings;

verus! {

/// The table of FING: `x`, `y` and `z`.
pub open spec fn letters_table() -> Seq<Option<FingerprintFunction>> {
    table(FingerprintName::Fing, seq![120u8, 121, 122])
}

/// The letters of FING.
pub fn list_of_ops() -> (r: Fingerprint)
    ensures
        r@ == letters_table(),
{
    let letters: [u8; 3] = [120, 121, 122];
    assert(letters@ =~= seq![120u8, 121, 122]);
    fingerprint_map(FingerprintName::Fing, letters.as_slice())
}

/// The letter that a cell names: 0 to 25 name themselves, and the codes of
/// `A` to `Z` name their letters; other cells name none.
pub open spec fn semantic_index(v: Value) -> Option<int> {
    if 0 <= v <= 25 {
        Some(v as int)
    } else if 65 <= v <= 90 {
        Some(v - 65)
    } else {
        None
    }
}

/// What a letter currently stands for: the top of its stack, or a
/// reflection when the stack is empty.
pub open spec fn current(s: Seq<FingerprintFunction>) -> FingerprintFunction {
    if s.len() == 0 {
        FingerprintFunction::Reflect
    } else {
        s.last()
    }
}

/// A letter's stack without its top (unchanged when empty).
pub open spec fn without_top(s: Seq<FingerprintFunction>) -> Seq<FingerprintFunction> {
    if s.len() == 0 {
        s
    } else {
        s.drop_last()
    }
}

/// The letters' stacks after `X` on letters `a` and `b`: each loses its top
/// and takes the other's former meaning (for `a == b` the letter keeps its
/// meaning).
pub open spec fn swapped(fs: Seq<Seq<FingerprintFunction>>, a: int, b: int) -> Seq<Seq<FingerprintFunction>> {
    let func_a = current(fs[a]);
    let fs1 = fs.update(a, without_top(fs[a]));
    let func_b = current(fs1[b]);
    let fs2 = fs1.update(b, without_top(fs1[b]));
    let fs3 = fs2.update(a, fs2[a].push(func_b));
    fs3.update(b, fs3[b].push(func_a))
}

/// The cursor turned around.
pub open spec fn reflected(c: CursorView) -> CursorView {
    c.facing(c.direction.spec_reverse())
}

/// What `X` does: two letters popped swap what they stand for; a cell that
/// names no letter reflects.
pub open spec fn swap_result(c: CursorView) -> CursorView {
    match semantic_index(c.top()) {
        None => reflected(c.pop()),
        Some(a) => match semantic_index(c.pop().top()) {
            None => reflected(c.pop().pop()),
            Some(b) => CursorView {
                fingerprints: swapped(c.fingerprints, a, b),
                ..c.pop().pop()
            },
        },
    }
}

/// What `Y` does: the popped letter forgets what it stands for; a cell that
/// names no letter reflects.
pub open spec fn drop_result(c: CursorView) -> CursorView {
    match semantic_index(c.top()) {
        None => reflected(c.pop()),
        Some(a) => CursorView {
            fingerprints: c.fingerprints.update(a, without_top(c.fingerprints[a])),
            ..c.pop()
        },
    }
}

/// What `Z` does: letter `a` also comes to stand for what letter `b` stands
/// for; a cell that names no letter reflects.
pub open spec fn copy_result(c: CursorView) -> CursorView {
    match semantic_index(c.top()) {
        None => reflected(c.pop()),
        Some(a) => match semantic_index(c.pop().top()) {
            None => reflected(c.pop().pop()),
            Some(b) => CursorView {
                fingerprints: c.fingerprints.update(
                    a,
                    c.fingerprints[a].push(current(c.fingerprints[b])),
                ),
                ..c.pop().pop()
            },
        },
    }
}

/// Pops a cell and reads the letter it names.
pub fn pop_semantic(this: &mut Cursor) -> (r: Option<usize>)
    requires
        old(this)@.wf(),
    ensures
        final(this)@ == old(this)@.pop(),
        match semantic_index(old(this)@.top()) {
            Some(i) => r == Some(i as usize),
            None => r is None,
        },
{
    let v = this.pop();
    if 0 <= v && v <= 25 {
        Some(v as usize)
    } else if 65 <= v && v <= 90 {
        Some((v - 65) as usize)
    } else {
        None
    }
}

/// `X`: pops two letters and swaps what they stand for; reflects when a
/// cell names no letter.
pub fn fing_x(this: &mut Cursor, _state: &mut Env, _settings: &Settings)
    requires
        old(this)@.wf(),
    ensures
        *final(_state) == *old(_state),
        final(this)@.wf(),
        final(this)@ == swap_result(old(this)@),
{
    let a = match pop_semantic(this) {
        Some(a) => a,
        None => {
            this.direction = this.direction.reverse();
            return;
        },
    };
    let b = match pop_semantic(this) {
        Some(b) => b,
        None => {
            this.direction = this.direction.reverse();
            return;
        },
    };
    let ghost fs = this@.fingerprints;
    let func_a = match this.fingerprints[a].pop() {
        Some(f) => f,
        None => FingerprintFunction::Reflect,
    };
    let ghost fs1 = fs.update(a as int, without_top(fs[a as int]));
    assert(this@.fingerprints =~= fs1);
    let func_b = match this.fingerprints[b].pop() {
        Some(f) => f,
        None => FingerprintFunction::Reflect,
    };
    let ghost fs2 = fs1.update(b as int, without_top(fs1[b as int]));
    assert(this@.fingerprints =~= fs2);
    this.fingerprints[a].push(func_b);
    let ghost fs3 = fs2.update(a as int, fs2[a as int].push(func_b));
    assert(this@.fingerprints =~= fs3);
    this.fingerprints[b].push(func_a);
    assert(this@.fingerprints =~= fs3.update(b as int, fs3[b as int].push(func_a)));
}

/// `Y`: pops a letter and drops what it stands for; reflects when the cell
/// names no letter.
pub fn fing_y(this: &mut Cursor, _state: &mut Env, _settings: &Settings)
    requires
        old(this)@.wf(),
    ensures
        *final(_state) == *old(_state),
        final(this)@.wf(),
        final(this)@ == drop_result(old(this)@),
{
    let a = match pop_semantic(this) {
        Some(a) => a,
        None => {
            this.direction = this.direction.reverse();
            return;
        },
    };
    let ghost fs = this@.fingerprints;
    this.fingerprints[a].pop();
    assert(this@.fingerprints =~= fs.update(a as int, without_top(fs[a as int])));
}

/// `Z`: pops letters `a` and `b`, and makes `a` also stand for what `b`
/// stands for; reflects when a cell names no letter.
pub fn fing_z(this: &mut Cursor, _state: &mut Env, _settings: &Settings)
    requires
        old(this)@.wf(),
    ensures
        *final(_state) == *old(_state),
        final(this)@.wf(),
        final(this)@ == copy_result(old(this)@),
{
    let a = match pop_semantic(this) {
        Some(a) => a,
        None => {
            this.direction = this.direction.reverse();
            return;
        },
    };
    let b = match pop_semantic(this) {
        Some(b) => b,
        None => {
            this.direction = this.direction.reverse();
            return;
        },
    };
    let ghost fs = this@.fingerprints;
    let n = this.fingerprints[b].len();
    let func = if n == 0 {
        FingerprintFunction::Reflect
    } else {
        this.fingerprints[b][n - 1]
    };
    this.fingerprints[a].push(func);
    assert(this@.fingerprints =~= fs.update(a as int, fs[a as int].push(current(fs[b as int]))));
}

} // verus!
