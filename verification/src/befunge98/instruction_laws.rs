//! What single instructions do, stated over the stacks, the cells and the
//! directions they work on: each law holds of every outcome that the
//! semantics allow for the instruction.
use vstd::prelude::*;

use crate::befunge::{Position, Value, trunc_div, trunc_rem, wrap};
use crate::befunge98::fingerprints::FloatUnit;
use crate::befunge98::model::{CursorView, EnvView, advance, next_position, popped, top, transfer_to_soss, transfer_to_toss};
use crate::befunge98::semantics::{
    Choices, Outcome, cursor_op, fingerprint_step, lemma_plain_op, op_step, shift, with_loaded,
};
use crate::befunge98::fingerprints::{FingerprintFunction, FingerprintName, loadable, table};
use crate::befunge98::fingerprints::fing::{current, semantic_index, without_top};
use crate::befunge98::fingerprints::bool as boolean;
use crate::befunge98::laws::{lemma_read_after_write, lemma_write_leaves_others};
use crate::befunge98::{Direction, StepStatus};
use crate::settings::Settings;

verus! {

/// Where `p` and `g` reach: the popped `x` (second) and `y` (top), each
/// shifted by the storage offset.
pub open spec fn addressed(c: CursorView) -> Position {
    (wrap(c.pop().top() + c.storage_offset.0), wrap(c.top() + c.storage_offset.1))
}

/// What `shift` does: `n` cells come off the top of `from`, the topmost
/// first, onto `to` (a 0 for each one that `from` lacks).
proof fn lemma_shift(from: Seq<Value>, to: Seq<Value>, n: nat)
    ensures
        shift(from, to, n).1.len() == to.len() + n,
        shift(from, to, n).1.subrange(0, to.len() as int) == to,
        forall|i: int|
            0 <= i < n ==> #[trigger] shift(from, to, n).1[to.len() + i] == if i < from.len() {
                from[from.len() - 1 - i]
            } else {
                0
            },
        shift(from, to, n).0 == from.subrange(
            0,
            if from.len() >= n {
                from.len() - n
            } else {
                0
            },
        ),
    decreases n,
{
    if n > 0 {
        lemma_shift(from, to, (n - 1) as nat);
        let (f, t) = shift(from, to, (n - 1) as nat);
        let t2 = shift(from, to, n).1;
        assert(t2 == t.push(if f.len() == 0 { 0 } else { f.last() }));
        assert(t2.subrange(0, to.len() as int) =~= t.subrange(0, to.len() as int));
        assert forall|i: int| 0 <= i < n implies #[trigger] t2[to.len() + i] == if i < from.len() {
            from[from.len() - 1 - i]
        } else {
            0
        } by {
            if i < n - 1 {
                assert(t2[to.len() + i] == t[to.len() + i]);
            }
        }
        assert(shift(from, to, n).0 =~= from.subrange(
            0,
            if from.len() >= n {
                from.len() - n
            } else {
                0
            },
        ));
    } else {
        assert(to.subrange(0, to.len() as int) =~= to);
        assert(from.subrange(0, from.len() as int) =~= from);
    }
}

/// `k` with a count of 0 skips the next cell: the cursor, without the
/// count, lands two cells along its path, and nothing else is carried out.
pub proof fn law_iterate_zero_skips<F: FloatUnit>(
    fl: F,
    depth: nat,
    c: CursorView,
    e: EnvView,
    s: Settings,
    r: Outcome,
    w: Choices,
)
    requires
        c.wf(),
        c.top() == 0,
        op_step(fl, depth, 107, c, e, s, r, w),
    ensures
        r.cursor == c.pop().at(
            next_position(
                next_position(c.position, c.direction, e.map.max_size),
                c.direction,
                e.map.max_size,
            ),
        ),
        r.env.map == e.map,
        r.env.output == e.output,
        r.status == StepStatus::NormalNoStep,
{
}

/// `u` with a positive count `n` moves `n` cells from the second stack onto
/// the top stack, the topmost first, a 0 for each one that the second
/// stack lacks: the top stack (without the count) keeps its cells and
/// grows by `n`, and the second stack loses its top `n` cells.
pub proof fn law_under_positive<F: FloatUnit>(
    fl: F,
    depth: nat,
    c: CursorView,
    e: EnvView,
    s: Settings,
    r: Outcome,
    w: Choices,
)
    requires
        c.wf(),
        c.stacks.len() >= 2,
        c.top() > 0,
        op_step(fl, depth, 117, c, e, s, r, w),
    ensures
        ({
            let t = c.pop().toss();
            let so = c.pop().soss();
            let n = c.top() as int;
            &&& r.status == StepStatus::Normal
            &&& r.env == e
            &&& r.cursor.stacks.len() == c.stacks.len()
            &&& r.cursor.toss().len() == t.len() + n
            &&& r.cursor.toss().subrange(0, t.len() as int) == t
            &&& forall|i: int|
                0 <= i < n ==> #[trigger] r.cursor.toss()[t.len() + i] == if i < so.len() {
                    so[so.len() - 1 - i]
                } else {
                    0
                }
            &&& r.cursor.soss() == so.subrange(
                0,
                if so.len() >= n {
                    so.len() - n
                } else {
                    0
                },
            )
        }),
{
    lemma_plain_op(117, c, e, s);
    let c1 = c.pop();
    lemma_shift(c1.soss(), c1.toss(), c.top() as nat);
}

/// `u` with a negative count `-n` moves `n` cells from the top stack back
/// onto the second stack, the topmost first, a 0 for each one that the top
/// stack lacks.
pub proof fn law_under_negative<F: FloatUnit>(
    fl: F,
    depth: nat,
    c: CursorView,
    e: EnvView,
    s: Settings,
    r: Outcome,
    w: Choices,
)
    requires
        c.wf(),
        c.stacks.len() >= 2,
        c.top() < 0,
        op_step(fl, depth, 117, c, e, s, r, w),
    ensures
        ({
            let t = c.pop().toss();
            let so = c.pop().soss();
            let n = -c.top();
            &&& r.status == StepStatus::Normal
            &&& r.env == e
            &&& r.cursor.soss().len() == so.len() + n
            &&& r.cursor.soss().subrange(0, so.len() as int) == so
            &&& forall|i: int|
                0 <= i < n ==> #[trigger] r.cursor.soss()[so.len() + i] == if i < t.len() {
                    t[t.len() - 1 - i]
                } else {
                    0
                }
            &&& r.cursor.toss() == t.subrange(
                0,
                if t.len() >= n {
                    t.len() - n
                } else {
                    0
                },
            )
        }),
{
    lemma_plain_op(117, c, e, s);
    let c1 = c.pop();
    lemma_shift(c1.toss(), c1.soss(), (-c.top()) as nat);
}

/// `p` pops `y`, `x` and a value and writes the value at `(x, y)` shifted
/// by the storage offset: funge-space then reads it there (where neither
/// coordinate is negative), every other cell reads as before, and the three
/// cells are gone from the stack.
pub proof fn law_put_writes<F: FloatUnit>(
    fl: F,
    depth: nat,
    c: CursorView,
    e: EnvView,
    s: Settings,
    r: Outcome,
    w: Choices,
)
    requires
        c.wf(),
        e.map.wf(),
        addressed(c).0 >= 0,
        addressed(c).1 >= 0,
        op_step(fl, depth, 112, c, e, s, r, w),
    ensures
        r.env.map.get(addressed(c)) == c.pop().pop().top(),
        forall|q: Position| q != addressed(c) ==> #[trigger] r.env.map.get(q) == e.map.get(q),
        r.cursor == c.pop().pop().pop(),
        r.status == StepStatus::Normal,
{
    lemma_plain_op(112, c, e, s);
    let p = addressed(c);
    let v = c.pop().pop().top();
    lemma_read_after_write(e.map, p, v);
    assert forall|q: Position| q != p implies #[trigger] r.env.map.get(q) == e.map.get(q) by {
        lemma_write_leaves_others(e.map, p, q, v);
    }
}

/// `g` pops `y` and `x` and pushes the cell at `(x, y)` shifted by the
/// storage offset.
pub proof fn law_get_reads<F: FloatUnit>(
    fl: F,
    depth: nat,
    c: CursorView,
    e: EnvView,
    s: Settings,
    r: Outcome,
    w: Choices,
)
    requires
        c.wf(),
        op_step(fl, depth, 103, c, e, s, r, w),
    ensures
        r.cursor == c.pop().pop().push(e.map.get(addressed(c))),
        r.env.map == e.map,
        r.status == StepStatus::Normal,
{
    lemma_plain_op(103, c, e, s);
}

/// `g` reads back what `p` wrote: after `p` with `x` and `y` on the stack, a
/// `g` on the same `x` and `y` (with the same storage offset) pushes the
/// value that `p` popped.
pub proof fn law_put_then_get<F: FloatUnit>(
    fl: F,
    depth: nat,
    c: CursorView,
    e: EnvView,
    s: Settings,
    r1: Outcome,
    w1: Choices,
    c2: CursorView,
    r2: Outcome,
    w2: Choices,
)
    requires
        c.wf(),
        c2.wf(),
        e.map.wf(),
        addressed(c).0 >= 0,
        addressed(c).1 >= 0,
        op_step(fl, depth, 112, c, e, s, r1, w1),
        c2.top() == c.top(),
        c2.pop().top() == c.pop().top(),
        c2.storage_offset == c.storage_offset,
        op_step(fl, depth, 103, c2, r1.env, s, r2, w2),
    ensures
        r2.cursor.top() == c.pop().pop().top(),
{
    law_put_writes(fl, depth, c, e, s, r1, w1);
    law_get_reads(fl, depth, c2, r1.env, s, r2, w2);
    assert(addressed(c2) == addressed(c));
    assert(r2.cursor.toss().last() == r1.env.map.get(addressed(c)));
}

/// A cursor instruction's outcome, by `cursor_op`, for the laws below.
proof fn lemma_cursor_instruction<F: FloatUnit>(
    fl: F,
    depth: nat,
    op: u8,
    c: CursorView,
    e: EnvView,
    s: Settings,
    r: Outcome,
    w: Choices,
)
    requires
        op_step(fl, depth, op, c, e, s, r, w),
        op != 63 && op != 121 && op != 107 && op != 40 && op != 41 && !(65 <= op <= 90),
    ensures
        crate::befunge98::semantics::is_cursor_op(op) ==> r == cursor_op(op, c, e, s),
{
    lemma_plain_op(op, c, e, s);
}

/// `_` pops a value and heads east for 0, west otherwise; `|` heads south
/// for 0, north otherwise.
pub proof fn law_branches<F: FloatUnit>(
    fl: F,
    depth: nat,
    op: u8,
    c: CursorView,
    e: EnvView,
    s: Settings,
    r: Outcome,
    w: Choices,
)
    requires
        op == 95 || op == 124,
        op_step(fl, depth, op, c, e, s, r, w),
    ensures
        op == 95 ==> r.cursor.direction == if c.top() == 0 {
            Direction(1, 0)
        } else {
            Direction(-1i64, 0)
        },
        op == 124 ==> r.cursor.direction == if c.top() == 0 {
            Direction(0, 1)
        } else {
            Direction(0, -1i64)
        },
        r.cursor.stacks == c.pop().stacks,
        r.cursor.position == c.position,
        r.env == e,
        r.status == StepStatus::Normal,
{
    lemma_cursor_instruction(fl, depth, op, c, e, s, r, w);
    reveal(cursor_op);
}

/// `>`, `<`, `^` and `v` head east, west, north and south; `r` reverses;
/// `[` and `]` turn a quarter left and right. The stacks do not change.
pub proof fn law_turns<F: FloatUnit>(
    fl: F,
    depth: nat,
    op: u8,
    c: CursorView,
    e: EnvView,
    s: Settings,
    r: Outcome,
    w: Choices,
)
    requires
        op == 62 || op == 60 || op == 94 || op == 118 || op == 114 || op == 91 || op == 93,
        op_step(fl, depth, op, c, e, s, r, w),
    ensures
        op == 62 ==> r.cursor.direction == Direction(1, 0),
        op == 60 ==> r.cursor.direction == Direction(-1i64, 0),
        op == 94 ==> r.cursor.direction == Direction(0, -1i64),
        op == 118 ==> r.cursor.direction == Direction(0, 1),
        op == 114 ==> r.cursor.direction == Direction(wrap(-c.direction.0), wrap(-c.direction.1)),
        op == 91 ==> r.cursor.direction == Direction(c.direction.1, wrap(-c.direction.0)),
        op == 93 ==> r.cursor.direction == Direction(wrap(-c.direction.1), c.direction.0),
        r.cursor.stacks == c.stacks,
        r.cursor.position == c.position,
        r.env == e,
        r.status == StepStatus::Normal,
{
    lemma_cursor_instruction(fl, depth, op, c, e, s, r, w);
    reveal(cursor_op);
}

/// `w` pops `a` then `b`: it turns left when `a > b`, right when `a < b`,
/// and keeps its direction when they are equal.
pub proof fn law_compare<F: FloatUnit>(
    fl: F,
    depth: nat,
    c: CursorView,
    e: EnvView,
    s: Settings,
    r: Outcome,
    w: Choices,
)
    requires
        op_step(fl, depth, 119, c, e, s, r, w),
    ensures
        ({
            let a = c.top();
            let b = c.pop().top();
            let d = c.direction;
            &&& a > b ==> r.cursor.direction == Direction(d.1, wrap(-d.0))
            &&& a < b ==> r.cursor.direction == Direction(wrap(-d.1), d.0)
            &&& a == b ==> r.cursor.direction == d
            &&& r.cursor.stacks == c.pop().pop().stacks
        }),
        r.env == e,
        r.status == StepStatus::Normal,
{
    lemma_cursor_instruction(fl, depth, 119, c, e, s, r, w);
    reveal(cursor_op);
}

/// `x` pops `y` then `x` and makes `(x, y)` the direction.
pub proof fn law_absolute_delta<F: FloatUnit>(
    fl: F,
    depth: nat,
    c: CursorView,
    e: EnvView,
    s: Settings,
    r: Outcome,
    w: Choices,
)
    requires
        op_step(fl, depth, 120, c, e, s, r, w),
    ensures
        r.cursor.direction == Direction(c.pop().top(), c.top()),
        r.cursor.stacks == c.pop().pop().stacks,
        r.env == e,
{
    lemma_cursor_instruction(fl, depth, 120, c, e, s, r, w);
    reveal(cursor_op);
}

/// The stack of a cursor whose top stack is `t` with `v` pushed.
pub open spec fn pushed(c: CursorView, t: Seq<Value>, v: Value) -> bool {
    c.toss() == t.push(v)
}

/// The two-operand instructions pop `a`, then `b`, and push: `+` the
/// wrapped sum, `-` the wrapped difference `b - a`, `*` the wrapped
/// product, `/` the quotient rounded toward zero (0 for `a == 0`), `%` the
/// remainder with the sign of `b` (0 for `a == 0`), and `` ` `` 1 when
/// `b > a`, else 0.
pub proof fn law_arithmetic<F: FloatUnit>(
    fl: F,
    depth: nat,
    op: u8,
    c: CursorView,
    e: EnvView,
    s: Settings,
    r: Outcome,
    w: Choices,
)
    requires
        c.wf(),
        op == 43 || op == 45 || op == 42 || op == 47 || op == 37 || op == 96,
        op_step(fl, depth, op, c, e, s, r, w),
    ensures
        ({
            let a = c.top();
            let b = c.pop().top();
            let rest = c.pop().pop().toss();
            &&& op == 43 ==> pushed(r.cursor, rest, wrap(b + a))
            &&& op == 45 ==> pushed(r.cursor, rest, wrap(b - a))
            &&& op == 42 ==> pushed(r.cursor, rest, wrap(b * a))
            &&& op == 47 ==> pushed(
                r.cursor,
                rest,
                if a == 0 {
                    0
                } else {
                    wrap(trunc_div(b as int, a as int))
                },
            )
            &&& op == 37 ==> pushed(
                r.cursor,
                rest,
                if a == 0 {
                    0
                } else {
                    wrap(trunc_rem(b as int, a as int))
                },
            )
            &&& op == 96 ==> pushed(
                r.cursor,
                rest,
                if b > a {
                    1
                } else {
                    0
                },
            )
            &&& r.cursor.stacks.len() == c.stacks.len()
        }),
        r.env == e,
        r.status == StepStatus::Normal,
{
    lemma_cursor_instruction(fl, depth, op, c, e, s, r, w);
    reveal(cursor_op);
}

/// `!` pushes 1 for a popped 0 and 0 otherwise; `:` pushes the popped value
/// twice; `\` swaps the top two; `$` drops the top; a digit pushes its
/// value, and `a` to `f` push 10 to 15.
pub proof fn law_stack_instructions<F: FloatUnit>(
    fl: F,
    depth: nat,
    op: u8,
    c: CursorView,
    e: EnvView,
    s: Settings,
    r: Outcome,
    w: Choices,
)
    requires
        c.wf(),
        op == 33 || op == 58 || op == 92 || op == 36 || (48 <= op <= 57) || (97 <= op <= 102),
        op_step(fl, depth, op, c, e, s, r, w),
    ensures
        ({
            let a = c.top();
            let b = c.pop().top();
            &&& op == 33 ==> pushed(
                r.cursor,
                c.pop().toss(),
                if a == 0 {
                    1
                } else {
                    0
                },
            )
            &&& op == 58 ==> r.cursor.toss() == c.pop().toss().push(a).push(a)
            &&& op == 92 ==> r.cursor.toss() == c.pop().pop().toss().push(a).push(b)
            &&& op == 36 ==> r.cursor.toss() == c.pop().toss()
            &&& 48 <= op <= 57 ==> pushed(r.cursor, c.toss(), (op - 48) as Value)
            &&& 97 <= op <= 102 ==> pushed(r.cursor, c.toss(), (op - 87) as Value)
            &&& r.cursor.stacks.len() == c.stacks.len()
            &&& r.cursor.direction == c.direction
        }),
        r.env == e,
        r.status == StepStatus::Normal,
{
    lemma_cursor_instruction(fl, depth, op, c, e, s, r, w);
    reveal(cursor_op);
}

/// A push after a pop lands on the popped top stack.
proof fn lemma_push_on_popped(c: CursorView, v: Value)
    requires
        c.wf(),
    ensures
        c.pop().push(v).toss() == c.pop().toss().push(v),
{
}

/// Once BOOL's letters stand for its instructions, `A`, `O` and `X` pop `a`
/// and `b` and push `a & b`, `a | b` and `a ^ b`, and `N` pops `a` and
/// pushes its complement; the state does not change.
pub proof fn law_bool<F: FloatUnit>(
    fl: F,
    letter: u8,
    c: CursorView,
    e: EnvView,
    r: Outcome,
    w: Choices,
)
    requires
        c.wf(),
        letter == 97 || letter == 110 || letter == 111 || letter == 120,
        fingerprint_step(fl, FingerprintName::Bool, letter, c, e, r, w),
    ensures
        ({
            let a = c.top();
            let b = c.pop().top();
            let rest = c.pop().pop().toss();
            &&& letter == 97 ==> pushed(r.cursor, rest, a & b)
            &&& letter == 111 ==> pushed(r.cursor, rest, a | b)
            &&& letter == 120 ==> pushed(r.cursor, rest, a ^ b)
            &&& letter == 110 ==> pushed(r.cursor, c.pop().toss(), !a)
            &&& r.cursor.direction == c.direction
        }),
        r.env == e,
        r.status == StepStatus::Normal,
{
    let a = c.top();
    let b = c.pop().top();
    if letter == 110 {
        lemma_push_on_popped(c, !a);
    } else {
        let v = if letter == 97 { a & b } else if letter == 111 { a | b } else { a ^ b };
        assert(r.cursor == c.pop().pop().push(v));
        assert(c.pop().pop().push(v).toss() == c.pop().pop().toss().push(v));
    }
}

/// Loading BOOL (the number that reads "BOOL" in base 256) makes `A`, `N`,
/// `O` and `X` stand for BOOL's `a`, `n`, `o` and `x` and leaves the other
/// letters as they were.
pub proof fn law_bool_loaded(fs: Seq<Seq<FingerprintFunction>>, clock: bool)
    requires
        fs.len() == 26,
    ensures
        loadable(0x424F_4F4C, clock) is Some,
        ({
            let l = with_loaded(fs, loadable(0x424F_4F4C, clock).unwrap());
            &&& l.len() == 26
            &&& forall|i: int|
                0 <= i < 26 ==> #[trigger] l[i] == if i == 0 || i == 13 || i == 14 || i == 23 {
                    fs[i].push(FingerprintFunction::Op { fingerprint: FingerprintName::Bool, letter: (i + 97) as u8 })
                } else {
                    fs[i]
                }
            &&& current(l[14]) == FingerprintFunction::Op { fingerprint: FingerprintName::Bool, letter: 111 }
        }),
{
    let t = boolean::letters_table();
    let letters = seq![97u8, 110, 111, 120];
    assert forall|i: int| 0 <= i < 26 implies (#[trigger] t[i]) == if i == 0 || i == 13 || i == 14 || i == 23 {
        Some(FingerprintFunction::Op { fingerprint: FingerprintName::Bool, letter: (i + 97) as u8 })
    } else {
        None
    } by {
        if i == 0 || i == 13 || i == 14 || i == 23 {
            let j: int = if i == 0 { 0 } else if i == 13 { 1 } else if i == 14 { 2 } else { 3 };
            assert(letters[j] == (i + 97) as u8);
        } else {
            assert forall|j: int| 0 <= j < 4 implies letters[j] != (i + 97) as u8 by {}
        }
    }
}

/// Once ROMA's letters stand for its instructions, `I`, `V`, `X`, `L`,
/// `C`, `D` and `M` push 1, 5, 10, 50, 100, 500 and 1000.
pub proof fn law_roma<F: FloatUnit>(
    fl: F,
    letter: u8,
    c: CursorView,
    e: EnvView,
    r: Outcome,
    w: Choices,
)
    requires
        c.wf(),
        fingerprint_step(fl, FingerprintName::Roma, letter, c, e, r, w),
    ensures
        letter == 105 ==> pushed(r.cursor, c.toss(), 1),
        letter == 118 ==> pushed(r.cursor, c.toss(), 5),
        letter == 120 ==> pushed(r.cursor, c.toss(), 10),
        letter == 108 ==> pushed(r.cursor, c.toss(), 50),
        letter == 99 ==> pushed(r.cursor, c.toss(), 100),
        letter == 100 ==> pushed(r.cursor, c.toss(), 500),
        letter == 109 ==> pushed(r.cursor, c.toss(), 1000),
        r.env == e,
{
}

/// Once MODU's letters stand for its instructions, for a non-zero `a`
/// (popped first) and `b`: `R` pushes the remainder of `b / a` rounded
/// toward zero, `U` its magnitude, and `M` that remainder when `a` and `b`
/// have the same sign and its negation otherwise; a zero `a` gives 0.
pub proof fn law_modu<F: FloatUnit>(
    fl: F,
    letter: u8,
    c: CursorView,
    e: EnvView,
    r: Outcome,
    w: Choices,
)
    requires
        c.wf(),
        letter == 109 || letter == 117 || letter == 114,
        !(c.pop().top() == i64::MIN && c.top() == -1),
        fingerprint_step(fl, FingerprintName::Modu, letter, c, e, r, w),
    ensures
        ({
            let a = c.top();
            let b = c.pop().top();
            let m = trunc_rem(b as int, a as int);
            let rest = c.pop().pop().toss();
            &&& a == 0 ==> pushed(r.cursor, rest, 0)
            &&& a != 0 && letter == 114 ==> r.cursor.toss() == rest.push((if (b < 0) == (m < 0) { m } else { -m }) as Value)
            &&& a != 0 && letter == 117 ==> r.cursor.toss() == rest.push((if m < 0 { -m } else { m }) as Value)
            &&& a != 0 && letter == 109 ==> r.cursor.toss() == rest.push((if (a < 0) == (b < 0) { m } else { -m }) as Value)
        }),
        r.env == e,
{
}

/// `#` jumps over the next cell, and `'` pushes the next cell's value and
/// jumps over it: the cursor lands two cells along its path. `s` pops a
/// value, writes it into the next cell and jumps over that cell too (along
/// the program's bounds as that write leaves them).
pub proof fn law_next_cell<F: FloatUnit>(
    fl: F,
    depth: nat,
    op: u8,
    c: CursorView,
    e: EnvView,
    s: Settings,
    r: Outcome,
    w: Choices,
)
    requires
        c.wf(),
        op == 35 || op == 39 || op == 115,
        op_step(fl, depth, op, c, e, s, r, w),
    ensures
        ({
            let max = e.map.max_size;
            let p1 = next_position(c.position, c.direction, max);
            let p2 = next_position(p1, c.direction, max);
            &&& op == 35 ==> r.cursor == c.at(p2) && r.env.map == e.map
            &&& op == 39 ==> r.cursor == c.push(e.map.get(p1)).at(p2) && r.env.map == e.map
            &&& op == 115 ==> r.cursor == c.pop().at(next_position(p1, c.direction, r.env.map.max_size))
                && r.env.map == e.map.set(p1, c.top())
            &&& r.env.output == e.output
            &&& r.status == StepStatus::NormalNoStep
        }),
{
    lemma_plain_op(op, c, e, s);
}

/// `{` with a count `n` opens a block: the stacks grow by one; for `0 <= n`
/// the new top stack holds the top `n` cells of the old one, in order (zeros
/// below them where it held fewer), for `n < 0` it is empty and `-n` zeros
/// go onto the old one; the old top stack, without those cells, then
/// carries the storage offset (`x` on top of `y`); the storage offset
/// becomes the next cell along the path; the stacks below are untouched.
pub proof fn law_begin_block<F: FloatUnit>(
    fl: F,
    depth: nat,
    c: CursorView,
    e: EnvView,
    s: Settings,
    r: Outcome,
    w: Choices,
)
    requires
        c.wf(),
        op_step(fl, depth, 123, c, e, s, r, w),
    ensures
        ({
            let n = c.top();
            let t = c.pop().toss();
            let o = c.storage_offset;
            let len = t.len() as int;
            &&& r.cursor.stacks.len() == c.stacks.len() + 1
            &&& r.cursor.stacks.subrange(0, c.stacks.len() - 1) == c.stacks.subrange(
                0,
                c.stacks.len() - 1,
            )
            &&& 0 <= n <= len ==> r.cursor.toss() == t.subrange(len - n, len)
                && r.cursor.soss() == t.subrange(0, len - n).push(o.1).push(o.0)
            &&& n > len ==> r.cursor.toss() == Seq::new((n - len) as nat, |i: int| 0 as Value) + t
                && r.cursor.soss() == seq![o.1, o.0]
            &&& n < 0 ==> r.cursor.toss() == Seq::<Value>::empty()
                && r.cursor.soss() == (t + Seq::new((-n) as nat, |i: int| 0 as Value)).push(o.1).push(o.0)
            &&& r.cursor.storage_offset == next_position(c.position, c.direction, e.map.max_size)
            &&& r.cursor.position == c.position
            &&& r.cursor.direction == c.direction
        }),
        r.env == e,
        r.status == StepStatus::Normal,
{
    lemma_plain_op(123, c, e, s);
    reveal(crate::befunge98::semantics::plain_op);
    let n = c.top();
    let t = c.pop().toss();
    let len = t.len() as int;
    let c1 = c.pop();
    let c2 = CursorView { stacks: c1.stacks.push(Seq::empty()), ..c1 };
    assert(c2.soss() == t);
    assert(c2.toss() == Seq::<Value>::empty());
    let c3 = transfer_to_toss(c2, n);
    assert(c3.stacks.len() == c.stacks.len() + 1);
    assert(c3.stacks.subrange(0, c.stacks.len() - 1) =~= c.stacks.subrange(0, c.stacks.len() - 1));
    if 0 <= n <= len {
        assert(c3.toss() =~= t.subrange(len - n, len));
        assert(c3.soss() =~= t.subrange(0, len - n));
    } else if n > len {
        assert(c3.toss() =~= Seq::new((n - len) as nat, |i: int| 0 as Value) + t);
        assert(c3.soss() =~= Seq::<Value>::empty());
        assert(c3.soss().push(c.storage_offset.1).push(c.storage_offset.0) =~= seq![c.storage_offset.1, c.storage_offset.0]);
    } else {
        assert(c3.toss() =~= Seq::<Value>::empty());
        assert(c3.soss() =~= t + Seq::new((-n) as nat, |i: int| 0 as Value));
    }
}

/// `}` with a count `n`, where a second stack holds the two cells of a
/// storage offset: the offset is taken back from it (`x` on top), the top
/// stack is dropped, and for `0 <= n` its top `n` cells (all of them,
/// with zeros below, where it holds fewer) go onto the second stack in
/// order; for `n < 0`, `-n` more cells are dropped off the second stack.
/// The stacks below are untouched. Without a second stack, `}` fails.
pub proof fn law_end_block<F: FloatUnit>(
    fl: F,
    depth: nat,
    c: CursorView,
    e: EnvView,
    s: Settings,
    r: Outcome,
    w: Choices,
)
    requires
        c.wf(),
        op_step(fl, depth, 125, c, e, s, r, w),
    ensures
        c.stacks.len() < 2 ==> r.status == StepStatus::Error("no soss?"),
        ({
            let n = c.top();
            let t = c.pop().toss();
            let so = c.pop().soss();
            let rest = so.subrange(0, so.len() - 2);
            let k = c.stacks.len();
            let tl = t.len() as int;
            k >= 2 && so.len() >= 2 ==> {
                &&& r.status == StepStatus::Normal
                &&& r.cursor.storage_offset == (so[so.len() - 1], so[so.len() - 2])
                &&& r.cursor.stacks.len() == k - 1
                &&& r.cursor.stacks.subrange(0, k - 2) == c.stacks.subrange(0, k - 2)
                &&& 0 <= n <= tl ==> r.cursor.toss() == rest + t.subrange(tl - n, tl)
                &&& n > tl ==> r.cursor.toss() == rest + Seq::new((n - tl) as nat, |i: int| 0 as Value) + t
                &&& n < 0 ==> r.cursor.toss() == rest.subrange(0, if rest.len() + n < 0 { 0 } else { rest.len() + n })
                &&& r.cursor.position == c.position
                &&& r.cursor.direction == c.direction
            }
        }),
        r.env == e,
{
    lemma_plain_op(125, c, e, s);
    reveal(crate::befunge98::semantics::plain_op);
    let n = c.top();
    let c1 = c.pop();
    let k = c.stacks.len();
    if k >= 2 && c1.soss().len() >= 2 {
        let so = c1.soss();
        let t = c1.toss();
        let tl = t.len() as int;
        let rest = so.subrange(0, so.len() - 2);
        assert(popped(popped(so)) =~= rest);
        let c2 = CursorView { storage_offset: (top(so), top(popped(so))), ..c1.with_soss(popped(popped(so))) };
        assert(c2.soss() == rest);
        assert(c2.toss() == t);
        let c3 = transfer_to_soss(c2, n);
        let c4 = CursorView { stacks: c3.stacks.drop_last(), ..c3 };
        assert(c4.stacks.len() == k - 1);
        assert(c4.stacks.subrange(0, k - 2) =~= c.stacks.subrange(0, k - 2));
        assert(c4.toss() == c3.soss());
        if 0 <= n <= tl {
            assert(c3.soss() =~= rest + t.subrange(tl - n, tl));
        } else if n > tl {
            assert(c3.soss() =~= rest + Seq::new((n - tl) as nat, |i: int| 0 as Value) + t);
        }
    }
}

/// Repeating a digit instruction pushes its value once per repetition.
proof fn lemma_repeated_digit<F: FloatUnit>(
    fl: F,
    depth: nat,
    op: u8,
    s: Settings,
    cursors: Seq<CursorView>,
    envs: Seq<EnvView>,
    statuses: Seq<crate::befunge98::StepStatus>,
    inner: Seq<Choices>,
)
    requires
        48 <= op <= 57,
        cursors.len() == statuses.len() + 1,
        envs.len() == statuses.len() + 1,
        inner.len() == statuses.len(),
        cursors[0].wf(),
        crate::befunge98::semantics::repetitions(fl, depth, op, s, cursors, envs, statuses, inner),
    ensures
        cursors.last().wf(),
        cursors.last().stacks.len() == cursors[0].stacks.len(),
        cursors.last().toss() == cursors[0].toss() + Seq::new(
            statuses.len(),
            |i: int| (op - 48) as Value,
        ),
    decreases statuses.len(),
{
    let k = statuses.len();
    if k > 0 {
        let j = k - 1;
        lemma_repeated_digit(
            fl,
            depth,
            op,
            s,
            cursors.drop_last(),
            envs.drop_last(),
            statuses.drop_last(),
            inner.drop_last(),
        );
        let c = cursors[j];
        assert(c == cursors.drop_last().last());
        assert(crate::befunge98::semantics::repetition(
            fl,
            depth,
            op,
            c,
            envs[j],
            s,
            cursors[j + 1],
            envs[j + 1],
            statuses[j],
            inner[j],
        ));
        lemma_cursor_instruction(
            fl,
            depth,
            op,
            c,
            envs[j],
            s,
            Outcome { cursor: cursors[j + 1], env: envs[j + 1], status: statuses[j] },
            inner[j],
        );
        reveal(cursor_op);
        let d = (op - 48) as Value;
        assert(cursors[j + 1] == c.push(d));
        lemma_push_on_top(c, d);
        assert(cursors[0].toss() + Seq::new(k, |i: int| d) =~= (cursors[0].toss() + Seq::new(
            j as nat,
            |i: int| d,
        )).push(d));
    } else {
        assert(cursors[0].toss() + Seq::new(0, |i: int| (op - 48) as Value) =~= cursors[0].toss());
    }
}

/// A push lands on the top stack and keeps the cursor whole.
proof fn lemma_push_on_top(c: CursorView, v: Value)
    requires
        c.wf(),
    ensures
        c.push(v).wf(),
        c.push(v).stacks.len() == c.stacks.len(),
        c.push(v).toss() == c.toss().push(v),
{
}

/// `k` with a positive count `n` repeats the instruction in the next cell
/// `n + 1` times and lands on that cell: where that cell holds a digit, the
/// digit's value is pushed `n + 1` times.
pub proof fn law_iterate_repeats<F: FloatUnit>(
    fl: F,
    depth: nat,
    c: CursorView,
    e: EnvView,
    s: Settings,
    r: Outcome,
    w: Choices,
)
    requires
        c.wf(),
        depth > 0,
        0 < c.top() < i64::MAX,
        48 <= e.map.get(next_position(c.position, c.direction, e.map.max_size)) <= 57,
        op_step(fl, depth, 107, c, e, s, r, w),
    ensures
        ({
            let p1 = next_position(c.position, c.direction, e.map.max_size);
            let d = e.map.get(p1) - 48;
            &&& r.cursor.toss() == c.pop().toss() + Seq::new((c.top() + 1) as nat, |i: int| d as Value)
            &&& r.cursor.stacks.len() == c.stacks.len()
            &&& r.cursor.position == p1
            &&& r.status == StepStatus::Normal
        }),
{
    let c1 = c.pop();
    let p1 = next_position(c.position, c.direction, e.map.max_size);
    let v = e.map.get(p1);
    assert(crate::befunge98::semantics::scan(
        c1.position,
        c1.direction,
        e.map,
        crate::befunge98::SPACE,
        false,
        crate::befunge98::semantics::FUEL as nat,
    ) == p1);
    let n = crate::befunge98::semantics::repeat_count(c.top());
    match w {
        Choices::Repeat { cursors, envs, statuses, inner } => {
            lemma_repeated_digit(fl, (depth - 1) as nat, v as u8, s, cursors, envs, statuses, inner);
            assert(cursors.last() == cursors[n as int]);
            assert(Seq::new(n, |i: int| ((v as u8) - 48) as Value) =~= Seq::new(
                (c.top() + 1) as nat,
                |i: int| (v - 48) as Value,
            ));
        },
        _ => {},
    }
}

/// FING's `X` pops two letters (a cell from 0 to 25 or the code of `A` to
/// `Z`) and swaps what they stand for, `Y` pops one and makes it forget
/// its latest meaning, and `Z` pops `a` then `b` and makes `a` stand for
/// what `b` stands for; other letters keep their meanings. A cell that names
/// no letter reflects.
pub proof fn law_fing<F: FloatUnit>(
    fl: F,
    letter: u8,
    c: CursorView,
    e: EnvView,
    r: Outcome,
    w: Choices,
)
    requires
        c.wf(),
        letter == 120 || letter == 121 || letter == 122,
        fingerprint_step(fl, FingerprintName::Fing, letter, c, e, r, w),
    ensures
        r.env == e,
        r.status == StepStatus::Normal,
        semantic_index(c.top()) is None ==> r.cursor == c.pop().facing(
            Direction(wrap(-c.direction.0), wrap(-c.direction.1)),
        ),
        ({
            let fs = c.fingerprints;
            let rf = r.cursor.fingerprints;
            &&& letter == 121 ==> (semantic_index(c.top()) matches Some(i) ==> {
                &&& rf[i] == without_top(fs[i])
                &&& forall|j: int| 0 <= j < 26 && j != i ==> #[trigger] rf[j] == fs[j]
                &&& r.cursor.stacks == c.pop().stacks
            })
            &&& letter == 120 ==> (semantic_index(c.top()) matches Some(i) ==> (semantic_index(
                c.pop().top(),
            ) matches Some(k) ==> i != k ==> {
                &&& current(rf[i]) == current(fs[k])
                &&& current(rf[k]) == current(fs[i])
                &&& forall|j: int| 0 <= j < 26 && j != i && j != k ==> #[trigger] rf[j] == fs[j]
                &&& r.cursor.stacks == c.pop().pop().stacks
            }))
            &&& letter == 122 ==> (semantic_index(c.top()) matches Some(i) ==> (semantic_index(
                c.pop().top(),
            ) matches Some(k) ==> {
                &&& rf[i] == fs[i].push(current(fs[k]))
                &&& forall|j: int| 0 <= j < 26 && j != i ==> #[trigger] rf[j] == fs[j]
                &&& r.cursor.stacks == c.pop().pop().stacks
            }))
        }),
{
}

/// `?` turns the cursor east, west, north or south, and changes nothing else.
pub proof fn law_random_turn<F: FloatUnit>(
    fl: F,
    depth: nat,
    c: CursorView,
    e: EnvView,
    s: Settings,
    r: Outcome,
    w: Choices,
)
    requires
        op_step(fl, depth, 63, c, e, s, r, w),
    ensures
        r.cursor.direction == Direction(1, 0) || r.cursor.direction == Direction(-1i64, 0)
            || r.cursor.direction == Direction(0, 1) || r.cursor.direction == Direction(0, -1i64),
        r.cursor == c.facing(r.cursor.direction),
        r.env == e,
        r.status == StepStatus::Normal,
{
}

/// `k` with a negative count repeats nothing: where the next cell holds an
/// instruction, the cursor, without the count, lands on it, and nothing else
/// changes.
pub proof fn law_iterate_negative<F: FloatUnit>(
    fl: F,
    depth: nat,
    c: CursorView,
    e: EnvView,
    s: Settings,
    r: Outcome,
    w: Choices,
)
    requires
        c.wf(),
        depth > 0,
        c.top() < 0,
        e.map.get(next_position(c.position, c.direction, e.map.max_size)) != crate::befunge98::SPACE,
        op_step(fl, depth, 107, c, e, s, r, w),
    ensures
        r.cursor == c.pop().at(next_position(c.position, c.direction, e.map.max_size)),
        r.env == e,
        r.status == StepStatus::Normal,
{
    let c1 = c.pop();
    let p1 = next_position(c.position, c.direction, e.map.max_size);
    assert(crate::befunge98::semantics::scan(
        c1.position,
        c1.direction,
        e.map,
        crate::befunge98::SPACE,
        false,
        crate::befunge98::semantics::FUEL as nat,
    ) == p1);
}

/// `j` pops a count `n`: for `0 <= n` (below the largest) the cursor moves
/// `n + 1` cells along its path, so that the tick's own step is not taken
/// and `n` cells are jumped over; for `-2 <= n < 0` it stays; for `n < -2`
/// it moves `-2 - n` cells backward. Its direction does not change.
pub proof fn law_jump<F: FloatUnit>(
    fl: F,
    depth: nat,
    c: CursorView,
    e: EnvView,
    s: Settings,
    r: Outcome,
    w: Choices,
)
    requires
        c.wf(),
        op_step(fl, depth, 106, c, e, s, r, w),
    ensures
        ({
            let n = c.top();
            let max = e.map.max_size;
            let d = c.direction;
            &&& 0 <= n < i64::MAX ==> r.cursor.position == advance(c.position, d, max, (n + 1) as nat)
            &&& n == 0 ==> r.cursor.position == next_position(c.position, d, max)
            &&& -2 <= n < 0 ==> r.cursor.position == c.position
            &&& n < -2 ==> r.cursor.position == advance(
                c.position,
                Direction(wrap(-d.0), wrap(-d.1)),
                max,
                (-2 - n) as nat,
            )
            &&& r.cursor == c.pop().at(r.cursor.position)
        }),
        r.env == e,
        r.status == StepStatus::NormalNoStep,
{
    lemma_plain_op(106, c, e, s);
    let n = c.top();
    if n == 0 {
        assert(advance(c.position, c.direction, e.map.max_size, 1) == next_position(
            advance(c.position, c.direction, e.map.max_size, 0),
            c.direction,
            e.map.max_size,
        ));
    }
}

/// `n` empties the top stack and changes nothing else.
pub proof fn law_clear<F: FloatUnit>(
    fl: F,
    depth: nat,
    c: CursorView,
    e: EnvView,
    s: Settings,
    r: Outcome,
    w: Choices,
)
    requires
        c.wf(),
        op_step(fl, depth, 110, c, e, s, r, w),
    ensures
        r.cursor.toss() == Seq::<Value>::empty(),
        r.cursor.stacks.len() == c.stacks.len(),
        r.cursor.stacks.subrange(0, c.stacks.len() - 1) == c.stacks.subrange(0, c.stacks.len() - 1),
        r.cursor == c.with_toss(Seq::empty()),
        r.env == e,
        r.status == StepStatus::Normal,
{
    lemma_cursor_instruction(fl, depth, 110, c, e, s, r, w);
    reveal(cursor_op);
    assert(r.cursor.stacks.subrange(0, c.stacks.len() - 1) =~= c.stacks.subrange(0, c.stacks.len() - 1));
}

/// The fingerprints that `(` can load, each by the number that its four
/// letters read in base 256, and the letters that each one defines: NULL
/// makes every letter reflect; ROMA defines C, D, I, L, M, V and X; BOOL
/// A, N, O and X; MODU M, U and R; REFC R and D; FING X, Y and Z; HRTI G,
/// M, T, E and S, where there is a clock. PIXL cannot be loaded.
pub proof fn law_fingerprint_letters(clock: bool)
    ensures
        loadable(0x4E55_4C4C, clock) == Some(
            Seq::new(26, |i: int| Some(FingerprintFunction::Reflect)),
        ),
        loadable(0x524F_4D41, clock) == Some(
            table(FingerprintName::Roma, seq![99u8, 100, 105, 108, 109, 118, 120]),
        ),
        loadable(0x424F_4F4C, clock) == Some(
            table(FingerprintName::Bool, seq![97u8, 110, 111, 120]),
        ),
        loadable(0x4D4F_4455, clock) == Some(
            table(FingerprintName::Modu, seq![109u8, 117, 114]),
        ),
        loadable(0x5245_4643, clock) == Some(table(FingerprintName::Refc, seq![114u8, 100])),
        loadable(0x4649_4E47, clock) == Some(
            table(FingerprintName::Fing, seq![120u8, 121, 122]),
        ),
        clock ==> loadable(0x4852_5449, clock) == Some(
            table(FingerprintName::Hrti, seq![103u8, 109, 116, 101, 115]),
        ),
        !clock ==> loadable(0x4852_5449, clock) is None,
        loadable(0x5049_584C, clock) is None,
{
}

/// The instruction `O`, while it stands for BOOL's `o` (as it does once
/// BOOL is loaded), pops `a` and `b` and pushes `a | b`; `A` and `X` likewise
/// push `a & b` and `a ^ b`.
pub proof fn law_bool_instructions<F: FloatUnit>(
    fl: F,
    depth: nat,
    op: u8,
    c: CursorView,
    e: EnvView,
    s: Settings,
    r: Outcome,
    w: Choices,
)
    requires
        c.wf(),
        op == 65 || op == 79 || op == 88,
        current(c.fingerprints[op - 65]) == (FingerprintFunction::Op {
            fingerprint: FingerprintName::Bool,
            letter: (op + 32) as u8,
        }),
        op_step(fl, depth, op, c, e, s, r, w),
    ensures
        ({
            let a = c.top();
            let b = c.pop().top();
            let rest = c.pop().pop().toss();
            &&& op == 65 ==> pushed(r.cursor, rest, a & b)
            &&& op == 79 ==> pushed(r.cursor, rest, a | b)
            &&& op == 88 ==> pushed(r.cursor, rest, a ^ b)
        }),
        r.env == e,
        r.status == StepStatus::Normal,
{
    law_bool(fl, (op + 32) as u8, c, e, r, w);
}

/// `u` with a count of 0 only pops the count; without a second stack, `u`
/// fails.
pub proof fn law_under_zero_or_alone<F: FloatUnit>(
    fl: F,
    depth: nat,
    c: CursorView,
    e: EnvView,
    s: Settings,
    r: Outcome,
    w: Choices,
)
    requires
        c.wf(),
        op_step(fl, depth, 117, c, e, s, r, w),
    ensures
        c.stacks.len() < 2 ==> r.status == StepStatus::Error("no soss?"),
        c.stacks.len() >= 2 && c.top() == 0 ==> r.cursor == c.pop() && r.status
            == StepStatus::Normal,
        r.env == e,
{
    lemma_plain_op(117, c, e, s);
    if c.stacks.len() >= 2 && c.top() == 0 {
        let c1 = c.pop();
        assert(c1.with_toss_and_soss(c1.toss(), c1.soss()).stacks =~= c1.stacks);
    }
}

/// `"` turns string mode on, and a space or `z` does nothing; neither
/// changes anything else.
pub proof fn law_string_and_nothing<F: FloatUnit>(
    fl: F,
    depth: nat,
    op: u8,
    c: CursorView,
    e: EnvView,
    s: Settings,
    r: Outcome,
    w: Choices,
)
    requires
        op == 34 || op == 32 || op == 122,
        op_step(fl, depth, op, c, e, s, r, w),
    ensures
        op == 34 ==> r.cursor == (CursorView { string_mode: true, ..c }),
        op != 34 ==> r.cursor == c,
        r.env == e,
        r.status == StepStatus::Normal,
{
    lemma_cursor_instruction(fl, depth, op, c, e, s, r, w);
    reveal(cursor_op);
}

} // verus!
