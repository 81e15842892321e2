//! What each instruction does, over the model of a cursor and of the shared
//! state.
use vstd::prelude::*;

use crate::befunge::StepStatus as TickStatus;
use crate::befunge::{Position, Value, trunc_div, trunc_rem, wrap};
use crate::befunge98::model::{
    CursorView, EnvView, moved, next_position, advance, popped, top, transfer_to_soss,
    transfer_to_toss,
};
use crate::befunge98::{Direction, FungeSpaceView, SPACE, StepStatus};
use crate::settings::{InvalidOperationBehaviour, Settings};
use crate::text::decimal;
use crate::befunge98::fingerprints::fing::{current, reflected, without_top};
use crate::befunge98::fingerprints::{FingerprintFunction, FingerprintName, FloatUnit, float_step, loadable};
use crate::befunge98::fingerprints::{bool as boolean, fing, modu, pixl, refc, roma};

verus! {

/// The version that `y` reports.
pub const VERSION: i64 = 100;

/// The handprint that `y` reports.
pub const HANDPRINT: i64 = 0x8B38669B;

/// How many steps a scan for a cell, or a glide over spaces, may take. No
/// machine finishes this many steps, so a scan that finds nothing runs as
/// long as the program is left running.
pub const FUEL: u64 = 0xffff_ffff_ffff_ffff;

/// How deep `k` may nest `k`. No machine has the stack for this many
/// levels.
pub const DEPTH: u64 = 0xffff_ffff_ffff_ffff;

/// A cursor and the shared state after an instruction, and what it
/// reported.
pub struct Outcome {
    pub cursor: CursorView,
    pub env: EnvView,
    pub status: StepStatus,
}

/// An outcome that reports `Normal`.
pub open spec fn normal(c: CursorView, e: EnvView) -> Outcome {
    Outcome { cursor: c, env: e, status: StepStatus::Normal }
}

/// The result of the two-operand arithmetic and comparison instructions on
/// `b` (the deeper operand) and `a` (the top one). Arithmetic wraps; a
/// division or remainder by zero gives 0.
pub open spec fn arith(op: u8, b: Value, a: Value) -> Value {
    if op == 43 {
        wrap(b + a)
    } else if op == 45 {
        wrap(b - a)
    } else if op == 42 {
        wrap(b * a)
    } else if op == 47 {
        if a == 0 {
            0
        } else {
            wrap(trunc_div(b as int, a as int))
        }
    } else if op == 37 {
        if a == 0 {
            0
        } else {
            wrap(trunc_rem(b as int, a as int))
        }
    } else {
        if b > a {
            1
        } else {
            0
        }
    }
}

/// Whether `op` is one of `+ - * / % \``.
pub open spec fn is_arith(op: u8) -> bool {
    op == 43 || op == 45 || op == 42 || op == 47 || op == 37 || op == 96
}

/// Pops `a`, then `b`, and pushes the result of `op` on them.
pub open spec fn binary(op: u8, c: CursorView) -> CursorView {
    let a = c.top();
    let c1 = c.pop();
    let b = c1.top();
    c1.pop().push(arith(op, b, a))
}

/// Whether a direction is one of the four that `?` picks from.
pub open spec fn is_cardinal(d: Direction) -> bool {
    d == Direction(0, -1i64) || d == Direction(0, 1) || d == Direction(1, 0) || d == Direction(-1i64, 0)
}

/// The first position, one step or more along the path from `pos`, whose
/// cell equals `v` (`equal`) or differs from it (`!equal`); after `fuel`
/// fruitless steps, where the path has led.
pub open spec fn scan(
    pos: Position,
    d: Direction,
    m: FungeSpaceView,
    v: Value,
    equal: bool,
    fuel: nat,
) -> Position
    decreases fuel,
{
    let p = next_position(pos, d, m.max_size);
    if (m.get(p) == v) == equal || fuel == 0 {
        p
    } else {
        scan(p, d, m, v, equal, (fuel - 1) as nat)
    }
}

/// How many leading characters of the input are decimal digits.
pub open spec fn digit_run(input: Seq<char>) -> nat
    decreases input.len(),
{
    if input.len() > 0 && '0' <= input[0] <= '9' {
        1 + digit_run(input.drop_first())
    } else {
        0
    }
}

/// The number of leading digits is the index of the first non-digit.
pub proof fn lemma_digit_run(input: Seq<char>, i: int)
    requires
        0 <= i <= input.len(),
        forall|j: int| 0 <= j < i ==> '0' <= #[trigger] input[j] <= '9',
        i == input.len() || !('0' <= input[i] <= '9'),
    ensures
        digit_run(input) == i,
    decreases i,
{
    if i > 0 {
        let rest = input.drop_first();
        assert forall|j: int| 0 <= j < i - 1 implies '0' <= #[trigger] rest[j] <= '9' by {
            assert(rest[j] == input[j + 1]);
        }
        lemma_digit_run(rest, i - 1);
    }
}

/// The number that decimal digits spell, wrapped as the interpreter
/// accumulates it.
pub open spec fn parse_digits(ds: Seq<char>) -> Value
    decreases ds.len(),
{
    if ds.len() == 0 {
        0
    } else {
        wrap(wrap(parse_digits(ds.drop_last()) * 10) + (ds.last() as int - 48))
    }
}

/// `&`: a number read from the input up to a space, which the space ends
/// and which is consumed with it; at the end of the input -1 (or a wait for
/// more); anything else in the way is an error.
pub open spec fn read_number(c: CursorView, e: EnvView, s: Settings) -> Outcome {
    let k = digit_run(e.input);
    if k == e.input.len() {
        if s.non_blocking_input {
            normal(c.push(-1i64), e)
        } else {
            Outcome { cursor: c, env: e, status: StepStatus::Breakpoint }
        }
    } else if e.input[k as int] == ' ' {
        normal(
            c.push(parse_digits(e.input.take(k as int))),
            EnvView { input: e.input.skip((k + 1) as int), ..e },
        )
    } else {
        Outcome { cursor: c, env: e, status: StepStatus::Error("Invalid input for Error::InvalidNumber") }
    }
}

/// `~`: a character read from the input; at its end -1 (or a wait).
pub open spec fn read_char(c: CursorView, e: EnvView, s: Settings) -> Outcome {
    if e.input.len() == 0 {
        if s.non_blocking_input {
            normal(c.push(-1i64), e)
        } else {
            Outcome { cursor: c, env: e, status: StepStatus::Breakpoint }
        }
    } else {
        normal(c.push(e.input[0] as u32 as Value), EnvView { input: e.input.drop_first(), ..e })
    }
}

/// The cells that `u` moves: `n` times the top of `from` onto `to` (a 0
/// from an empty `from`).
pub open spec fn shift(from: Seq<Value>, to: Seq<Value>, n: nat) -> (Seq<Value>, Seq<Value>)
    decreases n,
{
    if n == 0 {
        (from, to)
    } else {
        let (f, t) = shift(from, to, (n - 1) as nat);
        (popped(f), t.push(top(f)))
    }
}

/// `u`: cells moved between the top and second stacks, from the second for
/// a positive count, back to it for a negative one.
pub open spec fn stack_under(c: CursorView) -> Outcome {
    let count = c.top();
    let c1 = c.pop();
    if !c1.has_soss() {
        Outcome { cursor: c1, env: arbitrary(), status: StepStatus::Error("no soss?") }
    } else if count < 0 {
        let (t, s) = shift(c1.toss(), c1.soss(), (-count) as nat);
        Outcome { cursor: c1.with_toss_and_soss(t, s), env: arbitrary(), status: StepStatus::Normal }
    } else {
        let (s, t) = shift(c1.soss(), c1.toss(), count as nat);
        Outcome { cursor: c1.with_toss_and_soss(t, s), env: arbitrary(), status: StepStatus::Normal }
    }
}

/// The sizes of the stacks, top first.
pub open spec fn stack_sizes(stacks: Seq<Seq<Value>>) -> Seq<Value> {
    Seq::new(stacks.len(), |i: int| stacks[stacks.len() - 1 - i].len() as i64)
}

/// What `y` pushes, in order, for a cursor (after it popped the count).
pub open spec fn sysinfo(c: CursorView, max: (i64, i64), sep: char) -> Seq<Value> {
    seq![0, 0] + stack_sizes(c.stacks) + seq![
        c.stacks.len() as i64,
        0,
        0,
        max.0,
        max.1,
        0,
        0,
        c.storage_offset.0,
        c.storage_offset.1,
        c.direction.0,
        c.direction.1,
        c.position.0,
        c.position.1,
        0,
        0,
        2,
        sep as u32 as Value,
        0,
        VERSION,
        HANDPRINT,
        8,
        1,
    ]
}

/// `y`: the system information pushed; for a positive count only its
/// count-th cell from the top (counting what was on the stack below it),
/// or 0 past the bottom.
pub open spec fn sysinfo_cursor(c: CursorView, max: (i64, i64), sep: char) -> CursorView {
    let count = c.top();
    let c1 = c.pop();
    let full = c1.toss() + sysinfo(c1, max, sep);
    if count > 0 {
        let k = count as usize;
        let ret = if 1 <= k <= full.len() {
            full[full.len() - k]
        } else {
            0
        };
        c1.push(ret)
    } else {
        c1.with_toss(full)
    }
}

/// `{`: a new stack, with `count` cells moved onto it and the storage
/// offset saved under them; the storage offset becomes the next cell.
pub open spec fn begin_block(c: CursorView, max: (i64, i64)) -> CursorView {
    let count = c.top();
    let c1 = c.pop();
    let c2 = CursorView { stacks: c1.stacks.push(Seq::empty()), ..c1 };
    let c3 = transfer_to_toss(c2, count);
    let c4 = c3.with_soss(c3.soss().push(c.storage_offset.1).push(c.storage_offset.0));
    CursorView { storage_offset: next_position(c.position, c.direction, max), ..c4 }
}

/// `}`: the storage offset restored from the second stack, `count` cells
/// moved back onto it, and the top stack dropped; an error without a
/// second stack.
pub open spec fn end_block(c: CursorView) -> (CursorView, StepStatus) {
    let count = c.top();
    let c1 = c.pop();
    if !c1.has_soss() {
        (c1, StepStatus::Error("no soss?"))
    } else {
        let s = c1.soss();
        let x = top(s);
        let y = top(popped(s));
        let c2 = CursorView {
            storage_offset: (x, y),
            ..c1.with_soss(popped(popped(s)))
        };
        let c3 = transfer_to_soss(c2, count);
        (CursorView { stacks: c3.stacks.drop_last(), ..c3 }, StepStatus::Normal)
    }
}

/// How far `j` jumps: for a non-negative count, count + 1 steps forward (none
/// for the largest count, whose successor wraps); for a count below -2,
/// -2 - count steps backward.
pub open spec fn jump_cursor(c: CursorView, max: (i64, i64)) -> CursorView {
    let count = c.top();
    let c1 = c.pop();
    if count < 0 {
        let n = if count < -2 {
            -2 - count
        } else {
            0
        };
        c1.at(advance(c1.position, c1.direction.spec_reverse(), max, n as nat))
    } else {
        let n = if count == i64::MAX {
            0
        } else {
            count + 1
        };
        c1.at(advance(c1.position, c1.direction, max, n as nat))
    }
}

/// How many times `k` repeats its instruction: count + 1 for a
/// non-negative count (none for the largest), none otherwise.
pub open spec fn repeat_count(count: Value) -> nat {
    if count >= 0 && count < i64::MAX {
        (count + 1) as nat
    } else {
        0
    }
}

/// The instructions that work on the cursor alone, deterministically.
#[verifier::opaque]
pub open spec fn cursor_op(op: u8, c: CursorView, e: EnvView, s: Settings) -> Outcome {
    if op == 34 {
        // "
        normal(CursorView { string_mode: true, ..c }, e)
    } else if 48 <= op <= 57 {
        normal(c.push((op - 48) as Value), e)
    } else if is_arith(op) {
        normal(binary(op, c), e)
    } else if op == 92 {
        // \
        let a = c.top();
        let c1 = c.pop();
        let b = c1.top();
        normal(c1.pop().push(a).push(b), e)
    } else if op == 33 {
        // !
        normal(c.pop().push(if c.top() == 0 { 1 } else { 0 }), e)
    } else if op == 58 {
        // :
        normal(c.pop().push(c.top()).push(c.top()), e)
    } else if op == 36 {
        // $
        normal(c.pop(), e)
    } else if op == 62 {
        normal(c.facing(Direction(1, 0)), e)
    } else if op == 60 {
        normal(c.facing(Direction(-1i64, 0)), e)
    } else if op == 94 {
        normal(c.facing(Direction(0, -1i64)), e)
    } else if op == 118 {
        normal(c.facing(Direction(0, 1)), e)
    } else if op == 95 {
        // _
        normal(c.pop().facing(if c.top() == 0 { Direction(1, 0) } else { Direction(-1i64, 0) }), e)
    } else if op == 124 {
        // |
        normal(c.pop().facing(if c.top() == 0 { Direction(0, 1) } else { Direction(0, -1i64) }), e)
    } else if op == 91 {
        normal(c.facing(c.direction.spec_turn_left()), e)
    } else if op == 93 {
        normal(c.facing(c.direction.spec_turn_right()), e)
    } else if 97 <= op <= 102 {
        normal(c.push((op - 87) as Value), e)
    } else if op == 110 {
        // n
        normal(c.with_toss(Seq::empty()), e)
    } else if op == 114 {
        normal(c.facing(c.direction.spec_reverse()), e)
    } else if op == 119 {
        // w
        let a = c.top();
        let c1 = c.pop();
        let b = c1.top();
        let c2 = c1.pop();
        normal(
            if a > b {
                c2.facing(c.direction.spec_turn_left())
            } else if a < b {
                c2.facing(c.direction.spec_turn_right())
            } else {
                c2
            },
            e,
        )
    } else if op == 120 {
        // x
        let y = c.top();
        let c1 = c.pop();
        let x = c1.top();
        normal(c1.pop().facing(Direction(x, y)), e)
    } else if op == 32 || op == 122 {
        normal(c, e)
    } else {
        Outcome { cursor: c, env: e, status: StepStatus::Error("Invalid operation") }
    }
}

/// Whether `op` is one of the instructions of `cursor_op`.
pub open spec fn is_cursor_op(op: u8) -> bool {
    op == 34 || (48 <= op <= 57) || is_arith(op) || op == 92 || op == 33 || op == 58 || op == 36
        || op == 62 || op == 60 || op == 94 || op == 118 || op == 95 || op == 124 || op == 91
        || op == 93 || (97 <= op <= 102) || op == 110 || op == 114 || op == 119 || op == 120
        || op == 32 || op == 122
}

/// `p`: a cell written at the popped position (shifted by the storage
/// offset), with the popped value under it.
pub open spec fn put_op(c: CursorView, e: EnvView, s: Settings) -> Outcome {
    let y = wrap(c.top() + c.storage_offset.1);
    let c1 = c.pop();
    let x = wrap(c1.top() + c.storage_offset.0);
    let c2 = c1.pop();
    normal(
        c2.pop(),
        EnvView {
            map: e.map.set((x, y), c2.top()),
            puts: if s.put_history {
                e.puts.insert((x, y))
            } else {
                e.puts
            },
            ..e
        },
    )
}

/// `g`: the cell at the popped position (shifted by the storage offset)
/// pushed.
pub open spec fn get_op(c: CursorView, e: EnvView, s: Settings) -> Outcome {
    let y = wrap(c.top() + c.storage_offset.1);
    let c1 = c.pop();
    let x = wrap(c1.top() + c.storage_offset.0);
    let c2 = c1.pop();
    normal(
        c2.push(e.map.get((x, y))),
        EnvView {
            gets: if s.get_history {
                e.gets.insert((x, y))
            } else {
                e.gets
            },
            ..e
        },
    )
}

/// `,`: the popped value written out as a character; an error where it is
/// no character.
pub open spec fn put_char(c: CursorView, e: EnvView) -> Outcome {
    let u = c.top() as u32;
    if u <= 0xD7FF || (0xE000 <= u && u <= 0x10FFFF) {
        normal(c.pop(), EnvView { output: e.output.push(u as char), ..e })
    } else {
        Outcome { cursor: c.pop(), env: e, status: StepStatus::Error("Invalid UTF-8 char") }
    }
}

/// The instructions whose outcome is determined by the cursor, the state
/// and the settings: all but `?`, `y` and `k`.
#[verifier::opaque]
pub open spec fn plain_op(op: u8, c: CursorView, e: EnvView, s: Settings) -> Outcome {
    let max = e.map.max_size;
    if is_cursor_op(op) {
        cursor_op(op, c, e, s)
    } else if op == 35 {
        // #
        let (c1, e1) = moved(c, e, s);
        Outcome {
            cursor: c1.at(next_position(c1.position, c1.direction, max)),
            env: e1,
            status: StepStatus::NormalNoStep,
        }
    } else if op == 112 {
        put_op(c, e, s)
    } else if op == 103 {
        get_op(c, e, s)
    } else if op == 38 {
        read_number(c, e, s)
    } else if op == 126 {
        read_char(c, e, s)
    } else if op == 64 {
        Outcome { cursor: c, env: e, status: StepStatus::Die }
    } else if op == 46 {
        // .
        normal(c.pop(), EnvView { output: e.output + decimal(c.top() as int).push(' '), ..e })
    } else if op == 44 {
        put_char(c, e)
    } else if op == 39 {
        // '
        let (c1, e1) = moved(c, e, s);
        let c2 = c1.push(e1.map.get(c1.position));
        Outcome {
            cursor: c2.at(next_position(c2.position, c2.direction, max)),
            env: e1,
            status: StepStatus::NormalNoStep,
        }
    } else if op == 59 {
        // ;
        normal(c.at(scan(c.position, c.direction, e.map, 59, true, FUEL as nat)), e)
    } else if op == 61 {
        Outcome { cursor: c, env: e, status: StepStatus::Error("Execute is not yet implemented") }
    } else if op == 106 {
        Outcome { cursor: jump_cursor(c, max), env: e, status: StepStatus::NormalNoStep }
    } else if op == 113 {
        Outcome {
            cursor: c,
            env: e,
            status: StepStatus::Error("Quit is not yet properly implemented"),
        }
    } else if op == 115 {
        // s
        let (c1, e1) = moved(c, e, s);
        let c2 = c1.pop();
        let e2 = EnvView { map: e1.map.set(c1.position, c1.top()), ..e1 };
        Outcome {
            cursor: c2.at(next_position(c2.position, c2.direction, e2.map.max_size)),
            env: e2,
            status: StepStatus::NormalNoStep,
        }
    } else if op == 116 {
        Outcome { cursor: c, env: e, status: StepStatus::Clone }
    } else if op == 117 {
        let o = stack_under(c);
        Outcome { env: e, ..o }
    } else if op == 123 {
        normal(begin_block(c, max), e)
    } else if op == 125 {
        let (c1, st) = end_block(c);
        Outcome { cursor: c1, env: e, status: st }
    } else {
        Outcome { cursor: c, env: e, status: StepStatus::Error("Invalid operation") }
    }
}

/// The number that `(` and `)` read: `k` cells popped, each shifted in as
/// the next base-256 digit (wrapping), onto `acc`.
pub open spec fn pop_id(c: CursorView, k: nat, acc: Value) -> (Value, CursorView)
    decreases k,
{
    if k == 0 {
        (acc, c)
    } else {
        pop_id(
            c.pop(),
            (k - 1) as nat,
            vstd::wrapping::i64_specs::wrapping_add(
                vstd::wrapping::i64_specs::wrapping_mul(acc, 256),
                c.top(),
            ),
        )
    }
}

/// How many cells name a fingerprint: the popped count, or none when it is
/// not positive.
pub open spec fn id_length(count: Value) -> nat {
    if count > 0 {
        count as nat
    } else {
        0
    }
}

/// The letters' stacks with a fingerprint's table loaded: each letter that
/// the table sets takes its new meaning on top.
pub open spec fn with_loaded(fs: Seq<Seq<FingerprintFunction>>, t: Seq<Option<FingerprintFunction>>) -> Seq<Seq<FingerprintFunction>> {
    Seq::new(
        fs.len(),
        |i: int|
            match t[i] {
                Some(f) => fs[i].push(f),
                None => fs[i],
            },
    )
}

/// The letters' stacks with a fingerprint's table unloaded: each letter
/// that the table sets loses its top meaning.
pub open spec fn with_unloaded(fs: Seq<Seq<FingerprintFunction>>, t: Seq<Option<FingerprintFunction>>) -> Seq<Seq<FingerprintFunction>> {
    Seq::new(
        fs.len(),
        |i: int|
            match t[i] {
                Some(_) => without_top(fs[i]),
                None => fs[i],
            },
    )
}

/// `(`: a count and that many cells are popped and read as a fingerprint's
/// number; a known fingerprint is loaded and its number and 1 are pushed;
/// an unknown one reflects.
pub open spec fn load_fingerprint(c: CursorView, clock: bool) -> CursorView {
    let (id, c1) = pop_id(c.pop(), id_length(c.top()), 0);
    match loadable(id, clock) {
        Some(t) => CursorView { fingerprints: with_loaded(c1.fingerprints, t), ..c1 }.push(id).push(1),
        None => reflected(c1),
    }
}

/// `)`: a count and that many cells are popped and read as a fingerprint's
/// number; a known fingerprint is unloaded; an unknown one reflects.
pub open spec fn unload_fingerprint(c: CursorView, clock: bool) -> CursorView {
    let (id, c1) = pop_id(c.pop(), id_length(c.top()), 0);
    match loadable(id, clock) {
        Some(t) => CursorView { fingerprints: with_unloaded(c1.fingerprints, t), ..c1 },
        None => reflected(c1),
    }
}

/// What a letter does that stands for `f`: a reflection reflects; an
/// instruction of a fingerprint does what that fingerprint says of it (see
/// `fingerprint_step`).
pub open spec fn letter_step<F: FloatUnit>(fl: F, f: FingerprintFunction, c: CursorView, e: EnvView, r: Outcome, w: Choices) -> bool {
    match f {
        FingerprintFunction::Reflect => r == normal(reflected(c), e),
        FingerprintFunction::Op { fingerprint, letter } => fingerprint_step(fl, fingerprint, letter, c, e, r, w),
    }
}

/// What the instruction of a fingerprint for a letter does. A letter that
/// the fingerprint does not define reflects; so do the MODU pair that Rust
/// cannot divide and a PIXL line whose ends are not `i32`s. The HRTI clock
/// readings are choices; the floating-point instructions do what the
/// floating-point unit answers when handed the fingerprint, the letter, the
/// top stack and the output.
pub open spec fn fingerprint_step<F: FloatUnit>(fl: F, name: FingerprintName,
    letter: u8,
    c: CursorView,
    e: EnvView,
    r: Outcome,
    w: Choices,
) -> bool {
    match name {
        FingerprintName::Roma => r == normal(
            match roma::numeral(letter) {
                Some(v) => c.push(v),
                None => reflected(c),
            },
            e,
        ),
        FingerprintName::Bool => r == normal(
            match boolean::logic(letter, c) {
                Some(c1) => c1,
                None => reflected(c),
            },
            e,
        ),
        FingerprintName::Modu => r == normal(
            match modu::remainder(letter, c.pop().top(), c.top()) {
                Some(v) => if modu::overflowing(c.pop().top(), c.top()) {
                    reflected(c)
                } else {
                    c.pop().pop().push(v as Value)
                },
                None => reflected(c),
            },
            e,
        ),
        FingerprintName::Refc => if letter == 114 {
            r == normal(refc::reference(c, e).0, refc::reference(c, e).1)
        } else if letter == 100 {
            r == normal(refc::dereference(c, e), e)
        } else {
            r == normal(reflected(c), e)
        },
        FingerprintName::Fing => r == normal(
            if letter == 120 {
                fing::swap_result(c)
            } else if letter == 121 {
                fing::drop_result(c)
            } else if letter == 122 {
                fing::copy_result(c)
            } else {
                reflected(c)
            },
            e,
        ),
        FingerprintName::Hrti => if letter == 103 {
            r == normal(c.push(1), e)
        } else if !e.clock {
            r == normal(reflected(c), e)
        } else if letter == 109 {
            r == normal(c, EnvView { hrti_marks: e.hrti_marks.insert(c.id), ..e })
        } else if letter == 116 {
            if e.hrti_marks.contains(c.id) {
                w matches Choices::Reading(t) && r == normal(c.push(t), e)
            } else {
                r == normal(reflected(c), e)
            }
        } else if letter == 101 {
            r == normal(c, EnvView { hrti_marks: e.hrti_marks.remove(c.id), ..e })
        } else if letter == 115 {
            w matches Choices::Reading(t) && 0 <= t < 1_000_000 && r == normal(c.push(t), e)
        } else {
            r == normal(reflected(c), e)
        },
        FingerprintName::Pixl => {
            let (c1, e1) = if letter == 99 {
                pixl::fill_result(c, e)
            } else if letter == 102 {
                pixl::color_result(c, e)
            } else if letter == 108 {
                if pixl::line_fits(c, e) {
                    pixl::line_result(c, e)
                } else {
                    (reflected(c), e)
                }
            } else if letter == 115 {
                pixl::screen_result(c, e)
            } else if letter == 117 {
                (c, e)
            } else if letter == 120 {
                pixl::pixel_result(c, e)
            } else if letter == 122 {
                pixl::poll_result(c, e)
            } else {
                (reflected(c), e)
            };
            r == normal(c1, e1)
        },
        FingerprintName::Fpdp | FingerprintName::Fpsp => exists|toss: Seq<Value>, output: Seq<char>, reflect: bool|
            #[trigger] float_step(fl, name, letter, c.toss(), e.output, (toss, output, reflect))
                && r == normal(
                if reflect {
                    reflected(c.with_toss(toss))
                } else {
                    c.with_toss(toss)
                },
                EnvView { output, ..e },
            ),
        FingerprintName::Null => r == normal(reflected(c), e),
    }
}

/// `plain_op` instruction by instruction.
pub proof fn lemma_plain_op(op: u8, c: CursorView, e: EnvView, s: Settings)
    ensures
        is_cursor_op(op) ==> plain_op(op, c, e, s) == cursor_op(op, c, e, s),
        op == 35 ==> plain_op(op, c, e, s) == (Outcome {
            cursor: moved(c, e, s).0.at(
                next_position(moved(c, e, s).0.position, c.direction, e.map.max_size),
            ),
            env: moved(c, e, s).1,
            status: StepStatus::NormalNoStep,
        }),
        op == 112 ==> plain_op(op, c, e, s) == put_op(c, e, s),
        op == 103 ==> plain_op(op, c, e, s) == get_op(c, e, s),
        op == 38 ==> plain_op(op, c, e, s) == read_number(c, e, s),
        op == 126 ==> plain_op(op, c, e, s) == read_char(c, e, s),
        op == 64 ==> plain_op(op, c, e, s) == (Outcome { cursor: c, env: e, status: StepStatus::Die }),
        op == 46 ==> plain_op(op, c, e, s) == normal(
            c.pop(),
            EnvView { output: e.output + decimal(c.top() as int).push(' '), ..e },
        ),
        op == 44 ==> plain_op(op, c, e, s) == put_char(c, e),
        op == 39 ==> plain_op(op, c, e, s) == (Outcome {
            cursor: moved(c, e, s).0.push(moved(c, e, s).1.map.get(moved(c, e, s).0.position)).at(
                next_position(moved(c, e, s).0.position, c.direction, e.map.max_size),
            ),
            env: moved(c, e, s).1,
            status: StepStatus::NormalNoStep,
        }),
        op == 59 ==> plain_op(op, c, e, s) == normal(
            c.at(scan(c.position, c.direction, e.map, 59, true, FUEL as nat)),
            e,
        ),
        op == 61 ==> plain_op(op, c, e, s) == (Outcome {
            cursor: c,
            env: e,
            status: StepStatus::Error("Execute is not yet implemented"),
        }),
        op == 106 ==> plain_op(op, c, e, s) == (Outcome {
            cursor: jump_cursor(c, e.map.max_size),
            env: e,
            status: StepStatus::NormalNoStep,
        }),
        op == 113 ==> plain_op(op, c, e, s) == (Outcome {
            cursor: c,
            env: e,
            status: StepStatus::Error("Quit is not yet properly implemented"),
        }),
        op == 115 ==> plain_op(op, c, e, s) == (Outcome {
            cursor: moved(c, e, s).0.pop().at(
                next_position(
                    moved(c, e, s).0.position,
                    c.direction,
                    moved(c, e, s).1.map.set(moved(c, e, s).0.position, moved(c, e, s).0.top()).max_size,
                ),
            ),
            env: EnvView {
                map: moved(c, e, s).1.map.set(moved(c, e, s).0.position, moved(c, e, s).0.top()),
                ..moved(c, e, s).1
            },
            status: StepStatus::NormalNoStep,
        }),
        op == 116 ==> plain_op(op, c, e, s) == (Outcome { cursor: c, env: e, status: StepStatus::Clone }),
        op == 117 ==> plain_op(op, c, e, s) == (Outcome { env: e, ..stack_under(c) }),
        op == 123 ==> plain_op(op, c, e, s) == normal(begin_block(c, e.map.max_size), e),
        op == 125 ==> plain_op(op, c, e, s) == (Outcome {
            cursor: end_block(c).0,
            env: e,
            status: end_block(c).1,
        }),
        !is_cursor_op(op) && op != 35 && op != 112 && op != 103 && op != 38 && op != 126 && op
            != 64 && op != 46 && op != 44 && op != 39 && op != 59 && op != 61 && op != 106 && op != 113 && op != 115 && op != 116 && op != 117
            && op != 123 && op != 125 ==> plain_op(op, c, e, s) == (Outcome {
            cursor: c,
            env: e,
            status: StepStatus::Error("Invalid operation"),
        }),
{
    reveal(plain_op);
}

/// The choices that an instruction made where the program does not fix
/// them: the direction that `?` took, the separator that `y` reported, the
/// clock readings of HRTI and of the `p` and `g` records, and
/// for `k` the states between its repetitions, with the status and the
/// choices of each.
pub enum Choices {
    Plain,
    Turn(Direction),
    Separator(char),
    /// A clock reading that HRTI pushed.
    Reading(Value),
    /// For `p` and `g` on a cell already in the record: the ticks since it
    /// was recorded and the ticks of half a second, which decided whether
    /// its time was renewed.
    Clock(Option<(u64, u64)>),
    Repeat {
        cursors: Seq<CursorView>,
        envs: Seq<EnvView>,
        statuses: Seq<StepStatus>,
        inner: Seq<Choices>,
    },
}

/// What one instruction does, given the choices it made. `?` turns the
/// cursor to one of the four directions; `y` reports the platform's path
/// separator; `k` repeats the instruction it finds (see `iterate`); `(`
/// and `)` load and unload a fingerprint, and `A` to `Z` carry out what
/// their letter stands for; everything else is `plain_op`. `depth` bounds the nesting of `k`.
pub open spec fn op_step<F: FloatUnit>(fl: F, depth: nat,
    op: u8,
    c: CursorView,
    e: EnvView,
    s: Settings,
    r: Outcome,
    w: Choices,
) -> bool
    decreases depth, 0nat, 1nat,
{
    if op == 63 {
        // ?
        w matches Choices::Turn(d) && is_cardinal(d) && r == normal(c.facing(d), e)
    } else if op == 121 {
        // y
        w matches Choices::Separator(sep) && r == normal(
            sysinfo_cursor(c, e.map.max_size, sep),
            e,
        )
    } else if op == 107 {
        // k
        iterate(fl, depth, c, e, s, r, w)
    } else if op == 40 {
        r == normal(load_fingerprint(c, e.clock), e)
    } else if op == 41 {
        r == normal(unload_fingerprint(c, e.clock), e)
    } else if 65 <= op <= 90 {
        letter_step(fl, current(c.fingerprints[op - 65]), c, e, r, w)
    } else {
        r == plain_op(op, c, e, s)
    }
}

/// `k`: with a count of 0, the next instruction is skipped; otherwise the
/// first non-space cell along the path is found, its instruction is
/// repeated from here `repeat_count` times (a `#` only moves; statuses are
/// ignored), and the cursor lands on that cell. A cell that holds no
/// instruction is not repeated. Nested beyond `depth`, `k` fails.
pub open spec fn iterate<F: FloatUnit>(fl: F, depth: nat, c: CursorView, e: EnvView, s: Settings, r: Outcome, w: Choices) -> bool
    decreases depth, 0nat, 0nat,
{
    let count = c.top();
    let c1 = c.pop();
    let max = e.map.max_size;
    if count == 0 {
        let (c2, e2) = moved(c1, e, s);
        r == Outcome {
            cursor: c2.at(next_position(c2.position, c2.direction, max)),
            env: e2,
            status: StepStatus::NormalNoStep,
        }
    } else if depth == 0 {
        r == Outcome { cursor: c1, env: e, status: StepStatus::Error("k nested too deep") }
    } else {
        let target = scan(c1.position, c1.direction, e.map, SPACE, false, FUEL as nat);
        let v = e.map.get(target);
        r.status == StepStatus::Normal && if 0 <= v <= 255 {
            let n = repeat_count(count);
            w matches Choices::Repeat { cursors, envs, statuses, inner } && cursors.len() == n + 1
                && envs.len() == n + 1 && statuses.len() == n && inner.len() == n && cursors[0]
                == c1 && envs[0] == e && r.cursor == cursors[n as int].at(target) && r.env
                == envs[n as int] && repetitions(fl, 
                (depth - 1) as nat,
                v as u8,
                s,
                cursors,
                envs,
                statuses,
                inner,
            )
        } else {
            r.cursor == c1.at(target) && r.env == e
        }
    }
}

/// Each state of a run of `k`'s repetitions follows from the one before:
/// the `i`-th repetition leads from `cursors[i], envs[i]` to
/// `cursors[i + 1], envs[i + 1]`, reporting `statuses[i]` with choices
/// `inner[i]`.
pub open spec fn repetitions<F: FloatUnit>(fl: F, depth: nat,
    op: u8,
    s: Settings,
    cursors: Seq<CursorView>,
    envs: Seq<EnvView>,
    statuses: Seq<StepStatus>,
    inner: Seq<Choices>,
) -> bool
    decreases depth, 2nat, statuses.len(),
{
    if statuses.len() == 0 {
        true
    } else {
        let k = statuses.len() - 1;
        repetitions(fl, 
            depth,
            op,
            s,
            cursors.drop_last(),
            envs.drop_last(),
            statuses.drop_last(),
            inner.drop_last(),
        ) && repetition(fl, 
            depth,
            op,
            cursors[k],
            envs[k],
            s,
            cursors[k + 1],
            envs[k + 1],
            statuses[k],
            inner[k],
        )
    }
}

/// One repetition of `k`: a `#` only moves; any other instruction is
/// carried out.
pub open spec fn repetition<F: FloatUnit>(fl: F, depth: nat,
    op: u8,
    c: CursorView,
    e: EnvView,
    s: Settings,
    c2: CursorView,
    e2: EnvView,
    st: StepStatus,
    w: Choices,
) -> bool
    decreases depth, 1nat, 0nat,
{
    if op == 35 {
        c2 == c.at(next_position(c.position, c.direction, e.map.max_size)) && e2 == e
    } else {
        op_step(fl, depth, op, c, e, s, Outcome { cursor: c2, env: e2, status: st }, w)
    }
}

} // verus!


verus! {

/// A tick of a cursor after its instruction: one that reported `Normal`
/// or `SyncFrame` moves on.
pub open spec fn after_op(m: Outcome, s: Settings) -> Outcome {
    if m.status == StepStatus::Normal || m.status == StepStatus::SyncFrame {
        let (c, e) = moved(m.cursor, m.env, s);
        Outcome { cursor: c, env: e, status: m.status }
    } else {
        m
    }
}

/// One tick of a cursor, given the choices its instruction made and the
/// outcome of that instruction: in string mode the cell is pushed (a `"`
/// ends the string); otherwise the instruction in the cell is carried out,
/// a cell that holds no instruction is an error, and an empty cell is
/// passed over.
pub open spec fn tick<F: FloatUnit>(fl: F, c: CursorView, e: EnvView, s: Settings, r: Outcome, w: Choices, m: Outcome) -> bool {
    let cell = e.map.get_nullable(c.position);
    if c.string_mode {
        let v = match cell {
            Some(v) => v,
            None => SPACE,
        };
        let c1 = if v == 34 {
            CursorView { string_mode: false, ..c }
        } else {
            c.push(v)
        };
        let (c2, e2) = moved(c1, e, s);
        r == normal(c2, e2)
    } else {
        match cell {
            Some(v) => if 0 <= v <= 255 {
                op_step(fl, DEPTH as nat, v as u8, c, e, s, m, w) && r == after_op(m, s)
            } else {
                r == Outcome { cursor: c, env: e, status: StepStatus::Error("Invalid operation") }
            },
            None => {
                let (c2, e2) = moved(c, e, s);
                r == normal(c2, e2)
            },
        }
    }
}

/// The glide over spaces that follows a tick when the settings ask for it:
/// while the cursor stands on a space it moves on (recording the cells it
/// leaves), for at most `fuel` steps; the last space it stood on is given.
pub open spec fn glide(c: CursorView, e: EnvView, s: Settings, fuel: nat) -> (
    CursorView,
    EnvView,
    Option<Position>,
)
    decreases fuel,
{
    if e.map.get(c.position) == SPACE && fuel > 0 {
        let (c1, e1) = moved(c, e, s);
        let (c2, e2, last) = glide(c1, e1, s, (fuel - 1) as nat);
        (
            c2,
            e2,
            Some(
                match last {
                    Some(p) => p,
                    None => c.position,
                },
            ),
        )
    } else {
        (c, e, None)
    }
}

/// A cursor's whole tick: the tick count goes up, the cell is carried out,
/// a breakpoint at the new position stops it there, and otherwise, when the
/// settings ask for it, the cursor glides over spaces and stays on the last
/// one.
pub open spec fn cursor_step<F: FloatUnit>(fl: F, c: CursorView, e: EnvView, s: Settings, r: Outcome, w: Choices, m: Outcome) -> bool {
    let e1 = EnvView { instruction_count: (e.instruction_count + 1) as usize, ..e };
    exists|r1: Outcome|
        #![trigger tick(fl, c, e1, s, r1, w, m)]
        tick(fl, c, e1, s, r1, w, m) && if r1.env.breakpoints.contains(r1.cursor.position) {
            r == Outcome { status: StepStatus::Breakpoint, ..r1 }
        } else if s.skip_spaces {
            let (c2, e2, last) = glide(r1.cursor, r1.env, s, FUEL as nat);
            r == Outcome {
                cursor: match last {
                    Some(p) => c2.at(p),
                    None => c2,
                },
                env: e2,
                status: r1.status,
            }
        } else {
            r == r1
        }
}

} // verus!

verus! {

/// A cursor's tick, with whatever choices its instruction made.
#[verifier::opaque]
pub open spec fn stepped<F: FloatUnit>(fl: F, c: CursorView, e: EnvView, s: Settings, r: Outcome) -> bool {
    exists|w: Choices, m: Outcome| #[trigger] cursor_step(fl, c, e, s, r, w, m)
}

/// What a whole program is: the shared state and the cursors, in order.
#[verifier::ext_equal]
pub struct StateView {
    pub env: EnvView,
    pub cursors: Seq<CursorView>,
}

impl StateView {
    /// A program always has a cursor, and every cursor is well formed.
    pub open spec fn wf(self) -> bool {
        self.cursors.len() >= 1 && forall|i: int|
            0 <= i < self.cursors.len() ==> (#[trigger] self.cursors[i]).wf()
    }
}

/// Where a tick of the whole program has got to: the cursors (those already
/// stepped updated), the shared state, the cursors that `t` made, the
/// indices of the cursors that died, whether one hit a breakpoint, and the
/// error that halted the tick, if any.
pub struct Pass {
    pub cursors: Seq<CursorView>,
    pub env: EnvView,
    pub new: Seq<CursorView>,
    pub deleted: Seq<int>,
    pub breakpoint: bool,
    pub halted: Option<&'static str>,
}

/// The pass after cursor `i` ticked with outcome `r`: a clone turned
/// around moves off on its own and the cursor moves on; a dead cursor is
/// noted; a failed instruction reflects, halts or is ignored as the settings
/// say; a breakpoint is noted.
pub open spec fn settle(p: Pass, i: int, r: Outcome, s: Settings) -> Pass {
    match r.status {
        StepStatus::Clone => {
            let (copy, e1) = moved(r.cursor.facing(r.cursor.direction.spec_reverse()), r.env, s);
            let (c2, e2) = moved(r.cursor, e1, s);
            Pass { cursors: p.cursors.update(i, c2), env: e2, new: p.new.push(copy), ..p }
        },
        StepStatus::Die => Pass {
            cursors: p.cursors.update(i, r.cursor),
            env: r.env,
            deleted: p.deleted.push(i),
            ..p
        },
        StepStatus::Error(msg) => match s.invalid_operation_behaviour {
            InvalidOperationBehaviour::Reflect => {
                let (c2, e2) = moved(r.cursor.facing(r.cursor.direction.spec_reverse()), r.env, s);
                Pass { cursors: p.cursors.update(i, c2), env: e2, ..p }
            },
            InvalidOperationBehaviour::Halt => Pass {
                cursors: p.cursors.update(i, r.cursor),
                env: r.env,
                halted: Some(msg),
                ..p
            },
            InvalidOperationBehaviour::Ignore => Pass {
                cursors: p.cursors.update(i, r.cursor),
                env: r.env,
                ..p
            },
        },
        StepStatus::Breakpoint => Pass {
            cursors: p.cursors.update(i, r.cursor),
            env: r.env,
            breakpoint: true,
            ..p
        },
        _ => Pass { cursors: p.cursors.update(i, r.cursor), env: r.env, ..p },
    }
}

/// The pass after the first cursors ticked with the given outcomes.
#[verifier::opaque]
pub open spec fn run(p0: Pass, s: Settings, outs: Seq<Outcome>) -> Pass
    decreases outs.len(),
{
    if outs.len() == 0 {
        p0
    } else {
        settle(run(p0, s, outs.drop_last()), outs.len() - 1, outs.last(), s)
    }
}

/// Each outcome is a tick of its cursor from where the pass had got to, and
/// no tick before it halted the pass.
#[verifier::opaque]
pub open spec fn run_valid<F: FloatUnit>(fl: F, p0: Pass, s: Settings, outs: Seq<Outcome>) -> bool
    decreases outs.len(),
{
    if outs.len() == 0 {
        true
    } else {
        let p = run(p0, s, outs.drop_last());
        let k = outs.len() - 1;
        run_valid(fl, p0, s, outs.drop_last()) && p.halted is None && stepped(fl, 
            p.cursors[k],
            p.env,
            s,
            outs.last(),
        )
    }
}

/// Before any cursor ticked, the pass is where it started; one more tick
/// settles that cursor's outcome, and is valid when it is a tick of that
/// cursor and nothing had halted the pass.
pub proof fn lemma_run_push<F: FloatUnit>(fl: F, p0: Pass, s: Settings, outs: Seq<Outcome>, o: Outcome)
    ensures
        run(p0, s, Seq::empty()) == p0,
        run_valid(fl, p0, s, Seq::empty()),
        run(p0, s, outs.push(o)) == settle(run(p0, s, outs), outs.len() as int, o, s),
        run_valid(fl, p0, s, outs.push(o)) == (run_valid(fl, p0, s, outs) && run(p0, s, outs).halted is None
            && stepped(fl, run(p0, s, outs).cursors[outs.len() as int], run(p0, s, outs).env, s, o)),
{
    reveal(run);
    reveal(run_valid);
    assert(outs.push(o).drop_last() =~= outs);
}

/// The cursors after the dead ones are removed, the last-noted first; when
/// only one cursor would be left to remove, the removal stops there (and
/// the tick reports a breakpoint).
pub open spec fn remove_dead(cs: Seq<CursorView>, dead: Seq<int>) -> (Seq<CursorView>, bool)
    decreases dead.len(),
{
    if dead.len() == 0 {
        (cs, false)
    } else if cs.len() == 1 {
        (cs, true)
    } else if 0 <= dead.last() < cs.len() {
        remove_dead(cs.remove(dead.last()), dead.drop_last())
    } else {
        remove_dead(cs, dead.drop_last())
    }
}

/// Removing the dead never leaves no cursor.
pub proof fn lemma_remove_dead_keeps_one(cs: Seq<CursorView>, dead: Seq<int>)
    requires
        cs.len() >= 1,
    ensures
        remove_dead(cs, dead).0.len() >= 1,
    decreases dead.len(),
{
    if dead.len() > 0 && cs.len() != 1 {
        if 0 <= dead.last() < cs.len() {
            lemma_remove_dead_keeps_one(cs.remove(dead.last()), dead.drop_last());
        } else {
            lemma_remove_dead_keeps_one(cs, dead.drop_last());
        }
    }
}

/// A pass over fewer cursors than there are keeps their number.
pub proof fn lemma_run_keeps_count(p0: Pass, s: Settings, outs: Seq<Outcome>)
    requires
        outs.len() <= p0.cursors.len(),
    ensures
        run(p0, s, outs).cursors.len() == p0.cursors.len(),
    decreases outs.len(),
{
    reveal(run);
    if outs.len() > 0 {
        lemma_run_keeps_count(p0, s, outs.drop_last());
    }
}

/// A tick never leaves the program without a cursor: when the last cursor
/// would die, it stays and the tick reports a breakpoint.
pub proof fn lemma_tick_keeps_a_cursor<F: FloatUnit>(
    fl: F,
    old: StateView,
    s: Settings,
    new: StateView,
    r: TickStatus,
    outs: Seq<Outcome>,
)
    requires
        old.cursors.len() >= 1,
        state_step(fl, old, s, new, r, outs),
    ensures
        new.cursors.len() >= 1,
{
    let p0 = Pass {
        cursors: old.cursors,
        env: old.env,
        new: Seq::empty(),
        deleted: Seq::empty(),
        breakpoint: false,
        halted: None,
    };
    lemma_run_keeps_count(p0, s, outs);
    let p = run(p0, s, outs);
    if p.halted is None {
        lemma_remove_dead_keeps_one(p.cursors + p.new, p.deleted);
    }
}

/// A tick of the whole program: every cursor ticks in order; a halting
/// error ends the tick there; otherwise the clones join the cursors, the
/// dead are removed, and the tick reports a breakpoint when a cursor hit one
/// or the last cursor died.
pub open spec fn state_step<F: FloatUnit>(fl: F, old: StateView,
    s: Settings,
    new: StateView,
    r: TickStatus,
    outs: Seq<Outcome>,
) -> bool {
    let p0 = Pass {
        cursors: old.cursors,
        env: old.env,
        new: Seq::empty(),
        deleted: Seq::empty(),
        breakpoint: false,
        halted: None,
    };
    let p = run(p0, s, outs);
    run_valid(fl, p0, s, outs) && outs.len() <= old.cursors.len() && match p.halted {
        Some(msg) => r == TickStatus::Error(msg) && new.cursors == p.cursors && new.env == p.env,
        None => {
            let (cs, early) = remove_dead(p.cursors + p.new, p.deleted);
            outs.len() == old.cursors.len() && new.cursors == cs && new.env == p.env && r == if early
                || p.breakpoint {
                TickStatus::Breakpoint
            } else {
                TickStatus::Normal
            }
        },
    }
}

} // verus!
