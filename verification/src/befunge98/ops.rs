//! The instructions of a cursor.
use vstd::prelude::*;

use crate::befunge::{Position, Value, wrap, lemma_trunc_bounds, lemma_wrap_in_range, trunc_div, trunc_rem};
use crate::befunge98::model::{EnvView, advance, moved};
use crate::befunge98::semantics::{
    Choices, DEPTH, FUEL, Outcome, arith, begin_block, binary, cursor_op, cursor_step, end_block,
    get_op, glide, is_arith, is_cardinal, is_cursor_op, iterate, jump_cursor, lemma_digit_run,
    lemma_plain_op, normal, op_step, parse_digits, put_char, put_op, read_char, read_number,
    repeat_count, repetition, repetitions, scan, shift, stack_sizes, stack_under, stepped, sysinfo,
    sysinfo_cursor, tick,
};
use crate::befunge98::model::CursorView;
use crate::befunge98::{
    Cursor, Direction, FungeSpaceView, SPACE, StateTempName, StepStatus, histories_kept, records_kept,
};
use crate::outside::{
    Moment, PositionMap, char_from_u32, main_separator, map_get, map_insert, random_below,
    recent_instant, set_contains, string_push, as_ticks, coarse_from_millis, elapsed_since_recent,
};
use crate::befunge98::fingerprints::{FloatUnit, accepts_all};
use crate::settings::Settings;
use crate::text::{decimal, push_decimal};

verus! {

/// `b / a`, truncating and wrapping; 0 for a zero divisor.
fn div_of(b: Value, a: Value) -> (r: Value)
    ensures
        r == arith(47, b, a),
{
    if a == 0 {
        0
    } else {
        proof {
            lemma_trunc_bounds(b as int, a as int);
        }
        match b.checked_div(a) {
            Some(q) => {
                proof {
                    lemma_wrap_in_range(trunc_div(b as int, a as int));
                }
                q
            },
            None => {
                assert(b == i64::MIN && a == -1);
                assert(trunc_div(b as int, a as int) == 0x8000_0000_0000_0000);
                i64::MIN
            },
        }
    }
}

/// `b % a`, with the sign of `b`; 0 for a zero divisor.
fn rem_of(b: Value, a: Value) -> (r: Value)
    ensures
        r == arith(37, b, a),
{
    if a == 0 {
        0
    } else {
        proof {
            lemma_trunc_bounds(b as int, a as int);
        }
        match b.checked_rem(a) {
            Some(q) => {
                proof {
                    lemma_wrap_in_range(trunc_rem(b as int, a as int));
                }
                q
            },
            None => {
                assert(b == i64::MIN && a == -1);
                assert(trunc_rem(b as int, a as int) == 0);
                0
            },
        }
    }
}

/// The arithmetic and comparison instructions on `b` and `a`.
fn arith_of(op: u8, b: Value, a: Value) -> (r: Value)
    requires
        is_arith(op),
    ensures
        r == arith(op, b, a),
{
    if op == 43 {
        b.wrapping_add(a)
    } else if op == 45 {
        b.wrapping_sub(a)
    } else if op == 42 {
        b.wrapping_mul(a)
    } else if op == 47 {
        div_of(b, a)
    } else if op == 37 {
        rem_of(b, a)
    } else {
        if b > a {
            1
        } else {
            0
        }
    }
}

/// Whether a record made `elapsed` ticks ago is renewed, where `limit` is
/// the ticks of half a second: when more than that has passed.
pub fn refresh_due(elapsed: u64, limit: u64) -> (r: bool)
    ensures
        r == (elapsed > limit),
{
    elapsed > limit
}

/// Notes that a cell was read or written now: a cell seen for the first
/// time, or last seen more than half a second ago, gets the current time;
/// no other record changes. For a cell seen before, the clock readings that
/// decided it are given back.
fn touch_history(history: &mut PositionMap<Moment>, pos: Position) -> (r: Option<(u64, u64)>)
    ensures
        final(history)@.dom() == old(history)@.dom().insert(pos),
        final(history)@.remove(pos) == old(history)@.remove(pos),
        match r {
            Some((elapsed, limit)) => old(history)@.contains_key(pos) && (elapsed <= limit
                ==> final(history)@ == old(history)@),
            None => !old(history)@.contains_key(pos),
        },
{
    match map_get(history, &pos) {
        Some(prev) => {
            let elapsed = as_ticks(&elapsed_since_recent(&prev));
            let limit = as_ticks(&coarse_from_millis(500));
            if refresh_due(elapsed, limit) {
                map_insert(history, pos, recent_instant());
            }
            assert(old(history)@.dom().insert(pos) =~= old(history)@.dom());
            assert(history@.remove(pos) =~= old(history)@.remove(pos));
            Some((elapsed, limit))
        },
        None => {
            map_insert(history, pos, recent_instant());
            assert(history@.remove(pos) =~= old(history)@.remove(pos));
            None
        },
    }
}

/// The cell that `p` and `g` address: the popped `y`, then `x`, shifted by
/// the storage offset.
pub open spec fn cell_target(c: CursorView) -> Position {
    (wrap(c.pop().top() + c.storage_offset.0), wrap(c.top() + c.storage_offset.1))
}

/// Whether an instruction works on the cursor alone.
fn is_cursor_instruction(op: u8) -> (r: bool)
    ensures
        r == is_cursor_op(op),
{
    op == 34 || (48 <= op && op <= 57) || op == 43 || op == 45 || op == 42 || op == 47 || op == 37
        || op == 96 || op == 92 || op == 33 || op == 58 || op == 36 || op == 62 || op == 60 || op
        == 94 || op == 118 || op == 95 || op == 124 || op == 91 || op == 93 || (97 <= op && op
        <= 102) || op == 110 || op == 114 || op == 119 || op == 120 || op == 32 || op == 122
}

/// Whether the character at an index is a decimal digit.
fn digit_at(s: &String, i: usize) -> (r: bool)
    requires
        i < s@.len(),
    ensures
        r == ('0' <= s@[i as int] <= '9'),
{
    let ch = s.as_str().get_char(i);
    '0' <= ch && ch <= '9'
}

impl Cursor {
    /// `+ - * / % \``: pops `a`, then `b`, and pushes the result on them.
    fn op_arith(&mut self, op: u8)
        requires
            old(self)@.wf(),
            is_arith(op),
        ensures
            final(self)@ == binary(op, old(self)@),
    {
        let a = self.pop();
        let b = self.pop();
        let r = arith_of(op, b, a);
        self.push(r);
    }

    /// The instructions that work on the cursor alone.
    fn op_cursor(&mut self, op: u8, Ghost(e): Ghost<EnvView>, Ghost(s): Ghost<Settings>) -> (r: StepStatus)
        requires
            old(self)@.wf(),
            is_cursor_op(op),
        ensures
            final(self)@.wf(),
            final(self)@ == cursor_op(op, old(self)@, e, s).cursor,
            r == cursor_op(op, old(self)@, e, s).status,
            cursor_op(op, old(self)@, e, s).env == e,
    {
        reveal(cursor_op);
        if op == 34 {
            self.string_mode = true;
        } else if 48 <= op && op <= 57 {
            self.push((op - 48) as Value);
        } else if op == 43 || op == 45 || op == 42 || op == 47 || op == 37 || op == 96 {
            self.op_arith(op);
        } else if op == 92 {
            let a = self.pop();
            let b = self.pop();
            self.push(a);
            self.push(b);
        } else if op == 33 {
            let a = self.pop();
            self.push(
                if a == 0 {
                    1
                } else {
                    0
                },
            );
        } else if op == 58 {
            let a = self.pop();
            self.push(a);
            self.push(a);
        } else if op == 36 {
            self.pop();
        } else if op == 62 {
            self.direction = Direction::east();
        } else if op == 60 {
            self.direction = Direction::west();
        } else if op == 94 {
            self.direction = Direction::north();
        } else if op == 118 {
            self.direction = Direction::south();
        } else if op == 95 {
            let status = self.pop();
            if status == 0 {
                self.direction = Direction::east();
            } else {
                self.direction = Direction::west();
            }
        } else if op == 124 {
            let status = self.pop();
            if status == 0 {
                self.direction = Direction::south();
            } else {
                self.direction = Direction::north();
            }
        } else if op == 91 {
            self.direction = self.direction.turn_left();
        } else if op == 93 {
            self.direction = self.direction.turn_right();
        } else if 97 <= op && op <= 102 {
            self.push((op - 87) as Value);
        } else if op == 110 {
            self.toss().clear();
        } else if op == 114 {
            self.direction = self.direction.reverse();
        } else if op == 119 {
            let a = self.pop();
            let b = self.pop();
            if a > b {
                self.direction = self.direction.turn_left();
            } else if a < b {
                self.direction = self.direction.turn_right();
            }
        } else if op == 120 {
            let y = self.pop();
            let x = self.pop();
            self.direction = Direction(x, y);
        }
        StepStatus::Normal
    }

    /// `p`: writes the popped value at the popped position, shifted by the
    /// storage offset.
    fn op_put(&mut self, state: &mut StateTempName, settings: &Settings) -> (readings: Option<(u64, u64)>)
        requires
            old(self)@.wf(),
        ensures
            final(self)@.wf(),
            normal(final(self)@, final(state)@) == put_op(old(self)@, old(state)@, *settings),
            final(state).put_history@.remove(cell_target(old(self)@)) == old(state).put_history@.remove(
                cell_target(old(self)@),
            ),
            !settings.put_history ==> final(state).put_history@ == old(state).put_history@,
            match readings {
                Some((elapsed, limit)) => settings.put_history && old(state).put_history@.contains_key(
                    cell_target(old(self)@),
                ) && (elapsed <= limit ==> final(state).put_history@ == old(state).put_history@),
                None => !(settings.put_history && old(state).put_history@.contains_key(cell_target(old(self)@))),
            },
            final(state).pos_history@ == old(state).pos_history@,
            final(state).get_history@ == old(state).get_history@,
            final(state).hrti_marks@ == old(state).hrti_marks@,
            final(state).hrti_start == old(state).hrti_start,
    {
        let y = self.pop().wrapping_add(self.storage_offset.1);
        let x = self.pop().wrapping_add(self.storage_offset.0);
        let value = self.pop();
        let readings = if settings.put_history {
            touch_history(&mut state.put_history, (x, y))
        } else {
            None
        };
        state.map.set((x, y), value);
        readings
    }

    /// `g`: pushes the cell at the popped position, shifted by the storage
    /// offset.
    fn op_get(&mut self, state: &mut StateTempName, settings: &Settings) -> (readings: Option<(u64, u64)>)
        requires
            old(self)@.wf(),
        ensures
            final(self)@.wf(),
            normal(final(self)@, final(state)@) == get_op(old(self)@, old(state)@, *settings),
            final(state).get_history@.remove(cell_target(old(self)@)) == old(state).get_history@.remove(
                cell_target(old(self)@),
            ),
            !settings.get_history ==> final(state).get_history@ == old(state).get_history@,
            match readings {
                Some((elapsed, limit)) => settings.get_history && old(state).get_history@.contains_key(
                    cell_target(old(self)@),
                ) && (elapsed <= limit ==> final(state).get_history@ == old(state).get_history@),
                None => !(settings.get_history && old(state).get_history@.contains_key(cell_target(old(self)@))),
            },
            final(state).pos_history@ == old(state).pos_history@,
            final(state).put_history@ == old(state).put_history@,
            final(state).hrti_marks@ == old(state).hrti_marks@,
            final(state).hrti_start == old(state).hrti_start,
    {
        let y = self.pop().wrapping_add(self.storage_offset.1);
        let x = self.pop().wrapping_add(self.storage_offset.0);
        self.push(state.map.get((x, y)));
        if settings.get_history {
            touch_history(&mut state.get_history, (x, y))
        } else {
            None
        }
    }

    /// `&`: reads a number that a space ends.
    fn op_read_number(&mut self, state: &mut StateTempName, settings: &Settings) -> (r: StepStatus)
        requires
            old(self)@.wf(),
        ensures
            final(self)@.wf(),
            (Outcome { cursor: final(self)@, env: final(state)@, status: r }) == read_number(
                old(self)@,
                old(state)@,
                *settings,
            ),
            records_kept(*old(state), *final(state)),
    {
        let ghost input = state.input_buffer@;
        let len = state.input_buffer.as_str().unicode_len();
        let mut i: usize = 0;
        let mut num: Value = 0;
        while i < len && digit_at(&state.input_buffer, i)
            invariant
                len == input.len(),
                input == state.input_buffer@,
                i <= len,
                forall|j: int| 0 <= j < i ==> '0' <= #[trigger] input[j] <= '9',
                num == parse_digits(input.take(i as int)),
            decreases len - i,
        {
            let ch = state.input_buffer.as_str().get_char(i);
            proof {
                assert(input.take(i + 1).drop_last() =~= input.take(i as int));
                assert(input.take(i + 1).last() == ch);
            }
            num = num.wrapping_mul(10).wrapping_add((ch as u32 - 48) as Value);
            i = i + 1;
        }
        proof {
            lemma_digit_run(input, i as int);
        }
        if i == len {
            if settings.non_blocking_input {
                self.push(-1);
                return StepStatus::Normal;
            } else {
                return StepStatus::Breakpoint;
            }
        }
        let ch = state.input_buffer.as_str().get_char(i);
        if ch == ' ' {
            self.push(num);
            let rest = String::from_str(state.input_buffer.as_str().substring_char(i + 1, len));
            state.input_buffer = rest;
            proof {
                assert(input.subrange(i + 1, len as int) =~= input.skip(i + 1));
            }
            StepStatus::Normal
        } else {
            StepStatus::Error("Invalid input for Error::InvalidNumber")
        }
    }

    /// `~`: reads a character.
    fn op_read_char(&mut self, state: &mut StateTempName, settings: &Settings) -> (r: StepStatus)
        requires
            old(self)@.wf(),
        ensures
            final(self)@.wf(),
            (Outcome { cursor: final(self)@, env: final(state)@, status: r }) == read_char(
                old(self)@,
                old(state)@,
                *settings,
            ),
            records_kept(*old(state), *final(state)),
    {
        let len = state.input_buffer.as_str().unicode_len();
        if len == 0 {
            if settings.non_blocking_input {
                self.push(-1);
            } else {
                return StepStatus::Breakpoint;
            }
        } else {
            let ch = state.input_buffer.as_str().get_char(0);
            self.push(ch as u32 as Value);
            let rest = String::from_str(state.input_buffer.as_str().substring_char(1, len));
            state.input_buffer = rest;
            proof {
                assert(old(state)@.input.subrange(1, len as int) =~= old(state)@.input.drop_first());
            }
        }
        StepStatus::Normal
    }

    /// `.`: writes the popped value in decimal, and a space.
    fn op_put_number(&mut self, state: &mut StateTempName)
        requires
            old(self)@.wf(),
        ensures
            final(self)@.wf(),
            final(self)@ == old(self)@.pop(),
            final(state)@ == (EnvView {
                output: old(state)@.output + decimal(old(self)@.top() as int).push(' '),
                ..old(state)@
            }),
            records_kept(*old(state), *final(state)),
    {
        let a = self.pop();
        push_decimal(&mut state.output, a);
        string_push(&mut state.output, ' ');
        assert(state@.output =~= old(state)@.output + decimal(a as int).push(' '));
    }

    /// `,`: writes the popped value as a character.
    fn op_put_char(&mut self, state: &mut StateTempName) -> (r: StepStatus)
        requires
            old(self)@.wf(),
        ensures
            final(self)@.wf(),
            (Outcome { cursor: final(self)@, env: final(state)@, status: r }) == put_char(
                old(self)@,
                old(state)@,
            ),
            records_kept(*old(state), *final(state)),
    {
        let a = self.pop();
        match char_from_u32(a as u32) {
            Some(ch) => {
                string_push(&mut state.output, ch);
                StepStatus::Normal
            },
            None => StepStatus::Error("Invalid UTF-8 char"),
        }
    }

    /// `;`: moves on to the next `;` along the path.
    fn op_skip_comment(&mut self, state: &StateTempName)
        requires
            old(self)@.wf(),
        ensures
            final(self)@.wf(),
            final(self)@ == old(self)@.at(
                scan(old(self)@.position, old(self)@.direction, state@.map, 59, true, FUEL as nat),
            ),
    {
        let ghost target = scan(
            old(self)@.position,
            old(self)@.direction,
            state@.map,
            59,
            true,
            FUEL as nat,
        );
        let mut fuel: u64 = FUEL;
        loop
            invariant_except_break
                self@ == old(self)@.at(self.position),
                scan(self.position, self.direction, state@.map, 59, true, fuel as nat) == target,
            ensures
                self@ == old(self)@.at(target),
            decreases fuel,
        {
            self.step_position_inner(state);
            let op = state.map.get(self.position);
            if op == 59 || fuel == 0 {
                break ;
            }
            fuel = fuel - 1;
        }
    }

    /// `j`: jumps over the popped number of cells, backwards for a negative
    /// one.
    fn op_jump(&mut self, state: &StateTempName)
        requires
            old(self)@.wf(),
        ensures
            final(self)@.wf(),
            final(self)@ == jump_cursor(old(self)@, state@.map.max_size),
    {
        let count = self.pop();
        let ghost c1 = self@;
        let ghost max = state@.map.max_size;
        if count < 0 {
            let d = self.direction;
            self.direction = self.direction.reverse();
            let mut i = count;
            while i < -2
                invariant
                    count <= i,
                    count < -2 ==> i <= -2,
                    count >= -2 ==> i == count,
                    max == state@.map.max_size,
                    self@ == c1.facing(d.spec_reverse()).at(
                        advance(c1.position, d.spec_reverse(), max, (i - count) as nat),
                    ),
                decreases -2 - i,
            {
                self.step_position_inner(state);
                i = i + 1;
            }
            self.direction = self.direction.reverse();
            proof {
                d.lemma_reverse_reverse();
            }
        } else {
            let n = count.wrapping_add(1);
            let mut i: i64 = 0;
            while i < n
                invariant
                    0 <= i,
                    n > 0 ==> i <= n,
                    n <= 0 ==> i == 0,
                    max == state@.map.max_size,
                    self@ == c1.at(advance(c1.position, c1.direction, max, i as nat)),
                decreases n - i,
            {
                self.step_position_inner(state);
                i = i + 1;
            }
        }
    }

    /// `u`: moves cells between the top and second stacks.
    fn op_under(&mut self) -> (r: StepStatus)
        requires
            old(self)@.wf(),
        ensures
            final(self)@.wf(),
            final(self)@ == stack_under(old(self)@).cursor,
            r == stack_under(old(self)@).status,
    {
        let count = self.pop();
        let ghost c1 = self@;
        if let (toss, Some(soss)) = self.toss_and_soss() {
            if count < 0 {
                let mut i = count;
                while i < 0
                    invariant
                        count <= i <= 0,
                        (toss@, soss@) == shift(c1.toss(), c1.soss(), (i - count) as nat),
                    decreases 0 - i,
                {
                    let v = match toss.pop() {
                        Some(v) => v,
                        None => 0,
                    };
                    soss.push(v);
                    i = i + 1;
                }
            } else {
                let mut i: i64 = 0;
                while i < count
                    invariant
                        0 <= i <= count,
                        (soss@, toss@) == shift(c1.soss(), c1.toss(), i as nat),
                    decreases count - i,
                {
                    let v = match soss.pop() {
                        Some(v) => v,
                        None => 0,
                    };
                    toss.push(v);
                    i = i + 1;
                }
            }
            StepStatus::Normal
        } else {
            StepStatus::Error("no soss?")
        }
    }

    /// The system information that `y` reports, bottom first.
    fn sysinfo_of(&self, max: (i64, i64), sep: char) -> (info: Vec<Value>)
        ensures
            info@ == sysinfo(self@, max, sep),
    {
        let mut info: Vec<Value> = Vec::new();
        info.push(0);
        info.push(0);
        let mut i = self.stacks.len();
        while i > 0
            invariant
                i <= self.stacks@.len(),
                info@ == seq![0i64, 0i64] + stack_sizes(self@.stacks).take(self.stacks@.len() - i),
            decreases i,
        {
            i = i - 1;
            let size = self.stacks[i].len() as Value;
            proof {
                assert(stack_sizes(self@.stacks).take(self.stacks@.len() - i) =~= stack_sizes(
                    self@.stacks,
                ).take(self.stacks@.len() - (i + 1)).push(size));
            }
            info.push(size);
        }
        let ghost prefix = info@;
        info.push(self.stacks.len() as Value);
        info.push(0);
        info.push(0);
        info.push(max.0);
        info.push(max.1);
        info.push(0);
        info.push(0);
        info.push(self.storage_offset.0);
        info.push(self.storage_offset.1);
        info.push(self.direction.0);
        info.push(self.direction.1);
        info.push(self.position.0);
        info.push(self.position.1);
        info.push(0);
        info.push(0);
        info.push(2);
        info.push(sep as u32 as Value);
        info.push(0);
        info.push(crate::befunge98::semantics::VERSION);
        info.push(crate::befunge98::semantics::HANDPRINT);
        info.push(8);
        info.push(1);
        proof {
            assert(stack_sizes(self@.stacks).take(self.stacks@.len() as int) =~= stack_sizes(
                self@.stacks,
            ));
            assert(info@ =~= sysinfo(self@, max, sep));
        }
        info
    }

    /// `y`: pushes the system information, or one cell of it.
    fn op_sysinfo(&mut self, state: &StateTempName) -> (sep: Ghost<char>)
        requires
            old(self)@.wf(),
        ensures
            final(self)@.wf(),
            final(self)@ == sysinfo_cursor(old(self)@, state@.map.max_size, sep@),
    {
        let count = self.pop();
        let ghost c1 = self@;
        let size_before = self.stacks[self.stacks.len() - 1].len();
        let sep = main_separator();
        let max = state.map.program_size();
        let mut info = self.sysinfo_of(max, sep);
        let ghost full = c1.toss() + info@;
        let toss = self.toss();
        toss.append(&mut info);
        assert(toss@ == full);
        if count > 0 {
            let len = toss.len();
            let k = count as usize;
            let idx = len.wrapping_sub(k);
            assert(idx < len <==> (1 <= k && k <= len));
            let ret = if idx < len {
                assert(idx == len - k);
                toss[idx]
            } else {
                0
            };
            toss.truncate(size_before);
            toss.push(ret);
            proof {
                assert(toss@ =~= c1.toss().push(ret));
            }
        }
        assert(self@ == sysinfo_cursor(old(self)@, state@.map.max_size, sep));
        Ghost(sep)
    }

    /// `{`: opens a block: a new stack, with cells moved onto it and the
    /// storage offset saved under them.
    fn op_begin_block(&mut self, state: &StateTempName)
        requires
            old(self)@.wf(),
        ensures
            final(self)@.wf(),
            final(self)@ == begin_block(old(self)@, state@.map.max_size),
    {
        let count = self.pop();
        let ghost c1 = self@;
        self.stacks.push(Vec::new());
        assert(self@.stacks =~= c1.stacks.push(Seq::empty()));
        self.transfer_n_to_toss(count);
        let storage_offset = self.storage_offset;
        self.soss().unwrap().push(storage_offset.1);
        self.soss().unwrap().push(storage_offset.0);
        let (x, y) = self.position;
        self.step_position_inner(state);
        self.storage_offset = self.position;
        self.position = (x, y);
    }

    /// `}`: closes a block: the storage offset restored, cells moved back and
    /// the top stack dropped.
    fn op_end_block(&mut self) -> (r: StepStatus)
        requires
            old(self)@.wf(),
        ensures
            final(self)@.wf(),
            (final(self)@, r) == end_block(old(self)@),
    {
        let count = self.pop();
        if let Some(soss) = self.soss() {
            let x = match soss.pop() {
                Some(v) => v,
                None => 0,
            };
            let y = match soss.pop() {
                Some(v) => v,
                None => 0,
            };
            self.storage_offset = (x, y);
            self.transfer_n_to_soss(count);
            assert(self@.stacks.len() >= 2);
            self.stacks.pop();
            StepStatus::Normal
        } else {
            StepStatus::Error("no soss?")
        }
    }

    /// `?`: turns to a random one of the four directions.
    fn op_random_direction(&mut self) -> (d: Direction)
        ensures
            is_cardinal(d),
            final(self)@ == old(self)@.facing(d),
    {
        let x = random_below(4);
        self.direction = if x == 0 {
            Direction::north()
        } else if x == 1 {
            Direction::south()
        } else if x == 2 {
            Direction::east()
        } else {
            Direction::west()
        };
        self.direction
    }

    /// `k`: repeats the next instruction along the path.
    fn op_iterate<F: FloatUnit>(
        &mut self,
        state: &mut StateTempName,
        settings: &Settings,
        floats: &F,
        depth: u64,
    ) -> (r: (
        StepStatus,
        Ghost<Choices>,
    ))
        requires
            accepts_all(*floats),
            old(self)@.wf(),
        ensures
            final(self)@.wf(),
            final(state).instruction_count == old(state).instruction_count,
            final(state).hrti_start == old(state).hrti_start,
            iterate(*floats, 
                depth as nat,
                old(self)@,
                old(state)@,
                *settings,
                Outcome { cursor: final(self)@, env: final(state)@, status: r.0 },
                r.1@,
            ),
        decreases depth, 0nat,
    {
        let count = self.pop();
        if count == 0 {
            self.step_position(state, settings);
            self.step_position_inner(state);
            return (StepStatus::NormalNoStep, Ghost(Choices::Plain));
        }
        if depth == 0 {
            return (StepStatus::Error("k nested too deep"), Ghost(Choices::Plain));
        }
        let ghost c1 = self@;
        let ghost e0 = state@;
        let ghost target = scan(c1.position, c1.direction, e0.map, SPACE, false, FUEL as nat);
        let (x, y) = self.position;
        let mut op: Value;
        let mut fuel: u64 = FUEL;
        loop
            invariant_except_break
                self@ == c1.at(self.position),
                state@ == e0,
                scan(self.position, self.direction, e0.map, SPACE, false, fuel as nat) == target,
            ensures
                self@ == c1.at(target),
                state@ == e0,
                op == e0.map.get(target),
            decreases fuel,
        {
            self.step_position_inner(state);
            op = state.map.get(self.position);
            if op != SPACE || fuel == 0 {
                break ;
            }
            fuel = fuel - 1;
        }
        let (a, b) = self.position;
        self.position = (x, y);
        assert(self@ == c1);
        let ghost mut w = Choices::Plain;
        if 0 <= op && op <= 255 {
            let t = op as u8;
            let n = count.wrapping_add(1);
            let mut i: i64 = 0;
            let ghost mut cursors = seq![c1];
            let ghost mut envs = seq![e0];
            let ghost mut statuses: Seq<StepStatus> = Seq::empty();
            let ghost mut inner: Seq<Choices> = Seq::empty();
            while i < n
                invariant
                    0 <= i,
                    n > 0 ==> i <= n,
                    n <= 0 ==> i == 0,
                    n > 0 ==> n == count + 1,
                    depth > 0,
                    self@.wf(),
                    state.instruction_count == e0.instruction_count,
                    state.hrti_start == old(state).hrti_start,
                    accepts_all(*floats),
                    cursors.len() == i + 1,
                    envs.len() == i + 1,
                    statuses.len() == i,
                    inner.len() == i,
                    cursors[0] == c1,
                    envs[0] == e0,
                    cursors[i as int] == self@,
                    envs[i as int] == state@,
                    repetitions(*floats, (depth - 1) as nat, t, *settings, cursors, envs, statuses, inner),
                decreases n - i,
            {
                let ghost cm = self@;
                let ghost em = state@;
                let ghost mut st = StepStatus::Normal;
                let ghost mut wi = Choices::Plain;
                if t == 35 {
                    self.step_position_inner(state);
                } else {
                    let (status, choices) = self.do_op(t, state, settings, floats, depth - 1);
                    proof {
                        st = status;
                        wi = choices@;
                    }
                }
                proof {
                    assert(repetition(*floats, (depth - 1) as nat, t, cm, em, *settings, self@, state@, st, wi));
                    let ghost c0 = cursors;
                    let ghost e0s = envs;
                    let ghost s0 = statuses;
                    let ghost i0 = inner;
                    cursors = cursors.push(self@);
                    envs = envs.push(state@);
                    statuses = statuses.push(st);
                    inner = inner.push(wi);
                    assert(cursors.drop_last() =~= c0);
                    assert(envs.drop_last() =~= e0s);
                    assert(statuses.drop_last() =~= s0);
                    assert(inner.drop_last() =~= i0);
                }
                i = i + 1;
            }
            proof {
                assert(i as nat == repeat_count(count));
                w = Choices::Repeat { cursors, envs, statuses, inner };
            }
        }
        let ghost mid = self@;
        self.position = (a, b);
        assert(self@ == mid.at(target));
        (StepStatus::Normal, Ghost(w))
    }

    /// Carries out one instruction. `depth` bounds the nesting of `k`.
    pub(crate) fn do_op<F: FloatUnit>(
        &mut self,
        op: u8,
        state: &mut StateTempName,
        settings: &Settings,
        floats: &F,
        depth: u64,
    ) -> (r: (
        StepStatus,
        Ghost<Choices>,
    ))
        requires
            accepts_all(*floats),
            old(self)@.wf(),
        ensures
            final(self)@.wf(),
            final(state).instruction_count == old(state).instruction_count,
            final(state).hrti_start == old(state).hrti_start,
            !(65 <= op <= 90) && op != 107 ==> final(state).hrti_marks@ == old(state).hrti_marks@,
            65 <= op <= 90 ==> histories_kept(*old(state), *final(state))
                && final(state).hrti_marks@.remove(old(self).id) == old(state).hrti_marks@.remove(
                old(self).id,
            ),
            op != 112 && op != 107 ==> final(state).put_history@ == old(state).put_history@,
            op != 103 && op != 107 ==> final(state).get_history@ == old(state).get_history@,
            op == 112 ==> final(state).put_history@.remove(cell_target(old(self)@))
                == old(state).put_history@.remove(cell_target(old(self)@)),
            op == 103 ==> final(state).get_history@.remove(cell_target(old(self)@))
                == old(state).get_history@.remove(cell_target(old(self)@)),
            op == 112 ==> (r.1@ matches Choices::Clock(readings) && match readings {
                Some((elapsed, limit)) => settings.put_history && old(state).put_history@.contains_key(
                    cell_target(old(self)@),
                ) && (elapsed <= limit ==> final(state).put_history@ == old(state).put_history@),
                None => !(settings.put_history && old(state).put_history@.contains_key(cell_target(old(self)@))),
            }),
            op == 103 ==> (r.1@ matches Choices::Clock(readings) && match readings {
                Some((elapsed, limit)) => settings.get_history && old(state).get_history@.contains_key(
                    cell_target(old(self)@),
                ) && (elapsed <= limit ==> final(state).get_history@ == old(state).get_history@),
                None => !(settings.get_history && old(state).get_history@.contains_key(cell_target(old(self)@))),
            }),
            op != 35 && op != 39 && op != 115 && op != 107 ==> final(state).pos_history@ == old(
                state,
            ).pos_history@,
            op == 35 || op == 39 || op == 115 ==> final(state).pos_history@.remove(old(self).position)
                == old(state).pos_history@.remove(old(self).position),
            op_step(*floats, 
                depth as nat,
                op,
                old(self)@,
                old(state)@,
                *settings,
                Outcome { cursor: final(self)@, env: final(state)@, status: r.0 },
                r.1@,
            ),
        decreases depth, 1nat,
    {
        proof {
            lemma_plain_op(op, self@, state@, *settings);
        }
        if is_cursor_instruction(op) {
            return (self.op_cursor(op, Ghost(state@), Ghost(*settings)), Ghost(Choices::Plain));
        }
        if op == 35 {
            self.step_position(state, settings);
            self.step_position_inner(state);
            return (StepStatus::NormalNoStep, Ghost(Choices::Plain));
        }
        if op == 63 {
            let d = self.op_random_direction();
            return (StepStatus::Normal, Ghost(Choices::Turn(d)));
        }
        if op == 112 {
            let readings = self.op_put(state, settings);
            return (StepStatus::Normal, Ghost(Choices::Clock(readings)));
        }
        if op == 103 {
            let readings = self.op_get(state, settings);
            return (StepStatus::Normal, Ghost(Choices::Clock(readings)));
        }
        if op == 38 {
            return (self.op_read_number(state, settings), Ghost(Choices::Plain));
        }
        if op == 126 {
            return (self.op_read_char(state, settings), Ghost(Choices::Plain));
        }
        if op == 64 {
            return (StepStatus::Die, Ghost(Choices::Plain));
        }
        if op == 46 {
            self.op_put_number(state);
            return (StepStatus::Normal, Ghost(Choices::Plain));
        }
        if op == 44 {
            return (self.op_put_char(state), Ghost(Choices::Plain));
        }
        if op == 39 {
            self.step_position(state, settings);
            let v = state.map.get(self.position);
            self.push(v);
            self.step_position_inner(state);
            return (StepStatus::NormalNoStep, Ghost(Choices::Plain));
        }
        if op == 59 {
            self.op_skip_comment(state);
            return (StepStatus::Normal, Ghost(Choices::Plain));
        }
        if op == 61 {
            return (StepStatus::Error("Execute is not yet implemented"), Ghost(Choices::Plain));
        }
        if op == 40 {
            let clock = state.hrti_start.is_some();
            self.op_load(clock);
            return (StepStatus::Normal, Ghost(Choices::Plain));
        }
        if op == 41 {
            let clock = state.hrti_start.is_some();
            self.op_unload(clock);
            return (StepStatus::Normal, Ghost(Choices::Plain));
        }
        if 65 <= op && op <= 90 {
            let w = self.run_letter(op, state, settings, floats);
            return (StepStatus::Normal, w);
        }
        if op == 106 {
            self.op_jump(state);
            return (StepStatus::NormalNoStep, Ghost(Choices::Plain));
        }
        if op == 107 {
            let (status, w) = self.op_iterate(state, settings, floats, depth);
            return (status, w);
        }
        if op == 113 {
            return (StepStatus::Error("Quit is not yet properly implemented"), Ghost(Choices::Plain));
        }
        if op == 115 {
            self.step_position(state, settings);
            let a = self.pop();
            state.map.set_inner(self.position, a);
            self.step_position_inner(state);
            return (StepStatus::NormalNoStep, Ghost(Choices::Plain));
        }
        if op == 116 {
            return (StepStatus::Clone, Ghost(Choices::Plain));
        }
        if op == 117 {
            return (self.op_under(), Ghost(Choices::Plain));
        }
        if op == 121 {
            let sep = self.op_sysinfo(state);
            return (StepStatus::Normal, Ghost(Choices::Separator(sep@)));
        }
        if op == 123 {
            self.op_begin_block(state);
            return (StepStatus::Normal, Ghost(Choices::Plain));
        }
        if op == 125 {
            return (self.op_end_block(), Ghost(Choices::Plain));
        }
        (StepStatus::Error("Invalid operation"), Ghost(Choices::Plain))
    }

    /// Carries out the cell under the cursor, or pushes it in string mode,
    /// and moves on unless the instruction moved the cursor itself.
    fn step_inner<F: FloatUnit>(
        &mut self,
        state: &mut StateTempName,
        settings: &Settings,
        floats: &F,
    ) -> (r: (
        StepStatus,
        Ghost<Choices>,
        Ghost<Outcome>,
    ))
        requires
            accepts_all(*floats),
            old(self)@.wf(),
            FungeSpaceView::nullable_readable(old(self).position),
        ensures
            final(self)@.wf(),
            final(state).instruction_count == old(state).instruction_count,
            final(state).hrti_start == old(state).hrti_start,
            tick(*floats, 
                old(self)@,
                old(state)@,
                *settings,
                Outcome { cursor: final(self)@, env: final(state)@, status: r.0 },
                r.1@,
                r.2@,
            ),
    {
        let op = state.map.get_nullable(self.position);
        if self.string_mode {
            let op = match op {
                Some(v) => v,
                None => SPACE,
            };
            if op == 34 {
                self.string_mode = false;
            } else {
                self.push(op);
            }
            self.step_position(state, settings);
            (StepStatus::Normal, Ghost(Choices::Plain), Ghost(arbitrary()))
        } else if let Some(op) = op {
            if 0 <= op && op <= 255 {
                let (status, w) = self.do_op(op as u8, state, settings, floats, DEPTH);
                let ghost m = Outcome { cursor: self@, env: state@, status };
                match &status {
                    StepStatus::Normal | StepStatus::SyncFrame => {
                        self.step_position(state, settings);
                    },
                    _ => {},
                };
                (status, w, Ghost(m))
            } else {
                (StepStatus::Error("Invalid operation"), Ghost(Choices::Plain), Ghost(arbitrary()))
            }
        } else {
            self.step_position(state, settings);
            (StepStatus::Normal, Ghost(Choices::Plain), Ghost(arbitrary()))
        }
    }

    /// One tick of the cursor: the tick is counted, the cell carried out, a
    /// breakpoint honoured, and spaces glided over when the settings ask for
    /// it. The cursor must not stand where the zero page would be read at a
    /// negative index (`get_nullable` fails there).
    pub fn step<F: FloatUnit>(
        &mut self,
        state: &mut StateTempName,
        settings: &Settings,
        floats: &F,
    ) -> (r: StepStatus)
        requires
            accepts_all(*floats),
            old(self)@.wf(),
            FungeSpaceView::nullable_readable(old(self).position),
            old(state).instruction_count < usize::MAX,
        ensures
            final(self)@.wf(),
            final(state).instruction_count == old(state).instruction_count + 1,
            final(state).hrti_start == old(state).hrti_start,
            stepped(*floats, 
                old(self)@,
                old(state)@,
                *settings,
                Outcome { cursor: final(self)@, env: final(state)@, status: r },
            ),
    {
        proof {
            reveal(stepped);
        }
        state.instruction_count = state.instruction_count + 1;
        let ghost e1 = state@;
        let (status, w, m) = self.step_inner(state, settings, floats);
        if set_contains(&state.breakpoints, &self.position) {
            assert(cursor_step(*floats, 
                old(self)@,
                old(state)@,
                *settings,
                Outcome { cursor: self@, env: state@, status: StepStatus::Breakpoint },
                w@,
                m@,
            ));
            return StepStatus::Breakpoint;
        }
        if settings.skip_spaces {
            let ghost c0 = self@;
            let ghost e0 = state@;
            let mut pos: Option<(Value, Value)> = None;
            let mut fuel: u64 = FUEL;
            loop
                invariant_except_break
                    self@.wf(),
                    state.instruction_count == e0.instruction_count,
                    state.hrti_start == old(state).hrti_start,
                    ({
                        let (cf, ef, lf) = glide(self@, state@, *settings, fuel as nat);
                        (cf, ef, match lf {
                            Some(p) => Some(p),
                            None => pos,
                        }) == glide(c0, e0, *settings, FUEL as nat)
                    }),
                ensures
                    self@.wf(),
                    state.instruction_count == e0.instruction_count,
                    state.hrti_start == old(state).hrti_start,
                    (self@, state@, pos) == glide(c0, e0, *settings, FUEL as nat),
                decreases fuel,
            {
                if state.map.get(self.position) == SPACE && fuel > 0 {
                    pos = Some(self.position);
                    self.step_position(state, settings);
                    fuel = fuel - 1;
                } else {
                    break ;
                }
            }
            if let Some(p) = pos {
                self.position = p;
            }
        }
        assert(cursor_step(*floats, 
            old(self)@,
            old(state)@,
            *settings,
            Outcome { cursor: self@, env: state@, status },
            w@,
            m@,
        ));
        status
    }
}

} // verus!
