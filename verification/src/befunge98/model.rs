//! The mathematical model of a cursor and of the state that cursors share,
//! and the small steps of the instruction set written over it.
use vstd::prelude::*;

use crate::befunge::{DrawCommand, GraphicalEvent, Position, Value, WhereVisited, wrap};
use crate::befunge98::fingerprints::FingerprintFunction;
use crate::befunge98::{Direction, FungeSpaceView};
use crate::settings::Settings;

verus! {

/// The value a pop takes from a stack: its top, or 0 from an empty one.
pub open spec fn top(s: Seq<Value>) -> Value {
    if s.len() == 0 {
        0
    } else {
        s.last()
    }
}

/// A stack after a pop: without its top, or unchanged when empty.
pub open spec fn popped(s: Seq<Value>) -> Seq<Value> {
    if s.len() == 0 {
        s
    } else {
        s.drop_last()
    }
}

/// The cells of the 0-terminated string on top of a stack, top first: the
/// cells above the topmost 0 (the bottom of the stack ends it too).
pub open spec fn string_cells(t: Seq<Value>) -> Seq<Value>
    decreases t.len(),
{
    if t.len() == 0 || t.last() == 0 {
        Seq::empty()
    } else {
        seq![t.last()] + string_cells(t.drop_last())
    }
}

/// A stack after its top string and the 0 that ends it are popped.
pub open spec fn after_string(t: Seq<Value>) -> Seq<Value>
    decreases t.len(),
{
    if t.len() == 0 {
        t
    } else if t.last() == 0 {
        t.drop_last()
    } else {
        after_string(t.drop_last())
    }
}

/// Whether a cell, taken as a `u32`, is a Unicode scalar value.
pub open spec fn is_char_cell(v: Value) -> bool {
    let u = v as u32;
    u <= 0xD7FF || (0xE000 <= u && u <= 0x10FFFF)
}

/// The character of such a cell.
pub open spec fn cell_char(v: Value) -> char {
    (v as u32) as char
}

/// What a cursor is: its storage offset, its stack of stacks (the top of
/// stack stack last), where it is, where it goes, whether it reads a
/// string, its identity and what each letter A to Z stands for.
#[verifier::ext_equal]
pub struct CursorView {
    pub storage_offset: Position,
    pub stacks: Seq<Seq<Value>>,
    pub position: Position,
    pub direction: Direction,
    pub string_mode: bool,
    pub id: usize,
    pub fingerprints: Seq<Seq<FingerprintFunction>>,
}

impl CursorView {
    /// A cursor always has a stack, and one semantic stack per letter.
    pub open spec fn wf(self) -> bool {
        self.stacks.len() >= 1 && self.fingerprints.len() == 26
    }

    /// The top of stack stack: the stack that instructions work on.
    pub open spec fn toss(self) -> Seq<Value> {
        self.stacks.last()
    }

    /// The cursor with another top of stack stack.
    pub open spec fn with_toss(self, t: Seq<Value>) -> CursorView {
        CursorView { stacks: self.stacks.update(self.stacks.len() - 1, t), ..self }
    }

    /// The value a pop gives.
    pub open spec fn top(self) -> Value {
        top(self.toss())
    }

    /// The cursor after a pop.
    pub open spec fn pop(self) -> CursorView {
        self.with_toss(popped(self.toss()))
    }

    /// The cursor after a push.
    pub open spec fn push(self, v: Value) -> CursorView {
        self.with_toss(self.toss().push(v))
    }

    /// The cursor moved to another position.
    pub open spec fn at(self, pos: Position) -> CursorView {
        CursorView { position: pos, ..self }
    }

    /// The cursor turned to another direction.
    pub open spec fn facing(self, d: Direction) -> CursorView {
        CursorView { direction: d, ..self }
    }

    /// The second stack from the top, if there is one.
    pub open spec fn has_soss(self) -> bool {
        self.stacks.len() >= 2
    }

    pub open spec fn soss(self) -> Seq<Value> {
        self.stacks[self.stacks.len() - 2]
    }

    /// The cursor with another second stack.
    pub open spec fn with_soss(self, s: Seq<Value>) -> CursorView {
        CursorView { stacks: self.stacks.update(self.stacks.len() - 2, s), ..self }
    }

    /// The cursor with other top and second stacks.
    pub open spec fn with_toss_and_soss(self, t: Seq<Value>, s: Seq<Value>) -> CursorView {
        CursorView {
            stacks: self.stacks.update(self.stacks.len() - 1, t).update(self.stacks.len() - 2, s),
            ..self
        }
    }
}

/// Replacing the top stack twice keeps the last replacement.
pub proof fn lemma_with_toss(c: CursorView, a: Seq<Value>, b: Seq<Value>)
    requires
        c.wf(),
    ensures
        c.with_toss(a).with_toss(b) == c.with_toss(b),
        c.with_toss(a).toss() == a,
        c.with_toss(a).wf(),
{
    assert(c.with_toss(a).with_toss(b).stacks =~= c.with_toss(b).stacks);
}

/// Replacing the second stack twice keeps the last replacement; replacing
/// it by itself changes nothing.
pub proof fn lemma_with_soss(c: CursorView, a: Seq<Value>, b: Seq<Value>)
    requires
        c.wf(),
        c.has_soss(),
    ensures
        c.with_soss(a).with_soss(b) == c.with_soss(b),
        c.with_soss(c.soss()) == c,
        c.with_soss(a).soss() == a,
        c.with_soss(a).wf(),
        c.with_soss(a).has_soss(),
{
    assert(c.with_soss(a).with_soss(b).stacks =~= c.with_soss(b).stacks);
    assert(c.with_soss(c.soss()).stacks =~= c.stacks);
}

/// `n` zeros.
pub open spec fn zeros(n: nat) -> Seq<Value> {
    Seq::new(n, |i: int| 0)
}

/// The stacks after `{` moves `n` cells onto the new top of stack stack:
/// for a negative `n`, |n| zeros go onto the second stack; otherwise the top
/// `n` cells of the second stack move over in order, and where it holds
/// fewer than `n`, zeros stand in for the missing cells below them.
pub open spec fn transfer_to_toss(c: CursorView, n: Value) -> CursorView {
    if n < 0 {
        c.with_soss(c.soss() + zeros((-n) as nat))
    } else if c.soss().len() <= n {
        c.with_toss_and_soss(c.toss() + zeros((n - c.soss().len()) as nat) + c.soss(), Seq::empty())
    } else {
        let k = c.soss().len() - n;
        c.with_toss_and_soss(
            c.toss() + c.soss().subrange(k, c.soss().len() as int),
            c.soss().subrange(0, k),
        )
    }
}

/// The stacks after `}` moves `n` cells back onto the second stack: for a
/// negative `n`, |n| cells are popped off the second stack; otherwise the
/// top `n` cells of the top stack move over in order, and where it holds
/// fewer than `n`, zeros stand in for the missing cells below them.
pub open spec fn transfer_to_soss(c: CursorView, n: Value) -> CursorView {
    if n < 0 {
        let k = c.soss().len() + n;
        c.with_soss(c.soss().subrange(0, if k < 0 { 0 } else { k }))
    } else if c.toss().len() <= n {
        c.with_toss_and_soss(Seq::empty(), c.soss() + zeros((n - c.toss().len()) as nat) + c.toss())
    } else {
        let k = c.toss().len() - n;
        c.with_toss_and_soss(
            c.toss().subrange(0, k),
            c.soss() + c.toss().subrange(k, c.toss().len() as int),
        )
    }
}

/// One coordinate after a move, wrapped the way the interpreter wraps it:
/// stepping onto -1 leads to one past the far edge, stepping past the far
/// edge leads to 0.
pub open spec fn next_coordinate(p: i64, max: i64) -> i64 {
    if p == -1 {
        if max == i64::MAX {
            max
        } else {
            (max + 1) as i64
        }
    } else if wrap(p - 1) >= max {
        0
    } else {
        p
    }
}

/// The position after one move in a direction, within a program of the
/// given size.
pub open spec fn next_position(pos: Position, d: Direction, max: (i64, i64)) -> Position {
    (
        next_coordinate(wrap(pos.0 + d.0), max.0),
        next_coordinate(wrap(pos.1 + d.1), max.1),
    )
}

/// The position after `n` moves.
pub open spec fn advance(pos: Position, d: Direction, max: (i64, i64), n: nat) -> Position
    decreases n,
{
    if n == 0 {
        pos
    } else {
        next_position(advance(pos, d, max, (n - 1) as nat), d, max)
    }
}

/// The record of a cell after a cursor left it in a direction: the flag of
/// that direction set (the east flag for a direction that is none of the
/// four).
pub open spec fn mark_visit(old: Option<WhereVisited>, d: Direction) -> WhereVisited {
    let w = match old {
        Some(w) => w,
        None => WhereVisited { north: false, south: false, east: false, west: false },
    };
    if d == Direction(0, -1i64) {
        WhereVisited { north: true, ..w }
    } else if d == Direction(0, 1) {
        WhereVisited { south: true, ..w }
    } else if d == Direction(-1i64, 0) {
        WhereVisited { west: true, ..w }
    } else {
        WhereVisited { east: true, ..w }
    }
}

/// What the pixel surface is.
#[verifier::ext_equal]
pub struct GraphicsView {
    pub size: (usize, usize),
    pub current_color: (u8, u8, u8),
    pub event_queue: Seq<GraphicalEvent>,
    pub commands: Seq<DrawCommand>,
}

/// What the shared state is: the tick count, funge-space, the cells left
/// (with the directions), the cells read and written with `g` and `p`, the
/// output and the pending input, the pixel surface, the breakpoints, the
/// vectors of REFC, the cursors that hold an HRTI mark, and whether there
/// is a clock for HRTI (there is none on the web). The times that
/// the histories record are not part of it.
#[verifier::ext_equal]
pub struct EnvView {
    pub instruction_count: usize,
    pub map: FungeSpaceView,
    pub visited: Map<Position, WhereVisited>,
    pub gets: Set<Position>,
    pub puts: Set<Position>,
    pub output: Seq<char>,
    pub input: Seq<char>,
    pub graphics: Option<GraphicsView>,
    pub breakpoints: Set<Position>,
    pub refc_vectors: Seq<(Value, Value)>,
    pub hrti_marks: Set<usize>,
    pub clock: bool,
}

impl EnvView {
    /// The state after a cursor left `pos` in direction `d`: the visit is
    /// recorded when the settings ask for it.
    pub open spec fn record_visit(self, pos: Position, d: Direction, s: Settings) -> EnvView {
        if s.pos_history {
            EnvView {
                visited: self.visited.insert(
                    pos,
                    mark_visit(
                        if self.visited.contains_key(pos) {
                            Some(self.visited[pos])
                        } else {
                            None
                        },
                        d,
                    ),
                ),
                ..self
            }
        } else {
            self
        }
    }
}

/// The state after each of the cursors, in order, left its cell.
pub open spec fn record_visits(e: EnvView, cs: Seq<CursorView>, s: Settings) -> EnvView
    decreases cs.len(),
{
    if cs.len() == 0 {
        e
    } else {
        record_visits(e, cs.drop_last(), s).record_visit(cs.last().position, cs.last().direction, s)
    }
}

/// A cursor's ordinary move: one step, with the cell it left recorded.
pub open spec fn moved(c: CursorView, e: EnvView, s: Settings) -> (CursorView, EnvView) {
    (
        c.at(next_position(c.position, c.direction, e.map.max_size)),
        e.record_visit(c.position, c.direction, s),
    )
}

} // verus!
