//! Types shared by the interpreters: cells, positions, the status a tick
//! reports, the visited-cell record and the pixel-graphics surface.
use vstd::prelude::*;

use crate::outside::Moment;

verus! {

/// A cell of funge-space, and an entry of a stack.
pub type Value = i64;

/// A point of funge-space, `(x, y)`.
pub type Position = (i64, i64);

/// Two's-complement wrap of a mathematical integer into a cell.
pub open spec fn wrap(x: int) -> Value {
    vstd::wrapping::i64_specs::signed_crop(x)
}

/// Division truncated toward zero, as Rust's `/` on integers.
pub open spec fn trunc_div(x: int, d: int) -> int {
    if x >= 0 && d > 0 {
        x / d
    } else if x < 0 && d < 0 {
        (-x) / (-d)
    } else if x < 0 {
        -((-x) / d)
    } else {
        -(x / (-d))
    }
}

/// Remainder of the truncated division, as Rust's `%`: it takes the sign
/// of `x`.
pub open spec fn trunc_rem(x: int, d: int) -> int {
    if x >= 0 && d > 0 {
        x % d
    } else if x < 0 && d < 0 {
        -((-x) % (-d))
    } else if x < 0 {
        -((-x) % d)
    } else {
        x % (-d)
    }
}

/// Absolute value.
pub open spec fn abs(x: int) -> int {
    if x < 0 {
        -x
    } else {
        x
    }
}

/// A cell in range is its own wrap.
pub proof fn lemma_wrap_in_range(x: int)
    requires
        i64::MIN <= x <= i64::MAX,
    ensures
        wrap(x) == x,
{
}

/// Division of naturals shrinks, strictly for a divisor above 1.
pub proof fn lemma_div_shrinks(x: int, d: int)
    requires
        x >= 0,
        d > 0,
    ensures
        0 <= x / d <= x,
        d >= 2 && x > 0 ==> x / d < x,
        0 <= x % d < d,
{
    assert(0 <= x / d <= x) by (nonlinear_arith)
        requires
            x >= 0,
            d > 0,
    ;
    assert(d >= 2 && x > 0 ==> x / d < x) by (nonlinear_arith)
        requires
            x >= 0,
            d > 0,
    ;
}

/// A truncated quotient of cells is a cell, but for the most negative cell
/// divided by -1; a truncated remainder of cells is a cell, and it is 0 for
/// a divisor of -1.
pub proof fn lemma_trunc_bounds(x: int, d: int)
    requires
        i64::MIN <= x <= i64::MAX,
        i64::MIN <= d <= i64::MAX,
        d != 0,
    ensures
        !(x == i64::MIN && d == -1) ==> i64::MIN <= trunc_div(x, d) <= i64::MAX,
        x == i64::MIN && d == -1 ==> trunc_div(x, d) == 0x8000_0000_0000_0000,
        i64::MIN <= trunc_rem(x, d) <= i64::MAX,
        d == -1 ==> trunc_rem(x, d) == 0,
{
    if x >= 0 && d > 0 {
        lemma_div_shrinks(x, d);
    } else if x < 0 && d < 0 {
        lemma_div_shrinks(-x, -d);
    } else if x < 0 {
        lemma_div_shrinks(-x, d);
    } else {
        lemma_div_shrinks(x, -d);
    }
}

/// What a tick of an interpreter reports to the editor.
#[derive(Debug)]
pub enum StepStatus {
    Normal,
    Breakpoint,
    Error(&'static str),
}

/// An event of the graphics window that a program can poll.
#[derive(Clone, Copy, Debug, PartialEq, Eq)]
pub enum GraphicalEvent {
    Close,
    MouseClick((Value, Value)),
}

/// A drawing request that a program made, in the order it made them.
#[derive(Clone, Copy, Debug, PartialEq, Eq)]
pub enum DrawCommand {
    /// Fill the whole surface with a colour.
    Fill((u8, u8, u8)),
    /// Draw a line from `(x1, y1)` to `(x2, y2)` in a colour.
    Line { from: (i32, i32), to: (i32, i32), color: (u8, u8, u8) },
    /// Set one pixel to a colour.
    Pixel { at: (Value, Value), color: (u8, u8, u8) },
}

/// The pixel surface of a program: its size, the current colour, the
/// events waiting to be polled and the drawing requests made so far, which
/// the editor renders.
pub struct Graphics {
    pub size: (usize, usize),
    pub current_color: (u8, u8, u8),
    pub event_queue: std::collections::VecDeque<GraphicalEvent>,
    pub commands: Vec<DrawCommand>,
}

/// The largest width or height of a surface.
pub const MAX_IMAGE_SIZE: i64 = 4096;

impl Graphics {
    /// A black surface of the given size, with no events and no drawing.
    pub fn new(width: usize, height: usize) -> (g: Graphics)
        ensures
            g.size == (width, height),
            g.current_color == (0u8, 0u8, 0u8),
            g.event_queue@ == Seq::<GraphicalEvent>::empty(),
            g.commands@ == Seq::<DrawCommand>::empty(),
    {
        Graphics {
            size: (width, height),
            current_color: (0, 0, 0),
            event_queue: std::collections::VecDeque::new(),
            commands: Vec::new(),
        }
    }

    /// Requests that the whole surface be filled with the current colour.
    pub fn fill(&mut self)
        ensures
            final(self).size == old(self).size,
            final(self).current_color == old(self).current_color,
            final(self).event_queue@ == old(self).event_queue@,
            final(self).commands@ == old(self).commands@.push(
                DrawCommand::Fill(old(self).current_color),
            ),
    {
        let color = self.current_color;
        self.commands.push(DrawCommand::Fill(color));
    }

    /// Requests a line in the current colour.
    pub fn line(&mut self, x1: i32, y1: i32, x2: i32, y2: i32)
        ensures
            final(self).size == old(self).size,
            final(self).current_color == old(self).current_color,
            final(self).event_queue@ == old(self).event_queue@,
            final(self).commands@ == old(self).commands@.push(
                DrawCommand::Line { from: (x1, y1), to: (x2, y2), color: old(self).current_color },
            ),
    {
        let color = self.current_color;
        self.commands.push(DrawCommand::Line { from: (x1, y1), to: (x2, y2), color });
    }

    /// Requests one pixel in the current colour.
    pub fn pixel(&mut self, x: Value, y: Value)
        ensures
            final(self).size == old(self).size,
            final(self).current_color == old(self).current_color,
            final(self).event_queue@ == old(self).event_queue@,
            final(self).commands@ == old(self).commands@.push(
                DrawCommand::Pixel { at: (x, y), color: old(self).current_color },
            ),
    {
        let color = self.current_color;
        self.commands.push(DrawCommand::Pixel { at: (x, y), color });
    }
}

/// The directions in which a cursor has left a cell.
#[derive(Clone, Copy, Debug, Default, PartialEq, Eq)]
pub struct WhereVisited {
    pub north: bool,
    pub south: bool,
    pub east: bool,
    pub west: bool,
}

/// What the editor shows of a cell that cursors have passed: the directions
/// in which they left it, and when they last left it in each direction. A
/// time is meaningful only where its flag is set.
#[derive(Clone, Copy, Debug)]
pub struct Visited {
    pub wawa: WhereVisited,
    pub north: Moment,
    pub south: Moment,
    pub east: Moment,
    pub west: Moment,
}

} // verus!
