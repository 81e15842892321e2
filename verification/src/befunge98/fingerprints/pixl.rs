//! PIXL: pixel graphics on a surface that the program creates.
use vstd::prelude::*;

use crate::befunge::{DrawCommand, GraphicalEvent, Graphics, MAX_IMAGE_SIZE, Value};
use crate::befunge98::fingerprints::{Fingerprint, FingerprintFunction, FingerprintName, fingerprint_map, table};
use crate::befunge98::model::{CursorView, EnvView, GraphicsView};
use crate::befunge98::{Cursor, Env};
use crate::befunge98::records_kept;
use crate::settings::Settings;

verus! {

/// The table of PIXL: `c`, `f`, `l`, `s`, `u`, `x` and `z`.
pub open spec fn letters_table() -> Seq<Option<FingerprintFunction>> {
    table(FingerprintName::Pixl, seq![99u8, 102, 108, 115, 117, 120, 122])
}

/// The letters of PIXL.
pub fn list_of_ops() -> (r: Fingerprint)
    ensures
        r@ == letters_table(),
{
    let letters: [u8; 7] = [99, 102, 108, 115, 117, 120, 122];
    assert(letters@ =~= seq![99u8, 102, 108, 115, 117, 120, 122]);
    fingerprint_map(FingerprintName::Pixl, letters.as_slice())
}

/// The state with another surface.
pub open spec fn with_graphics(e: EnvView, g: GraphicsView) -> EnvView {
    EnvView { graphics: Some(g), ..e }
}

/// The surface after a drawing request.
pub open spec fn drawn(g: GraphicsView, cmd: DrawCommand) -> GraphicsView {
    GraphicsView { commands: g.commands.push(cmd), ..g }
}

/// The cursor turned around.
pub open spec fn reflected(c: CursorView) -> CursorView {
    c.facing(c.direction.spec_reverse())
}

/// Whether a cell is a colour component.
pub open spec fn is_byte(v: Value) -> bool {
    0 <= v <= 255
}

/// Whether a cell is a coordinate of a line.
pub open spec fn fits_i32(v: Value) -> bool {
    i32::MIN <= v <= i32::MAX
}

/// The cell `k` places below the top of the stack (0 where the stack is
/// shorter).
pub open spec fn nth(c: CursorView, k: nat) -> Value
    decreases k,
{
    if k == 0 {
        c.top()
    } else {
        nth(c.pop(), (k - 1) as nat)
    }
}

/// What `C` does: with a surface, a fill in the current colour is requested.
pub open spec fn fill_result(c: CursorView, e: EnvView) -> (CursorView, EnvView) {
    (
        c,
        match e.graphics {
            Some(g) => with_graphics(e, drawn(g, DrawCommand::Fill(g.current_color))),
            None => e,
        },
    )
}

/// What `F` does: with a surface, red, green and blue are popped and become
/// the current colour; a component that is not a byte reflects.
pub open spec fn color_result(c: CursorView, e: EnvView) -> (CursorView, EnvView) {
    match e.graphics {
        Some(g) => {
            let r = nth(c, 0);
            let gr = nth(c, 1);
            let b = nth(c, 2);
            let c3 = c.pop().pop().pop();
            if is_byte(r) && is_byte(gr) && is_byte(b) {
                (c3, with_graphics(e, GraphicsView { current_color: (r as u8, gr as u8, b as u8), ..g }))
            } else {
                (reflected(c3), e)
            }
        },
        None => (c, e),
    }
}

/// Whether the ends of a line that `L` would pop are `i32`s (there is
/// nothing to check without a surface).
pub open spec fn line_fits(c: CursorView, e: EnvView) -> bool {
    e.graphics is Some ==> fits_i32(nth(c, 0)) && fits_i32(nth(c, 1)) && fits_i32(nth(c, 2))
        && fits_i32(nth(c, 3))
}

/// What `L` does: with a surface, the ends of a line are popped, `(x1, y1)`
/// then `(x2, y2)`, and the line is requested; an end beyond the surface's
/// width or height reflects.
pub open spec fn line_result(c: CursorView, e: EnvView) -> (CursorView, EnvView) {
    match e.graphics {
        Some(g) => {
            let y1 = nth(c, 0) as i32;
            let x1 = nth(c, 1) as i32;
            let y2 = nth(c, 2) as i32;
            let x2 = nth(c, 3) as i32;
            let c4 = c.pop().pop().pop().pop();
            if x1 >= g.size.0 as i32 || y1 >= g.size.1 as i32 || x2 >= g.size.0 as i32 || y2
                >= g.size.1 as i32 {
                (reflected(c4), e)
            } else {
                (
                    c4,
                    with_graphics(
                        e,
                        drawn(g, DrawCommand::Line { from: (x1, y1), to: (x2, y2), color: g.current_color }),
                    ),
                )
            }
        },
        None => (c, e),
    }
}

/// What `S` does: a height and a width are popped and a blank surface of
/// that size is made; a side that is not positive or exceeds the largest
/// size reflects.
pub open spec fn screen_result(c: CursorView, e: EnvView) -> (CursorView, EnvView) {
    let y = nth(c, 0);
    let x = nth(c, 1);
    let c2 = c.pop().pop();
    if y <= 0 || x <= 0 || x > MAX_IMAGE_SIZE || y > MAX_IMAGE_SIZE {
        (reflected(c2), e)
    } else {
        (
            c2,
            with_graphics(
                e,
                GraphicsView {
                    size: (x as usize, y as usize),
                    current_color: (0u8, 0u8, 0u8),
                    event_queue: Seq::empty(),
                    commands: Seq::empty(),
                },
            ),
        )
    }
}

/// What `X` does: with a surface, `y` and `x` are popped and that pixel is
/// set to the current colour.
pub open spec fn pixel_result(c: CursorView, e: EnvView) -> (CursorView, EnvView) {
    match e.graphics {
        Some(g) => (
            c.pop().pop(),
            with_graphics(
                e,
                drawn(g, DrawCommand::Pixel { at: (nth(c, 1), nth(c, 0)), color: g.current_color }),
            ),
        ),
        None => (c, e),
    }
}

/// What `Z` does: with a surface, its oldest event is taken: 1 is pushed
/// for a close, `x`, `y` and 4 for a click, 0 when no event waits.
pub open spec fn poll_result(c: CursorView, e: EnvView) -> (CursorView, EnvView) {
    match e.graphics {
        Some(g) => if g.event_queue.len() == 0 {
            (c.push(0), e)
        } else {
            (
                match g.event_queue[0] {
                    GraphicalEvent::Close => c.push(1),
                    GraphicalEvent::MouseClick((x, y)) => c.push(x).push(y).push(4),
                },
                with_graphics(e, GraphicsView { event_queue: g.event_queue.drop_first(), ..g }),
            )
        },
        None => (c, e),
    }
}

/// `C`: fills the surface with the current colour, if there is a surface.
pub fn pixl_c(_this: &mut Cursor, state: &mut Env, _settings: &Settings)
    ensures
        (final(_this)@, final(state)@) == fill_result(old(_this)@, old(state)@),
        records_kept(*old(state), *final(state)),
{
    match &mut state.graphics {
        Some(graphics) => {
            graphics.fill();
        },
        None => {},
    }
}

/// `F`: pops red, green and blue and makes them the current colour, if
/// there is a surface; reflects when one of them is not a byte.
pub fn pixl_f(this: &mut Cursor, state: &mut Env, _settings: &Settings)
    requires
        old(this)@.wf(),
    ensures
        (final(this)@, final(state)@) == color_result(old(this)@, old(state)@),
        records_kept(*old(state), *final(state)),
{
    match &mut state.graphics {
        Some(graphics) => {
            let r = this.pop();
            let g = this.pop();
            let b = this.pop();
            proof {
                reveal_with_fuel(nth, 3);
            }
            if 0 <= r && r <= 255 && 0 <= g && g <= 255 && 0 <= b && b <= 255 {
                graphics.current_color = (r as u8, g as u8, b as u8);
            } else {
                this.direction = this.direction.reverse();
            }
        },
        None => {},
    }
}

/// `L`: pops the ends of a line, `(x1, y1)` and then `(x2, y2)`, and draws
/// it in the current colour, if there is a surface; reflects when an end
/// lies beyond the surface's width or height. Each coordinate must be an
/// `i32` (the conversion fails otherwise).
pub fn pixl_l(this: &mut Cursor, state: &mut Env, _settings: &Settings)
    requires
        old(this)@.wf(),
        line_fits(old(this)@, old(state)@),
    ensures
        (final(this)@, final(state)@) == line_result(old(this)@, old(state)@),
        records_kept(*old(state), *final(state)),
{
    proof {
        reveal_with_fuel(nth, 4);
    }
    match &mut state.graphics {
        Some(graphics) => {
            let y1 = this.pop() as i32;
            let x1 = this.pop() as i32;
            let y2 = this.pop() as i32;
            let x2 = this.pop() as i32;
            if x1 >= graphics.size.0 as i32 || y1 >= graphics.size.1 as i32 || x2
                >= graphics.size.0 as i32 || y2 >= graphics.size.1 as i32 {
                this.direction = this.direction.reverse();
                return;
            }
            graphics.line(x1, y1, x2, y2);
        },
        None => {},
    }
}

/// `S`: pops a height and a width and creates a blank surface of that
/// size; reflects when a side is not positive or exceeds the largest size.
pub fn pixl_s(this: &mut Cursor, state: &mut Env, _settings: &Settings)
    requires
        old(this)@.wf(),
    ensures
        (final(this)@, final(state)@) == screen_result(old(this)@, old(state)@),
        records_kept(*old(state), *final(state)),
{
    proof {
        reveal_with_fuel(nth, 2);
    }
    let y = this.pop();
    let x = this.pop();
    if y <= 0 || x <= 0 || x > MAX_IMAGE_SIZE || y > MAX_IMAGE_SIZE {
        this.direction = this.direction.reverse();
        return;
    }
    let g = Graphics::new(x as usize, y as usize);
    state.graphics = Some(g);
    assert(state@.graphics == Some(g@));
}

/// `U`: does nothing.
pub fn pixl_u(this: &mut Cursor, state: &mut Env, _settings: &Settings)
    ensures
        *final(this) == *old(this),
        *final(state) == *old(state),
{
}

/// `X`: pops `y` and `x` and sets that pixel to the current colour, if
/// there is a surface.
pub fn pixl_x(this: &mut Cursor, state: &mut Env, _settings: &Settings)
    requires
        old(this)@.wf(),
    ensures
        (final(this)@, final(state)@) == pixel_result(old(this)@, old(state)@),
        records_kept(*old(state), *final(state)),
{
    proof {
        reveal_with_fuel(nth, 2);
    }
    match &mut state.graphics {
        Some(graphics) => {
            let y = this.pop();
            let x = this.pop();
            graphics.pixel(x, y);
        },
        None => {},
    }
}

/// `Z`: polls the oldest event of the surface, if there is a surface:
/// pushes 1 for a close, `x`, `y` and 4 for a click, and 0 when no event
/// waits.
pub fn pixl_z(this: &mut Cursor, state: &mut Env, _settings: &Settings)
    requires
        old(this)@.wf(),
    ensures
        (final(this)@, final(state)@) == poll_result(old(this)@, old(state)@),
        records_kept(*old(state), *final(state)),
{
    match &mut state.graphics {
        Some(graphics) => {
            match graphics.event_queue.pop_front() {
                Some(event) => {
                    match event {
                        GraphicalEvent::Close => this.push(1),
                        GraphicalEvent::MouseClick((x, y)) => {
                            this.push(x);
                            this.push(y);
                            this.push(4);
                        },
                    }
                },
                None => this.push(0),
            }
        },
        None => {},
    }
}

} // verus!
