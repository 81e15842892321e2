//! The Befunge-98 interpreter: funge-space, directions, cursors and the
//! state that the cursors share.
use vstd::prelude::*;

pub mod fingerprints;
pub mod instruction_laws;
pub mod laws;
pub mod letters;
pub mod model;
pub mod ops;
pub mod semantics;

use crate::befunge::StepStatus as TickStatus;
use crate::befunge::{Graphics, Position, Value, Visited, WhereVisited, wrap};
use crate::outside::{
    Moment, PositionMap, PositionSet, char_from_u32, map_entries, map_get, map_insert, map_remove,
    recent_instant, std_now, string_push,
};
use crate::settings::{InvalidOperationBehaviour, Settings};

use self::fingerprints::{FingerprintFunction, FloatUnit, accepts_all};
use self::model::{
    CursorView, EnvView, GraphicsView, after_string, cell_char, is_char_cell, lemma_with_soss,
    lemma_with_toss, mark_visit, moved, next_coordinate, next_position, popped, record_visits,
    string_cells, transfer_to_soss, transfer_to_toss, zeros,
};
use self::semantics::{
    Outcome, Pass, StateView, lemma_run_push, remove_dead, run, run_valid, settle, state_step,
};

verus! {

/// The code of a space, the empty cell.
pub const SPACE: Value = 32;

/// What one cursor's tick reports to the state that drives it.
#[derive(Debug)]
pub enum StepStatus {
    Normal,
    NormalNoStep,
    Breakpoint,
    Die,
    Error(&'static str),
    SyncFrame,
    Clone,
}

/// Whether a position lies on the zero page, the 10 by 10 square at the
/// origin that is kept in an array.
pub open spec fn in_zero_page(pos: Position) -> bool {
    0 <= pos.0 < 10 && 0 <= pos.1 < 10
}

/// The index of a position on the zero page (also what `get_nullable`
/// reads for the positions left of or above it that share a row or column
/// with the zero page).
pub open spec fn zero_page_index(pos: Position) -> int {
    pos.0 + pos.1 * 10
}

/// The zero-page cell at an index.
pub open spec fn zero_page_position(i: int) -> Position {
    ((i % 10) as i64, (i / 10) as i64)
}

/// What funge-space holds: the cells stored off the zero page, the zero
/// page, and the bounding size of the program.
#[verifier::ext_equal]
pub struct FungeSpaceView {
    pub cells: Map<Position, Value>,
    pub zero_page: Seq<Value>,
    pub max_size: (i64, i64),
}

impl FungeSpaceView {
    /// The value that `get` reads at a position: 0 left of or above the
    /// origin, the zero page near it, and elsewhere the stored cell or a
    /// space.
    pub open spec fn get(self, pos: Position) -> Value {
        if pos.0 < 0 || pos.1 < 0 {
            0
        } else if pos.0 < 10 && pos.1 < 10 {
            self.zero_page[zero_page_index(pos)]
        } else if self.cells.contains_key(pos) {
            self.cells[pos]
        } else {
            SPACE
        }
    }

    /// The value that `get_nullable` reads: the zero page where both
    /// coordinates are below 10, and elsewhere the stored cell if there is
    /// one.
    pub open spec fn get_nullable(self, pos: Position) -> Option<Value> {
        if pos.0 < 10 && pos.1 < 10 {
            Some(self.zero_page[zero_page_index(pos)])
        } else if self.cells.contains_key(pos) {
            Some(self.cells[pos])
        } else {
            None
        }
    }

    /// Funge-space after writing a value at a position: nothing changes left
    /// of or above the origin; the zero page takes the value near it;
    /// elsewhere a space is stored as an absent cell, and the program's size
    /// grows to take the position in.
    pub open spec fn set(self, pos: Position, val: Value) -> FungeSpaceView {
        if pos.0 < 0 || pos.1 < 0 {
            self
        } else if pos.0 < 10 && pos.1 < 10 {
            FungeSpaceView {
                zero_page: self.zero_page.update(zero_page_index(pos), val),
                ..self
            }
        } else {
            FungeSpaceView {
                cells: if val == SPACE {
                    self.cells.remove(pos)
                } else {
                    self.cells.insert(pos, val)
                },
                zero_page: self.zero_page,
                max_size: (
                    if pos.0 > self.max_size.0 {
                        pos.0
                    } else {
                        self.max_size.0
                    },
                    if pos.1 > self.max_size.1 {
                        pos.1
                    } else {
                        self.max_size.1
                    },
                ),
            }
        }
    }

    /// The zero page has its hundred cells.
    pub open spec fn wf(self) -> bool {
        self.zero_page.len() == 100
    }

    /// Whether `get_nullable` can read a position without failing: near the
    /// origin its index must not be negative.
    pub open spec fn nullable_readable(pos: Position) -> bool {
        pos.0 < 10 && pos.1 < 10 ==> 0 <= zero_page_index(pos)
    }
}

/// Pops a 0-terminated string off a stack: the cells down to the first 0
/// (or to the bottom) and the 0 itself are popped; the string is given when
/// every cell is a character.
pub fn pop_zero_terminated(t: &mut Vec<Value>) -> (r: Option<String>)
    ensures
        final(t)@ == after_string(old(t)@),
        match r {
            Some(s) => (forall|k: int|
                0 <= k < string_cells(old(t)@).len() ==> is_char_cell(
                    #[trigger] string_cells(old(t)@)[k],
                )) && s@ == string_cells(old(t)@).map_values(|v: Value| cell_char(v)),
            None => exists|k: int|
                0 <= k < string_cells(old(t)@).len() && !is_char_cell(
                    #[trigger] string_cells(old(t)@)[k],
                ),
        },
{
    let ghost t0 = t@;
    let ghost mut popped: Seq<Value> = Seq::empty();
    let mut s = String::new();
    let mut ok = true;
    loop
        invariant_except_break
            string_cells(t0) == popped + string_cells(t@),
            after_string(t@) == after_string(t0),
        invariant
            t0 == old(t)@,
            ok <==> forall|k: int| 0 <= k < popped.len() ==> is_char_cell(#[trigger] popped[k]),
            ok ==> s@ == popped.map_values(|v: Value| cell_char(v)),
        ensures
            t@ == after_string(t0),
            t0 == old(t)@,
            string_cells(t0) == popped,
            ok <==> forall|k: int| 0 <= k < popped.len() ==> is_char_cell(#[trigger] popped[k]),
            ok ==> s@ == popped.map_values(|v: Value| cell_char(v)),
        decreases t@.len(),
    {
        let ghost before = t@;
        let v = match t.pop() {
            Some(v) => v,
            None => 0,
        };
        if v == 0 {
            proof {
                if before.len() > 0 {
                    assert(before.last() == 0);
                }
                assert(string_cells(before) =~= Seq::<Value>::empty());
                assert(popped + Seq::<Value>::empty() =~= popped);
            }
            break;
        }
        proof {
            assert(before.len() > 0);
            assert(string_cells(before) == seq![v] + string_cells(before.drop_last()));
            assert(popped + (seq![v] + string_cells(t@)) =~= popped.push(v) + string_cells(t@));
        }
        match char_from_u32(v as u32) {
            Some(ch) => {
                string_push(&mut s, ch);
            },
            None => {
                ok = false;
            },
        }
        proof {
            let p2 = popped.push(v);
            assert(p2.map_values(|x: Value| cell_char(x)) =~= popped.map_values(
                |x: Value| cell_char(x),
            ).push(cell_char(v)));
            assert forall|k: int| 0 <= k < popped.len() implies #[trigger] p2[k] == popped[k] by {}
            if ok {
                assert forall|k: int| 0 <= k < p2.len() implies is_char_cell(#[trigger] p2[k]) by {
                    if k < popped.len() {
                        assert(p2[k] == popped[k]);
                    }
                }
            } else if is_char_cell(v) {
                let k = choose|k: int| 0 <= k < popped.len() && !is_char_cell(#[trigger] popped[k]);
                assert(p2[k] == popped[k]);
            } else {
                assert(!is_char_cell(p2[popped.len() as int]));
            }
            popped = p2;
        }
    }
    if ok {
        Some(s)
    } else {
        None
    }
}

/// Funge-space: a hash map of cells with the zero page in an array, and the
/// program's bounding size.
pub struct FungeSpace {
    map: PositionMap<Value>,
    zero_page: Box<[Value; 100]>,
    max_size: (i64, i64),
}

impl View for FungeSpace {
    type V = FungeSpaceView;

    closed spec fn view(&self) -> FungeSpaceView {
        FungeSpaceView { cells: self.map@, zero_page: self.zero_page@, max_size: self.max_size }
    }
}

impl Clone for FungeSpace {
    fn clone(&self) -> (r: Self)
        ensures
            r@ == self@,
    {
        let zero_page: [Value; 100] = *self.zero_page;
        Self { map: self.map.clone(), zero_page: Box::new(zero_page), max_size: self.max_size }
    }
}

impl FungeSpace {
    /// What empty funge-space is.
    pub open spec fn new_view() -> FungeSpaceView {
        FungeSpaceView {
            cells: Map::empty(),
            zero_page: Seq::new(100, |i: int| SPACE),
            max_size: (11, 11),
        }
    }

    /// What funge-space made from a map of cells and a size is.
    pub open spec fn from_map_view(map: Map<Position, Value>, program_size: (i64, i64)) -> FungeSpaceView {
        FungeSpaceView {
            cells: map.remove_keys(Set::new(|k: Position| in_zero_page(k))),
            zero_page: Seq::new(
                100,
                |i: int|
                    if map.contains_key(zero_page_position(i)) {
                        map[zero_page_position(i)]
                    } else {
                        SPACE
                    },
            ),
            max_size: program_size,
        }
    }

    /// What funge-space holds is well formed.
    pub proof fn lemma_view_wf(&self)
        ensures
            self@.wf(),
    {
    }

    /// Empty funge-space: all spaces, with a size of 11 by 11.
    pub fn new() -> (s: Self)
        ensures
            s@ == Self::new_view(),
    {
        let s = Self {
            map: std::collections::HashMap::default(),
            zero_page: Box::new([SPACE; 100]),
            max_size: (11, 11),
        };
        assert(s@.zero_page =~= Seq::new(100, |i: int| SPACE));
        assert(s@.cells =~= Map::<Position, Value>::empty());
        s
    }

    /// Reads a cell: 0 left of or above the origin, a space where nothing is
    /// stored.
    pub fn get(&self, pos: Position) -> (r: Value)
        ensures
            r == self@.get(pos),
    {
        if pos.0 < 0 || pos.1 < 0 {
            return 0;
        }
        if pos.0 < 10 && pos.1 < 10 {
            self.zero_page[(pos.0 + pos.1 * 10) as usize]
        } else {
            match map_get(&self.map, &pos) {
                Some(v) => v,
                None => SPACE,
            }
        }
    }

    /// Writes a cell; a write left of or above the origin is dropped.
    pub fn set(&mut self, pos: Position, val: Value)
        ensures
            final(self)@ == old(self)@.set(pos, val),
    {
        if pos.0 < 0 || pos.1 < 0 {
            return ;
        }
        self.set_inner(pos, val);
    }

    /// The program's bounding size.
    pub fn program_size(&self) -> (r: (i64, i64))
        ensures
            r == self@.max_size,
    {
        self.max_size
    }

    /// Funge-space holding the cells of a map, those of the zero page moved
    /// into the array, with the given program size.
    pub fn new_from_fungespace(map: PositionMap<Value>, program_size: (i64, i64)) -> (s: Self)
        ensures
            s@ == Self::from_map_view(map@, program_size),
    {
        let mut input = map;
        let mut zero_page = Box::new([SPACE; 100]);
        let max_size = program_size;
        let mut idx: i64 = 0;
        while idx < 100
            invariant
                0 <= idx <= 100,
                input@ == map@.remove_keys(
                    Set::new(|k: Position| in_zero_page(k) && zero_page_index(k) < idx),
                ),
                forall|i: int|
                    0 <= i < 100 ==> #[trigger] zero_page@[i] == (if i < idx && map@.contains_key(
                        zero_page_position(i),
                    ) {
                        map@[zero_page_position(i)]
                    } else {
                        SPACE
                    }),
            decreases 100 - idx,
        {
            let key = (idx % 10, idx / 10);
            assert(key == zero_page_position(idx as int));
            assert(in_zero_page(key) && zero_page_index(key) == idx);
            if let Some(val) = map_remove(&mut input, &key) {
                zero_page[idx as usize] = val;
            }
            proof {
                assert forall|k: Position|
                    in_zero_page(k) && zero_page_index(k) == idx implies k == key by {}
                assert(input@ =~= map@.remove_keys(
                    Set::new(|k: Position| in_zero_page(k) && zero_page_index(k) < idx + 1),
                ));
            }
            idx = idx + 1;
        }
        assert(input@ =~= map@.remove_keys(Set::new(|k: Position| in_zero_page(k))));
        let s = Self { map: input, zero_page, max_size };
        assert(s@.zero_page =~= Self::from_map_view(map@, program_size).zero_page);
        s
    }

    /// The write behind `set`, also used directly by `s`.
    pub(crate) fn set_inner(&mut self, pos: Position, val: Value)
        ensures
            final(self)@ == old(self)@.set(pos, val),
    {
        if pos.0 < 0 || pos.1 < 0 {
            return ;
        };
        if pos.0 < 10 && pos.1 < 10 {
            self.zero_page[(pos.0 + pos.1 * 10) as usize] = val;
        } else {
            if val == SPACE {
                map_remove(&mut self.map, &pos);
            } else {
                map_insert(&mut self.map, pos, val);
            }
            if pos.0 > self.max_size.0 {
                self.max_size.0 = pos.0;
            }
            if pos.1 > self.max_size.1 {
                self.max_size.1 = pos.1;
            }
        };
    }

    /// Reads a cell, telling a stored cell from an absent one; near the
    /// origin it reads the zero page.
    pub fn get_nullable(&self, pos: Position) -> (r: Option<Value>)
        requires
            FungeSpaceView::nullable_readable(pos),
        ensures
            r == self@.get_nullable(pos),
    {
        if pos.0 < 10 && pos.1 < 10 {
            Some(self.zero_page[(pos.0 + pos.1 * 10) as usize])
        } else {
            map_get(&self.map, &pos)
        }
    }

    /// Every cell with its value: the stored cells in the map's order, then
    /// the zero page row by row.
    pub fn entries(&self) -> (r: Vec<(Position, Value)>)
        ensures
            r@.len() >= 100,
            forall|i: int|
                0 <= i < r@.len() - 100 ==> self@.cells.contains_key(#[trigger] r@[i].0)
                    && self@.cells[r@[i].0] == r@[i].1,
            forall|k: Position| #[trigger]
                self@.cells.contains_key(k) ==> exists|i: int|
                    0 <= i < r@.len() - 100 && #[trigger] r@[i].0 == k,
            forall|i: int, j: int|
                0 <= i < r@.len() - 100 && 0 <= j < r@.len() - 100 && i != j ==> #[trigger] r@[i].0
                    != #[trigger] r@[j].0,
            forall|i: int|
                0 <= i < 100 ==> #[trigger] r@[r@.len() - 100 + i] == (
                    zero_page_position(i),
                    self@.zero_page[i],
                ),
    {
        let mut r = map_entries(&self.map);
        let ghost r0 = r@;
        let ghost n = r@.len();
        let mut i: i64 = 0;
        while i < 100
            invariant
                0 <= i <= 100,
                r@.len() == n + i,
                n == r0.len(),
                self.zero_page@.len() == 100,
                forall|j: int| 0 <= j < n ==> #[trigger] r@[j] == r0[j],
                forall|j: int|
                    0 <= j < i ==> #[trigger] r@[n + j] == (
                        zero_page_position(j),
                        self@.zero_page[j],
                    ),
            decreases 100 - i,
        {
            r.push(((i % 10, i / 10), self.zero_page[i as usize]));
            i = i + 1;
        }
        assert forall|k: Position| #[trigger]
            self@.cells.contains_key(k) implies exists|j: int|
                0 <= j < r@.len() - 100 && #[trigger] r@[j].0 == k by {
            let j = choose|j: int| 0 <= j < r0.len() && #[trigger] r0[j].0 == k;
            assert(r@[j] == r0[j]);
        }
        r
    }
}

/// One coordinate after one move: `p` moved by `d`, wrapped into a program
/// whose far edge is `max`.
fn next_coordinate_of(p: i64, d: i64, max: i64) -> (r: i64)
    ensures
        r == next_coordinate(wrap(p + d), max),
{
    let q = p.wrapping_add(d);
    if q == -1 {
        if max == i64::MAX {
            max
        } else {
            max + 1
        }
    } else if q.wrapping_sub(1) >= max {
        0
    } else {
        q
    }
}

/// A delta by which a cursor moves each tick.
#[derive(Default, Clone, Copy, PartialEq, Eq, Hash, Debug)]
pub struct Direction(pub Value, pub Value);

impl Direction {
    /// Up the screen.
    pub fn north() -> (r: Self)
        ensures
            r == Direction(0, -1i64),
    {
        Self(0, -1)
    }

    /// Down the screen.
    pub fn south() -> (r: Self)
        ensures
            r == Direction(0, 1),
    {
        Self(0, 1)
    }

    /// To the right.
    pub fn east() -> (r: Self)
        ensures
            r == Direction(1, 0),
    {
        Self(1, 0)
    }

    /// To the left.
    pub fn west() -> (r: Self)
        ensures
            r == Direction(-1i64, 0),
    {
        Self(-1, 0)
    }

    /// The direction opposite to this one.
    pub open spec fn spec_reverse(self) -> Direction {
        Direction(wrap(-self.0), wrap(-self.1))
    }

    /// The direction a quarter turn clockwise (y grows downwards).
    pub open spec fn spec_turn_right(self) -> Direction {
        Direction(wrap(-self.1), self.0)
    }

    /// The direction a quarter turn counter-clockwise.
    pub open spec fn spec_turn_left(self) -> Direction {
        Direction(self.1, wrap(-self.0))
    }

    /// Reversing twice gives back the direction.
    pub proof fn lemma_reverse_reverse(self)
        ensures
            self.spec_reverse().spec_reverse() == self,
    {
    }

    /// The direction opposite to this one.
    pub fn reverse(&self) -> (r: Self)
        ensures
            r == self.spec_reverse(),
    {
        Self(0i64.wrapping_sub(self.0), 0i64.wrapping_sub(self.1))
    }

    /// The direction a quarter turn clockwise.
    pub fn turn_right(&self) -> (r: Self)
        ensures
            r == self.spec_turn_right(),
    {
        Self(0i64.wrapping_sub(self.1), self.0)
    }

    /// The direction a quarter turn counter-clockwise.
    pub fn turn_left(&self) -> (r: Self)
        ensures
            r == self.spec_turn_left(),
    {
        Self(self.1, 0i64.wrapping_sub(self.0))
    }
}

/// The state that the cursors of a program share.
pub struct StateTempName {
    pub instruction_count: usize,
    pub map: FungeSpace,
    pub pos_history: PositionMap<Visited>,
    pub get_history: PositionMap<Moment>,
    pub put_history: PositionMap<Moment>,
    pub output: String,
    pub graphics: Option<Graphics>,
    pub breakpoints: PositionSet,
    pub input_buffer: String,
    pub refc_vectors: Vec<(Value, Value)>,
    pub hrti_marks: std::collections::HashMap<usize, std::time::Instant>,
    pub hrti_start: Option<std::time::Instant>,
}

impl Default for StateTempName {
    /// A fresh state: no ticks, empty funge-space, no history, no output or
    /// input, no graphics, no breakpoints, no REFC vectors, no HRTI marks,
    /// and no clock (see `start_clock`).
    fn default() -> (r: Self)
        ensures
            r@.instruction_count == 0,
            r@.map == FungeSpace::new_view(),
            r@.visited == Map::<Position, WhereVisited>::empty(),
            r@.gets == Set::<Position>::empty(),
            r@.puts == Set::<Position>::empty(),
            r@.output == Seq::<char>::empty(),
            r@.input == Seq::<char>::empty(),
            r@.graphics is None,
            r@.breakpoints == Set::<Position>::empty(),
            r@.refc_vectors == Seq::<(Value, Value)>::empty(),
            r@.hrti_marks == Set::<usize>::empty(),
            !r@.clock,
    {
        let r = Self {
            instruction_count: 0,
            map: FungeSpace::new(),
            pos_history: std::collections::HashMap::default(),
            put_history: std::collections::HashMap::default(),
            get_history: std::collections::HashMap::default(),
            output: String::new(),
            graphics: None,
            breakpoints: std::collections::HashSet::default(),
            input_buffer: String::new(),
            refc_vectors: Vec::new(),
            hrti_marks: std::collections::HashMap::new(),
            hrti_start: None,
        };
        assert(r@.visited =~= Map::<Position, WhereVisited>::empty());
        assert(r@.gets =~= Set::<Position>::empty());
        assert(r@.puts =~= Set::<Position>::empty());
        assert(r@.hrti_marks =~= Set::<usize>::empty());
        r
    }
}

impl StateTempName {
    /// A fresh state whose funge-space holds a program: a map of its cells
    /// and its size.
    pub fn new_from_fungespace(map: PositionMap<Value>, program_size: (i64, i64)) -> (r: Self)
        ensures
            r@.map == FungeSpace::from_map_view(map@, program_size),
            r@.instruction_count == 0,
            r@.visited == Map::<Position, WhereVisited>::empty(),
            r@.gets == Set::<Position>::empty(),
            r@.puts == Set::<Position>::empty(),
            r@.output == Seq::<char>::empty(),
            r@.input == Seq::<char>::empty(),
            r@.graphics is None,
            r@.breakpoints == Set::<Position>::empty(),
            r@.refc_vectors == Seq::<(Value, Value)>::empty(),
            r@.hrti_marks == Set::<usize>::empty(),
            !r@.clock,
    {
        let d = Self::default();
        Self { map: FungeSpace::new_from_fungespace(map, program_size), ..d }
    }

    /// Starts the clock that HRTI measures from; where it runs (not on the
    /// web), HRTI can be loaded.
    pub fn start_clock(&mut self)
        ensures
            final(self)@ == (EnvView { clock: true, ..old(self)@ }),
            final(self).hrti_start is Some,
            final(self).pos_history@ == old(self).pos_history@,
            final(self).get_history@ == old(self).get_history@,
            final(self).put_history@ == old(self).put_history@,
            final(self).hrti_marks@ == old(self).hrti_marks@,
    {
        self.hrti_start = Some(std_now());
    }
}

/// The records whose times the view leaves out are as they were, but for
/// the HRTI marks: the cells left, read and written, and the HRTI start.
pub open spec fn histories_kept(old: StateTempName, new: StateTempName) -> bool {
    &&& new.pos_history@ == old.pos_history@
    &&& new.get_history@ == old.get_history@
    &&& new.put_history@ == old.put_history@
    &&& new.hrti_start == old.hrti_start
}

/// All the records whose times the view leaves out are as they were.
pub open spec fn records_kept(old: StateTempName, new: StateTempName) -> bool {
    histories_kept(old, new) && new.hrti_marks@ == old.hrti_marks@
}

/// The shared state under the name that the fingerprints use.
pub type Env = StateTempName;

impl View for Graphics {
    type V = GraphicsView;

    open spec fn view(&self) -> GraphicsView {
        GraphicsView {
            size: self.size,
            current_color: self.current_color,
            event_queue: self.event_queue@,
            commands: self.commands@,
        }
    }
}

impl View for StateTempName {
    type V = EnvView;

    open spec fn view(&self) -> EnvView {
        EnvView {
            instruction_count: self.instruction_count,
            map: self.map@,
            visited: self.pos_history@.map_values(|v: Visited| v.wawa),
            gets: self.get_history@.dom(),
            puts: self.put_history@.dom(),
            output: self.output@,
            input: self.input_buffer@,
            graphics: match self.graphics {
                Some(g) => Some(g@),
                None => None,
            },
            breakpoints: self.breakpoints@,
            refc_vectors: self.refc_vectors@,
            hrti_marks: self.hrti_marks@.dom(),
            clock: self.hrti_start is Some,
        }
    }
}

/// One instruction pointer: where it is and goes, its stack of stacks and
/// storage offset, whether it reads a string, its identity and what each
/// letter stands for.
pub struct Cursor {
    pub storage_offset: Position,
    pub stacks: Vec<Vec<Value>>,
    pub position: Position,
    pub direction: Direction,
    pub string_mode: bool,
    pub id: usize,
    pub fingerprints: Vec<Vec<FingerprintFunction>>,
}

impl Default for Cursor {
    /// A cursor at the origin going east, with one empty stack, no storage
    /// offset and nothing loaded for any letter.
    fn default() -> (c: Self)
        ensures
            c@.storage_offset == (0i64, 0i64),
            c@.stacks == seq![Seq::<Value>::empty()],
            c@.position == (0i64, 0i64),
            c@.direction == Direction(1, 0),
            !c@.string_mode,
            c@.id == 0,
            c@.fingerprints == Seq::new(26, |i: int| Seq::<FingerprintFunction>::empty()),
    {
        let mut fingerprints: Vec<Vec<FingerprintFunction>> = Vec::new();
        let mut i: usize = 0;
        while i < 26
            invariant
                i <= 26,
                fingerprints@.len() == i,
                forall|j: int| 0 <= j < i ==> (#[trigger] fingerprints@[j])@.len() == 0,
            decreases 26 - i,
        {
            fingerprints.push(Vec::new());
            i = i + 1;
        }
        let mut stacks: Vec<Vec<Value>> = Vec::new();
        stacks.push(Vec::new());
        let c = Self {
            storage_offset: (0, 0),
            string_mode: false,
            position: (0, 0),
            direction: Direction::east(),
            stacks,
            id: 0,
            fingerprints,
        };
        assert(c@.stacks =~= seq![Seq::<Value>::empty()]);
        assert forall|j: int| 0 <= j < 26 implies #[trigger] c@.fingerprints[j]
            =~= Seq::<FingerprintFunction>::empty() by {
            assert(fingerprints@[j]@.len() == 0);
        }
        assert(c@.fingerprints =~= Seq::new(26, |i: int| Seq::<FingerprintFunction>::empty()));
        c
    }
}

impl Clone for Cursor {
    /// A copy of the cursor, stacks and all.
    fn clone(&self) -> (c: Self)
        ensures
            c@ == self@,
    {
        let mut stacks: Vec<Vec<Value>> = Vec::new();
        let mut i: usize = 0;
        while i < self.stacks.len()
            invariant
                i <= self.stacks@.len(),
                stacks@.len() == i,
                forall|j: int| 0 <= j < i ==> (#[trigger] stacks@[j])@ == self.stacks@[j]@,
            decreases self.stacks@.len() - i,
        {
            let copy = self.stacks[i].clone();
            assert(copy@ =~= self.stacks@[i as int]@);
            stacks.push(copy);
            i = i + 1;
        }
        let mut fingerprints: Vec<Vec<FingerprintFunction>> = Vec::new();
        let mut i: usize = 0;
        while i < self.fingerprints.len()
            invariant
                i <= self.fingerprints@.len(),
                fingerprints@.len() == i,
                forall|j: int| 0 <= j < i ==> (#[trigger] fingerprints@[j])@ == self.fingerprints@[j]@,
            decreases self.fingerprints@.len() - i,
        {
            let copy = self.fingerprints[i].clone();
            assert(copy@ =~= self.fingerprints@[i as int]@);
            fingerprints.push(copy);
            i = i + 1;
        }
        let c = Self {
            storage_offset: self.storage_offset,
            stacks,
            position: self.position,
            direction: self.direction,
            string_mode: self.string_mode,
            id: self.id,
            fingerprints,
        };
        assert(c@.stacks =~= self@.stacks);
        assert(c@.fingerprints =~= self@.fingerprints);
        c
    }
}

impl View for Cursor {
    type V = CursorView;

    open spec fn view(&self) -> CursorView {
        CursorView {
            storage_offset: self.storage_offset,
            stacks: self.stacks@.map_values(|v: Vec<Value>| v@),
            position: self.position,
            direction: self.direction,
            string_mode: self.string_mode,
            id: self.id,
            fingerprints: self.fingerprints@.map_values(|v: Vec<FingerprintFunction>| v@),
        }
    }
}

impl Cursor {
    /// The top of stack stack.
    pub(crate) fn toss(&mut self) -> (r: &mut Vec<Value>)
        requires
            old(self)@.wf(),
        ensures
            r@ == old(self)@.toss(),
            final(self)@ == old(self)@.with_toss(final(r)@),
    {
        let n = self.stacks.len();
        &mut self.stacks[n - 1]
    }

    /// Pops the top of stack stack; an empty stack gives 0.
    pub fn pop(&mut self) -> (r: Value)
        requires
            old(self)@.wf(),
        ensures
            r == old(self)@.top(),
            final(self)@ == old(self)@.pop(),
            final(self)@.wf(),
    {
        let t = self.toss();
        match t.pop() {
            Some(v) => v,
            None => 0,
        }
    }

    /// Pushes onto the top of stack stack.
    pub fn push(&mut self, val: Value)
        requires
            old(self)@.wf(),
        ensures
            final(self)@ == old(self)@.push(val),
            final(self)@.wf(),
    {
        let t = self.toss();
        t.push(val);
    }

    /// The second stack from the top, if there is one.
    pub(crate) fn soss(&mut self) -> (r: Option<&mut Vec<Value>>)
        requires
            old(self)@.wf(),
        ensures
            old(self)@.has_soss() ==> (r matches Some(s) && s@ == old(self)@.soss()
                && final(self)@ == old(self)@.with_soss(final(s)@)),
            !old(self)@.has_soss() ==> r is None && final(self)@ == old(self)@,
    {
        let n = self.stacks.len();
        if n >= 2 {
            Some(&mut self.stacks[n - 2])
        } else {
            None
        }
    }

    /// The top and the second stacks at once.
    pub(crate) fn toss_and_soss(&mut self) -> (r: (&mut Vec<Value>, Option<&mut Vec<Value>>))
        requires
            old(self)@.wf(),
        ensures
            r.0@ == old(self)@.toss(),
            old(self)@.has_soss() ==> (r.1 matches Some(s) && s@ == old(self)@.soss()
                && final(self)@ == old(self)@.with_toss_and_soss(final(r.0)@, final(s)@)),
            !old(self)@.has_soss() ==> r.1 is None && final(self)@ == old(self)@.with_toss(
                final(r.0)@,
            ),
    {
        let n = self.stacks.len();
        let (rest, last) = self.stacks.split_at_mut(n - 1);
        let toss = last.first_mut().unwrap();
        let soss = rest.last_mut();
        (toss, soss)
    }

    /// Pops a 0-terminated string: the cells down to the first 0 (or to the
    /// bottom of the stack) and the 0 itself are popped; the string is given
    /// when every cell is a character.
    pub fn pop_string(&mut self) -> (r: Option<String>)
        requires
            old(self)@.wf(),
        ensures
            final(self)@ == old(self)@.with_toss(after_string(old(self)@.toss())),
            final(self)@.wf(),
            match r {
                Some(s) => (forall|k: int|
                    0 <= k < string_cells(old(self)@.toss()).len() ==> is_char_cell(
                        #[trigger] string_cells(old(self)@.toss())[k],
                    )) && s@ == string_cells(old(self)@.toss()).map_values(|v: Value| cell_char(v)),
                None => exists|k: int|
                    0 <= k < string_cells(old(self)@.toss()).len() && !is_char_cell(
                        #[trigger] string_cells(old(self)@.toss())[k],
                    ),
            },
    {
        let t = self.toss();
        let r = pop_zero_terminated(t);
        proof {
            lemma_with_toss(old(self)@, old(self)@.toss(), self@.toss());
        }
        r
    }

    /// Moves `n` cells from the second stack onto the top one, for `{`.
    fn transfer_n_to_toss(&mut self, n: Value)
        requires
            old(self)@.wf(),
            old(self)@.has_soss(),
        ensures
            final(self)@ == transfer_to_toss(old(self)@, n),
    {
        if n < 0 {
            let mut i = n;
            proof {
                assert(old(self)@.soss() + zeros(0) =~= old(self)@.soss());
                lemma_with_soss(old(self)@, old(self)@.soss(), old(self)@.soss());
            }
            while i < 0
                invariant
                    n <= i <= 0,
                    old(self)@.wf(),
                    old(self)@.has_soss(),
                    self@.wf(),
                    self@.has_soss(),
                    self@ == old(self)@.with_soss(old(self)@.soss() + zeros((i - n) as nat)),
                decreases 0 - i,
            {
                let ghost prev = self@;
                let soss = self.soss().unwrap();
                soss.push(0);
                proof {
                    let x = old(self)@.soss() + zeros((i - n) as nat);
                    assert(old(self)@.soss() + zeros((i + 1 - n) as nat) =~= x.push(0));
                    lemma_with_soss(old(self)@, x, x.push(0));
                }
                i = i + 1;
            }
            return ;
        }
        let len = self.stacks[self.stacks.len() - 2].len();
        if len as u64 <= n as u64 {
            let mut i: u64 = len as u64;
            proof {
                assert(old(self)@.toss() + zeros(0) =~= old(self)@.toss());
                lemma_with_toss(old(self)@, old(self)@.toss(), old(self)@.toss());
            }
            while i < n as u64
                invariant
                    len <= i <= n,
                    len == old(self)@.soss().len(),
                    old(self)@.wf(),
                    old(self)@.has_soss(),
                    self@.wf(),
                    self@ == old(self)@.with_toss(old(self)@.toss() + zeros((i - len) as nat)),
                decreases n - i,
            {
                self.toss().push(0);
                proof {
                    let x = old(self)@.toss() + zeros((i - len) as nat);
                    assert(old(self)@.toss() + zeros((i + 1 - len) as nat) =~= x.push(0));
                    lemma_with_toss(old(self)@, x, x.push(0));
                }
                i = i + 1;
            }
            let (toss, soss) = self.toss_and_soss();
            toss.append(soss.unwrap());
            proof {
                assert(self@.stacks =~= transfer_to_toss(old(self)@, n).stacks);
            }
        } else {
            let (toss, soss) = self.toss_and_soss();
            let soss = soss.unwrap();
            let mut arr = soss.split_off(len - n as usize);
            toss.append(&mut arr);
        }
    }

    /// Moves `n` cells from the top stack back onto the second one, for `}`.
    fn transfer_n_to_soss(&mut self, n: Value)
        requires
            old(self)@.wf(),
            old(self)@.has_soss(),
        ensures
            final(self)@ == transfer_to_soss(old(self)@, n),
    {
        if n < 0 {
            let mut i = n;
            proof {
                assert(old(self)@.soss().subrange(0, old(self)@.soss().len() as int)
                    =~= old(self)@.soss());
                lemma_with_soss(old(self)@, old(self)@.soss(), old(self)@.soss());
            }
            while i < 0
                invariant
                    n <= i <= 0,
                    old(self)@.wf(),
                    old(self)@.has_soss(),
                    self@.wf(),
                    self@.has_soss(),
                    self@ == old(self)@.with_soss(
                        old(self)@.soss().subrange(
                            0,
                            if old(self)@.soss().len() - (i - n) < 0 {
                                0
                            } else {
                                old(self)@.soss().len() - (i - n)
                            },
                        ),
                    ),
                decreases 0 - i,
            {
                let ghost k0 = if old(self)@.soss().len() - (i - n) < 0 {
                    0
                } else {
                    old(self)@.soss().len() - (i - n)
                };
                let soss = self.soss().unwrap();
                soss.pop();
                proof {
                    let k = if old(self)@.soss().len() - (i + 1 - n) < 0 {
                        0
                    } else {
                        old(self)@.soss().len() - (i + 1 - n)
                    };
                    let x = old(self)@.soss().subrange(0, k0);
                    assert(popped(x) =~= old(self)@.soss().subrange(0, k));
                    lemma_with_soss(old(self)@, x, popped(x));
                }
                i = i + 1;
            }
            return ;
        }
        let len = self.stacks[self.stacks.len() - 1].len();
        if len as u64 <= n as u64 {
            let mut i: u64 = len as u64;
            proof {
                assert(old(self)@.soss() + zeros(0) =~= old(self)@.soss());
                lemma_with_soss(old(self)@, old(self)@.soss(), old(self)@.soss());
            }
            while i < n as u64
                invariant
                    len <= i <= n,
                    len == old(self)@.toss().len(),
                    old(self)@.wf(),
                    old(self)@.has_soss(),
                    self@.wf(),
                    self@.has_soss(),
                    self@ == old(self)@.with_soss(old(self)@.soss() + zeros((i - len) as nat)),
                decreases n - i,
            {
                self.soss().unwrap().push(0);
                proof {
                    let x = old(self)@.soss() + zeros((i - len) as nat);
                    assert(old(self)@.soss() + zeros((i + 1 - len) as nat) =~= x.push(0));
                    lemma_with_soss(old(self)@, x, x.push(0));
                }
                i = i + 1;
            }
            let (toss, soss) = self.toss_and_soss();
            soss.unwrap().append(toss);
            proof {
                assert(self@.stacks =~= transfer_to_soss(old(self)@, n).stacks);
            }
        } else {
            let (toss, soss) = self.toss_and_soss();
            let soss = soss.unwrap();
            let mut arr = toss.split_off(len - n as usize);
            soss.append(&mut arr);
        }
    }

    /// Moves one step without recording anything: onto -1 wraps to one past
    /// the far edge, past the far edge wraps to 0.
    pub(crate) fn step_position_inner(&mut self, state: &StateTempName)
        ensures
            final(self)@ == old(self)@.at(
                next_position(old(self).position, old(self).direction, state@.map.max_size),
            ),
    {
        let max_size = state.map.program_size();
        let x = next_coordinate_of(self.position.0, self.direction.0, max_size.0);
        let y = next_coordinate_of(self.position.1, self.direction.1, max_size.1);
        self.position = (x, y);
    }

    /// Moves one step, and records the cell left, with the direction and
    /// the time, when the settings ask for it.
    pub fn step_position(&mut self, state: &mut StateTempName, settings: &Settings)
        ensures
            (final(self)@, final(state)@) == moved(old(self)@, old(state)@, *settings),
            !settings.pos_history ==> records_kept(*old(state), *final(state)),
            final(state).pos_history@.remove(old(self).position) == old(state).pos_history@.remove(
                old(self).position,
            ),
            final(state).get_history@ == old(state).get_history@,
            final(state).put_history@ == old(state).put_history@,
            final(state).hrti_marks@ == old(state).hrti_marks@,
            final(state).hrti_start == old(state).hrti_start,
    {
        let (x, y) = self.position;
        self.step_position_inner(state);
        if settings.pos_history {
            let d = self.direction;
            let now = recent_instant();
            let ghost old_map = state.pos_history@;
            match map_get(&state.pos_history, &(x, y)) {
                Some(v) => {
                    let mut visited = v;
                    if d.0 == 0 && d.1 == -1 {
                        visited.wawa.north = true;
                        visited.north = now;
                    } else if d.0 == 0 && d.1 == 1 {
                        visited.wawa.south = true;
                        visited.south = now;
                    } else if d.0 == 1 && d.1 == 0 {
                        visited.wawa.east = true;
                        visited.east = now;
                    } else if d.0 == -1 && d.1 == 0 {
                        visited.wawa.west = true;
                        visited.west = now;
                    } else {
                        visited.wawa.east = true;
                        visited.west = now;
                    }
                    assert(visited.wawa == mark_visit(Some(v.wawa), d));
                    map_insert(&mut state.pos_history, (x, y), visited);
                },
                None => {
                    let none = WhereVisited { north: false, south: false, east: false, west: false };
                    let visited = if d.0 == 0 && d.1 == -1 {
                        Visited { wawa: WhereVisited { north: true, ..none }, north: now, south: now, east: now, west: now }
                    } else if d.0 == 0 && d.1 == 1 {
                        Visited { wawa: WhereVisited { south: true, ..none }, north: now, south: now, east: now, west: now }
                    } else if d.0 == 1 && d.1 == 0 {
                        Visited { wawa: WhereVisited { east: true, ..none }, north: now, south: now, east: now, west: now }
                    } else if d.0 == -1 && d.1 == 0 {
                        Visited { wawa: WhereVisited { west: true, ..none }, north: now, south: now, east: now, west: now }
                    } else {
                        Visited { wawa: WhereVisited { east: true, ..none }, north: now, south: now, east: now, west: now }
                    };
                    assert(visited.wawa == mark_visit(None, d));
                    map_insert(&mut state.pos_history, (x, y), visited);
                },
            }
            proof {
                assert(state@.visited =~= old(state)@.visited.insert(
                    (x, y),
                    mark_visit(
                        if old(state)@.visited.contains_key((x, y)) {
                            Some(old(state)@.visited[(x, y)])
                        } else {
                            None
                        },
                        d,
                    ),
                ));
            }
        }
    }
}

/// In a strictly increasing sequence, entries `b - a` places apart differ
/// by at least `b - a`.
proof fn lemma_increasing_gap(d: Seq<usize>, a: int, b: int)
    requires
        0 <= a <= b < d.len(),
        forall|x: int, y: int| 0 <= x < y < d.len() ==> #[trigger] d[x] < #[trigger] d[y],
    ensures
        d[b] >= d[a] + (b - a),
    decreases b - a,
{
    if a < b {
        lemma_increasing_gap(d, a + 1, b);
        assert(d[a] < d[a + 1]);
    }
}

/// Removes the cursors at the noted indices, the last-noted first, and stops
/// when a single cursor is left; says whether it stopped there.
fn remove_dead_cursors(
    cursors: &mut Vec<Cursor>,
    deleted: &Vec<usize>,
    Ghost(dead): Ghost<Seq<int>>,
    n: usize,
) -> (early: bool)
    requires
        deleted@.len() == dead.len(),
        forall|k: int| 0 <= k < deleted@.len() ==> deleted@[k] as int == #[trigger] dead[k],
        forall|k: int| 0 <= k < deleted@.len() ==> #[trigger] deleted@[k] < n,
        forall|a: int, b: int|
            0 <= a < b < deleted@.len() ==> #[trigger] deleted@[a] < #[trigger] deleted@[b],
        n <= old(cursors)@.len(),
        old(cursors)@.len() >= 1,
        forall|k: int| 0 <= k < old(cursors)@.len() ==> (#[trigger] old(cursors)@[k])@.wf(),
    ensures
        final(cursors)@.len() >= 1,
        (final(cursors)@.map_values(|c: Cursor| c@), early) == remove_dead(
            old(cursors)@.map_values(|c: Cursor| c@),
            dead,
        ),
        forall|k: int| 0 <= k < final(cursors)@.len() ==> (#[trigger] final(cursors)@[k])@.wf(),
{
    let mut j = deleted.len();
    assert(dead.take(j as int) =~= dead);
    while j > 0
        invariant
            j <= deleted@.len(),
            deleted@.len() == dead.len(),
            forall|k: int| 0 <= k < deleted@.len() ==> deleted@[k] as int == #[trigger] dead[k],
            forall|k: int| 0 <= k < deleted@.len() ==> #[trigger] deleted@[k] < n,
            forall|a: int, b: int|
                0 <= a < b < deleted@.len() ==> #[trigger] deleted@[a] < #[trigger] deleted@[b],
            cursors@.len() + (deleted@.len() - j) == old(cursors)@.len(),
            n <= old(cursors)@.len(),
            cursors@.len() >= 1,
            remove_dead(cursors@.map_values(|c: Cursor| c@), dead.take(j as int)) == remove_dead(
                old(cursors)@.map_values(|c: Cursor| c@),
                dead,
            ),
            forall|k: int| 0 <= k < cursors@.len() ==> (#[trigger] cursors@[k])@.wf(),
        decreases j,
    {
        if cursors.len() == 1 {
            return true;
        }
        j = j - 1;
        let ghost cur = cursors@;
        let idx = deleted[j];
        proof {
            assert(dead.take(j + 1).drop_last() =~= dead.take(j as int));
            lemma_increasing_gap(deleted@, j as int, deleted@.len() - 1);
        }
        cursors.remove(idx);
        proof {
            assert(cursors@.map_values(|c: Cursor| c@) =~= cur.map_values(|c: Cursor| c@).remove(
                idx as int,
            ));
            assert forall|k: int| 0 <= k < cursors@.len() implies (#[trigger] cursors@[k])@.wf() by {
                if k < idx {
                    assert(cursors@[k] == cur[k]);
                } else {
                    assert(cursors@[k] == cur[k + 1]);
                }
            }
        }
    }
    assert(dead.take(0) =~= Seq::<int>::empty());
    false
}

/// A program being run: the shared state and its cursors.
pub struct State {
    state: StateTempName,
    cursors: Vec<Cursor>,
}

impl View for State {
    type V = StateView;

    closed spec fn view(&self) -> StateView {
        StateView { env: self.state@, cursors: self.cursors@.map_values(|c: Cursor| c@) }
    }
}

impl Default for State {
    /// An empty program with one cursor at the origin.
    fn default() -> (r: Self)
        ensures
            r@.wf(),
            r@.cursors.len() == 1,
            r@.env.map == FungeSpace::new_view(),
            r@.env.instruction_count == 0,
    {
        let mut cursors: Vec<Cursor> = Vec::new();
        cursors.push(Cursor::default());
        let r = Self { cursors, state: StateTempName::default() };
        assert(r@.cursors.len() == 1);
        r
    }
}

impl State {
    /// When the clock that HRTI measures from started, if it runs.
    pub closed spec fn start_instant(&self) -> Option<std::time::Instant> {
        self.state.hrti_start
    }

    /// Starts the clock that HRTI measures from (not on the web).
    pub fn start_clock(&mut self)
        ensures
            final(self)@ == (StateView { env: EnvView { clock: true, ..old(self)@.env }, ..old(self)@ }),
            final(self).start_instant() is Some,
    {
        self.state.start_clock();
    }

    /// A program ready to run from its cells, with one cursor at the
    /// origin going east.
    pub fn new_from_fungespace(map: PositionMap<Value>, program_size: (i64, i64)) -> (r: Self)
        ensures
            r@.wf(),
            r@.cursors.len() == 1,
            r@.cursors[0].position == (0i64, 0i64),
            r@.cursors[0].direction == Direction(1, 0),
            r@.cursors[0].stacks == seq![Seq::<Value>::empty()],
            r@.env.map == FungeSpace::from_map_view(map@, program_size),
            r@.env.instruction_count == 0,
            r@.env.output == Seq::<char>::empty(),
            r@.env.input == Seq::<char>::empty(),
    {
        let mut cursors: Vec<Cursor> = Vec::new();
        cursors.push(Cursor::default());
        let r = Self { state: StateTempName::new_from_fungespace(map, program_size), cursors };
        assert(r@.cursors.len() == 1);
        r
    }

    /// Moves every cursor one step, in order, recording the cells they
    /// leave (superseded by `step`).
    pub fn step_position(&mut self, settings: &Settings)
        requires
            old(self)@.wf(),
        ensures
            final(self)@.wf(),
            final(self)@.cursors.len() == old(self)@.cursors.len(),
            forall|i: int|
                0 <= i < old(self)@.cursors.len() ==> #[trigger] final(self)@.cursors[i] == moved(
                    old(self)@.cursors[i],
                    old(self)@.env,
                    *settings,
                ).0,
            final(self)@.env == record_visits(old(self)@.env, old(self)@.cursors, *settings),
    {
        let n = self.cursors.len();
        let mut i: usize = 0;
        while i < n
            invariant
                i <= n,
                n == self.cursors@.len(),
                n == old(self)@.cursors.len(),
                self@.wf(),
                self@.env == record_visits(old(self)@.env, old(self)@.cursors.take(i as int), *settings),
                self@.env.map == old(self)@.env.map,
                forall|k: int|
                    0 <= k < i ==> #[trigger] self@.cursors[k] == moved(
                        old(self)@.cursors[k],
                        old(self)@.env,
                        *settings,
                    ).0,
                forall|k: int| i <= k < n ==> #[trigger] self@.cursors[k] == old(self)@.cursors[k],
            decreases n - i,
        {
            let ghost prev = self@;
            assert(prev.cursors[i as int].wf());
            assert(prev.cursors[i as int] == self.cursors@[i as int]@);
            self.cursors[i].step_position(&mut self.state, settings);
            proof {
                assert(self@.cursors =~= prev.cursors.update(i as int, self@.cursors[i as int]));
                assert(self@.cursors[i as int].wf());
                assert(old(self)@.cursors.take(i + 1).drop_last() =~= old(self)@.cursors.take(i as int));
            }
            i = i + 1;
        }
        assert(old(self)@.cursors.take(n as int) =~= old(self)@.cursors);
    }

    /// Runs one tick of the whole program: every cursor ticks in turn; a
    /// cursor that split leaves a turned-around copy behind it, a failed
    /// instruction is handled as the settings say, and the cursors that died
    /// are removed once all have ticked (the last cursor never is: its death
    /// is reported as a breakpoint).
    pub fn step<F: FloatUnit>(&mut self, settings: &Settings, floats: &F) -> (r: TickStatus)
        requires
            accepts_all(*floats),
            old(self)@.wf(),
            forall|i: int|
                0 <= i < old(self)@.cursors.len() ==> FungeSpaceView::nullable_readable(
                    #[trigger] old(self)@.cursors[i].position,
                ),
            old(self)@.env.instruction_count + old(self)@.cursors.len() <= usize::MAX,
        ensures
            final(self)@.wf(),
            exists|outs: Seq<Outcome>| state_step(*floats, old(self)@, *settings, final(self)@, r, outs),
            !(r is Error) ==> final(self)@.env.instruction_count == old(self)@.env.instruction_count
                + old(self)@.cursors.len(),
            final(self).start_instant() == old(self).start_instant(),
    {
        let ghost s = *settings;
        let ghost start = self@;
        let ghost p0 = Pass {
            cursors: start.cursors,
            env: start.env,
            new: Seq::empty(),
            deleted: Seq::empty(),
            breakpoint: false,
            halted: None,
        };
        let ghost mut outs: Seq<Outcome> = Seq::empty();
        let ghost mut p: Pass = p0;
        proof {
            lemma_run_push(*floats, p0, s, outs, arbitrary());
        }
        let mut new: Vec<Cursor> = Vec::new();
        let mut deleted: Vec<usize> = Vec::new();
        let mut breakpoint = false;
        let n = self.cursors.len();
        let mut i: usize = 0;
        while i < n
            invariant
                i <= n,
                n == self.cursors@.len(),
                n == start.cursors.len(),
                s == *settings,
                start == old(self)@,
                accepts_all(*floats),
                self.state.hrti_start == old(self).state.hrti_start,
                forall|k: int|
                    0 <= k < n ==> FungeSpaceView::nullable_readable(
                        #[trigger] start.cursors[k].position,
                    ),
                start.env.instruction_count + n <= usize::MAX,
                self.state.instruction_count == start.env.instruction_count + i,
                p0 == (Pass {
                    cursors: start.cursors,
                    env: start.env,
                    new: Seq::empty(),
                    deleted: Seq::empty(),
                    breakpoint: false,
                    halted: None,
                }),
                outs.len() == i,
                p == run(p0, s, outs),
                run_valid(*floats, p0, s, outs),
                p.halted is None,
                self@.cursors == p.cursors,
                self@.env == p.env,
                new@.map_values(|c: Cursor| c@) == p.new,
                breakpoint == p.breakpoint,
                deleted@.len() == p.deleted.len(),
                forall|k: int| 0 <= k < deleted@.len() ==> deleted@[k] as int == #[trigger] p.deleted[k],
                forall|k: int| 0 <= k < deleted@.len() ==> #[trigger] deleted@[k] < i,
                forall|a: int, b: int|
                    0 <= a < b < deleted@.len() ==> #[trigger] deleted@[a] < #[trigger] deleted@[b],
                forall|k: int| i <= k < n ==> #[trigger] p.cursors[k] == start.cursors[k],
                forall|k: int| 0 <= k < n ==> (#[trigger] p.cursors[k]).wf(),
                forall|k: int| 0 <= k < new@.len() ==> (#[trigger] new@[k])@.wf(),
            decreases n - i,
        {
            assert(p.cursors[i as int] == start.cursors[i as int]);
            assert(self@.cursors[i as int] == self.cursors@[i as int]@);
            assert(FungeSpaceView::nullable_readable(start.cursors[i as int].position));
            let status = self.cursors[i].step(&mut self.state, settings, floats);
            let ghost o = Outcome { cursor: self.cursors@[i as int]@, env: self.state@, status };
            let ghost q = settle(p, i as int, o, s);
            proof {
                lemma_run_push(*floats, p0, s, outs, o);
            }
            match status {
                StepStatus::Clone => {
                    let mut copy = self.cursors[i].clone();
                    copy.direction = copy.direction.reverse();
                    copy.step_position(&mut self.state, settings);
                    new.push(copy);
                    self.cursors[i].step_position(&mut self.state, settings);
                },
                StepStatus::Die => {
                    deleted.push(i);
                },
                StepStatus::Error(msg) => {
                    match settings.invalid_operation_behaviour {
                        InvalidOperationBehaviour::Reflect => {
                            let d = self.cursors[i].direction.reverse();
                            self.cursors[i].direction = d;
                            self.cursors[i].step_position(&mut self.state, settings);
                        },
                        InvalidOperationBehaviour::Halt => {
                            proof {
                                outs = outs.push(o);
                                assert(self@.cursors =~= q.cursors);
                                assert(state_step(*floats, start, s, self@, TickStatus::Error(msg), outs));
                            }
                            return TickStatus::Error(msg);
                        },
                        InvalidOperationBehaviour::Ignore => {},
                    }
                },
                StepStatus::Breakpoint => {
                    breakpoint = true;
                },
                _ => {},
            }
            proof {
                outs = outs.push(o);
                p = q;
                assert(self@.cursors =~= q.cursors);
                assert(new@.map_values(|c: Cursor| c@) =~= q.new);
            }
            i = i + 1;
        }
        let ghost all = p.cursors + p.new;
        self.cursors.append(&mut new);
        assert(self@.cursors =~= all);
        assert forall|k: int| 0 <= k < self.cursors@.len() implies (#[trigger] self.cursors@[k])@.wf() by {
            assert(self@.cursors[k] == self.cursors@[k]@);
        }
        let early = remove_dead_cursors(&mut self.cursors, &deleted, Ghost(p.deleted), n);
        if early {
            proof {
                assert(state_step(*floats, start, s, self@, TickStatus::Breakpoint, outs));
            }
            return TickStatus::Breakpoint;
        }
        proof {
            assert(state_step(*floats, start, s, self@, if breakpoint { TickStatus::Breakpoint } else { TickStatus::Normal }, outs));
        }
        if breakpoint {
            TickStatus::Breakpoint
        } else {
            TickStatus::Normal
        }
    }

    /// The cell at a position.
    pub fn get(&self, pos: Position) -> (r: Value)
        ensures
            r == self@.env.map.get(pos),
    {
        self.state.map.get(pos)
    }

    /// Writes a cell.
    pub fn set(&mut self, pos: Position, val: Value)
        ensures
            final(self)@ == (StateView {
                env: EnvView { map: old(self)@.env.map.set(pos, val), ..old(self)@.env },
                ..old(self)@
            }),
    {
        self.state.map.set(pos, val);
    }

    /// The size of the program.
    pub fn program_size(&self) -> (r: Position)
        ensures
            r == self@.env.map.max_size,
    {
        self.state.map.program_size()
    }

    /// How many cursor ticks have run.
    pub fn instruction_count(&self) -> (r: usize)
        ensures
            r == self@.env.instruction_count,
    {
        self.state.instruction_count
    }

    /// Whether the first cursor reads a string.
    pub fn string_mode(&self) -> (r: bool)
        requires
            self@.wf(),
        ensures
            r == self@.cursors[0].string_mode,
    {
        self.cursors[0].string_mode
    }

    /// Where the cursors are, in order.
    pub fn cursor_positions(&self) -> (r: Vec<Position>)
        ensures
            r@ == self@.cursors.map_values(|c: CursorView| c.position),
    {
        let mut r: Vec<Position> = Vec::new();
        let mut i: usize = 0;
        while i < self.cursors.len()
            invariant
                i <= self.cursors@.len(),
                r@ == self@.cursors.take(i as int).map_values(|c: CursorView| c.position),
            decreases self.cursors@.len() - i,
        {
            r.push(self.cursors[i].position);
            proof {
                assert(self@.cursors[i as int] == self.cursors@[i as int]@);
                assert(self@.cursors.take(i + 1).map_values(|c: CursorView| c.position) =~= self@.cursors.take(
                    i as int,
                ).map_values(|c: CursorView| c.position).push(self.cursors@[i as int].position));
            }
            i = i + 1;
        }
        assert(self@.cursors.take(i as int) =~= self@.cursors);
        r
    }

    /// The direction of the first cursor.
    pub fn cursor_direction(&self) -> (r: (Value, Value))
        requires
            self@.wf(),
        ensures
            r == (self@.cursors[0].direction.0, self@.cursors[0].direction.1),
    {
        (self.cursors[0].direction.0, self.cursors[0].direction.1)
    }

    /// The top of stack stack of the first cursor.
    pub fn stack(&self) -> (r: Vec<Value>)
        requires
            self@.wf(),
        ensures
            r@ == self@.cursors[0].toss(),
    {
        assert(self@.cursors[0] == self.cursors@[0]@);
        let n = self.cursors[0].stacks.len();
        self.cursors[0].stacks[n - 1].clone()
    }

    /// What the program has printed.
    pub fn stdout(&self) -> (r: &str)
        ensures
            r@ == self@.env.output,
    {
        self.state.output.as_str()
    }

    /// The input waiting to be read, to which more can be added.
    pub fn stdin(&mut self) -> (r: &mut String)
        ensures
            r@ == old(self)@.env.input,
            final(self)@ == (StateView {
                env: EnvView { input: final(r)@, ..old(self)@.env },
                ..old(self)@
            }),
    {
        &mut self.state.input_buffer
    }

    /// The pixel surface, if the program made one.
    pub fn graphics(&mut self) -> (r: Option<&mut Graphics>)
        ensures
            match old(self)@.env.graphics {
                None => r is None && final(self)@ == old(self)@,
                Some(g) => {
                    &&& r is Some
                    &&& (*r.unwrap())@ == g
                    &&& final(self)@ == (StateView {
                        env: EnvView { graphics: Some((*final(r.unwrap()))@), ..old(self)@.env },
                        ..old(self)@
                    })
                },
            },
    {
        self.state.graphics.as_mut()
    }

    /// The record of the cells that cursors left.
    pub fn pos_history(&mut self) -> (r: &mut PositionMap<Visited>)
        ensures
            r@.map_values(|v: Visited| v.wawa) == old(self)@.env.visited,
            final(self)@ == (StateView {
                env: EnvView { visited: final(r)@.map_values(|v: Visited| v.wawa), ..old(self)@.env },
                ..old(self)@
            }),
    {
        &mut self.state.pos_history
    }

    /// The record of the cells that `g` read.
    pub fn get_history(&mut self) -> (r: &mut PositionMap<Moment>)
        ensures
            r@.dom() == old(self)@.env.gets,
            final(self)@ == (StateView {
                env: EnvView { gets: final(r)@.dom(), ..old(self)@.env },
                ..old(self)@
            }),
    {
        &mut self.state.get_history
    }

    /// The record of the cells that `p` wrote.
    pub fn put_history(&mut self) -> (r: &mut PositionMap<Moment>)
        ensures
            r@.dom() == old(self)@.env.puts,
            final(self)@ == (StateView {
                env: EnvView { puts: final(r)@.dom(), ..old(self)@.env },
                ..old(self)@
            }),
    {
        &mut self.state.put_history
    }

    /// The breakpoints.
    pub fn breakpoints(&mut self) -> (r: &mut PositionSet)
        ensures
            r@ == old(self)@.env.breakpoints,
            final(self)@ == (StateView {
                env: EnvView { breakpoints: final(r)@, ..old(self)@.env },
                ..old(self)@
            }),
    {
        &mut self.state.breakpoints
    }

    /// Turns every cursor around (superseded by `step`).
    pub fn reflect(&mut self)
        requires
            old(self)@.wf(),
        ensures
            final(self)@.wf(),
            final(self)@.env == old(self)@.env,
            final(self)@.cursors.len() == old(self)@.cursors.len(),
            forall|i: int|
                0 <= i < old(self)@.cursors.len() ==> #[trigger] final(self)@.cursors[i] == old(
                    self,
                )@.cursors[i].facing(old(self)@.cursors[i].direction.spec_reverse()),
    {
        let n = self.cursors.len();
        let mut i: usize = 0;
        while i < n
            invariant
                i <= n,
                n == self.cursors@.len(),
                self@.wf(),
                self@.env == old(self)@.env,
                forall|j: int|
                    0 <= j < i ==> #[trigger] self@.cursors[j] == old(self)@.cursors[j].facing(
                        old(self)@.cursors[j].direction.spec_reverse(),
                    ),
                forall|j: int| i <= j < n ==> #[trigger] self@.cursors[j] == old(self)@.cursors[j],
            decreases n - i,
        {
            let ghost prev = self@;
            let d = self.cursors[i].direction.reverse();
            self.cursors[i].direction = d;
            proof {
                assert(self@.cursors =~= prev.cursors.update(i as int, prev.cursors[i as int].facing(d)));
            }
            i = i + 1;
        }
    }
}

} // verus!
