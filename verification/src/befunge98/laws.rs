//! What holds across the operations of funge-space, directions and stacks.
use vstd::prelude::*;

use crate::befunge::{Position, Value};
use crate::befunge98::model::{CursorView, next_position, transfer_to_soss, transfer_to_toss, zeros};
use crate::befunge98::semantics::{begin_block, end_block};
use crate::befunge98::{Direction, FungeSpace, FungeSpaceView, SPACE, StepStatus, zero_page_index, zero_page_position};

verus! {

/// A cell written at a position with no negative coordinate reads back as
/// written (funge-space reaches as far as a cell's coordinates do).
pub proof fn lemma_read_after_write(m: FungeSpaceView, p: Position, v: Value)
    requires
        m.wf(),
        p.0 >= 0,
        p.1 >= 0,
    ensures
        m.set(p, v).get(p) == v,
{
}

/// Writing a cell leaves every other cell as it was.
pub proof fn lemma_write_leaves_others(m: FungeSpaceView, p: Position, q: Position, v: Value)
    requires
        m.wf(),
        p != q,
    ensures
        m.set(p, v).get(q) == m.get(q),
{
    if 0 <= p.0 < 10 && 0 <= p.1 < 10 && 0 <= q.0 < 10 && 0 <= q.1 < 10 {
        assert(p.0 + p.1 * 10 != q.0 + q.1 * 10);
    }
}

/// A write left of or above the origin changes nothing.
pub proof fn lemma_negative_write_dropped(m: FungeSpaceView, p: Position, v: Value)
    requires
        p.0 < 0 || p.1 < 0,
    ensures
        m.set(p, v) == m,
{
}

/// Writes never shrink the program's size, and a write off the zero page
/// makes it reach the written position.
pub proof fn lemma_write_grows_size(m: FungeSpaceView, p: Position, v: Value)
    ensures
        m.set(p, v).max_size.0 >= m.max_size.0,
        m.set(p, v).max_size.1 >= m.max_size.1,
        p.0 >= 0 && p.1 >= 0 && !(p.0 < 10 && p.1 < 10) ==> m.set(p, v).max_size.0 >= p.0
            && m.set(p, v).max_size.1 >= p.1,
{
}

/// A loaded program reads back its cells: every cell of the map at a
/// position with no negative coordinate, and a space where the map has none.
pub proof fn lemma_load_then_read(map: Map<Position, Value>, size: (i64, i64), p: Position)
    requires
        p.0 >= 0,
        p.1 >= 0,
    ensures
        FungeSpace::from_map_view(map, size).get(p) == if map.contains_key(p) {
            map[p]
        } else {
            SPACE
        },
{
    if p.0 < 10 && p.1 < 10 {
        let i = zero_page_index(p);
        assert(zero_page_position(i) == p);
    }
}

/// A cursor that moves at most one cell along each axis (north, south,
/// east, west or diagonally) inside the program's box (from 0 to one past
/// each far edge) stays inside it: its position never turns negative.
pub proof fn lemma_small_move_stays_in_box(pos: Position, d: Direction, max: (i64, i64))
    requires
        -1 <= d.0 <= 1,
        -1 <= d.1 <= 1,
        0 <= max.0 < i64::MAX,
        0 <= max.1 < i64::MAX,
        0 <= pos.0 <= max.0 + 1,
        0 <= pos.1 <= max.1 + 1,
    ensures
        0 <= next_position(pos, d, max).0 <= max.0 + 1,
        0 <= next_position(pos, d, max).1 <= max.1 + 1,
{
}

/// Turning right undoes turning left and the other way round, two right
/// turns reverse, and reversing twice gives back the direction.
pub proof fn lemma_turns(d: Direction)
    ensures
        d.spec_turn_right().spec_turn_left() == d,
        d.spec_turn_left().spec_turn_right() == d,
        d.spec_turn_right().spec_turn_right() == d.spec_reverse(),
        d.spec_reverse().spec_reverse() == d,
{
}

/// A pop gives back what a push put on, and leaves the cursor as it was.
pub proof fn lemma_push_pop(c: CursorView, v: Value)
    requires
        c.wf(),
    ensures
        c.push(v).top() == v,
        c.push(v).pop() == c,
{
    assert(c.push(v).toss().drop_last() =~= c.toss());
    assert(c.push(v).pop().stacks =~= c.stacks);
}

/// `}` undoes `{`: with the same count on the stack, the stack stack and
/// the storage offset come back as they were before `{` (without the count
/// that `{` took), for a negative count and for a count that the stack
/// covers. (A larger count moves padding zeros too, which `}` keeps.)
pub proof fn lemma_block_round_trip(c: CursorView, max: (i64, i64))
    requires
        c.wf(),
        c.top() < 0 || c.top() <= c.pop().toss().len(),
    ensures
        end_block(begin_block(c, max).push(c.top())) == (c.pop(), StepStatus::Normal),
{
    let n = c.top();
    let c1 = c.pop();
    let t = c1.toss();
    let c2 = CursorView { stacks: c1.stacks.push(Seq::empty()), ..c1 };
    assert(c2.soss() == t);
    assert(c2.toss() =~= Seq::<Value>::empty());
    let c3 = transfer_to_toss(c2, n);
    let b = begin_block(c, max);
    let d = b.push(n);
    assert(d.stacks.len() == c.stacks.len() + 1);
    assert(d.toss() == c3.toss().push(n));
    assert(d.soss() == c3.soss().push(c.storage_offset.1).push(c.storage_offset.0));
    let d1 = d.pop();
    assert(d1.toss() =~= c3.toss());
    assert(d1.soss() == d.soss());
    let s = d1.soss();
    assert(s.drop_last().drop_last() =~= c3.soss());
    let e2 = CursorView { storage_offset: c.storage_offset, ..d1.with_soss(c3.soss()) };
    assert(e2.toss() == c3.toss());
    assert(e2.soss() == c3.soss());
    let e3 = transfer_to_soss(e2, n);
    if n < 0 {
        assert(c3.soss() =~= t + Seq::new((-n) as nat, |i: int| 0 as Value));
        assert(c3.toss() =~= Seq::<Value>::empty());
        assert(e3.soss() =~= t);
        assert(e3.toss() =~= Seq::<Value>::empty());
    } else if t.len() <= n {
        assert(zeros((n - t.len()) as nat) =~= Seq::<Value>::empty());
        assert(c3.toss() =~= t);
        assert(c3.soss() =~= Seq::<Value>::empty());
        assert(e3.soss() =~= t);
    } else {
        let k = t.len() - n;
        assert(c3.toss() =~= t.subrange(k, t.len() as int));
        assert(c3.soss() =~= t.subrange(0, k));
        assert(e3.soss() =~= t);
    }
    let r = CursorView { stacks: e3.stacks.drop_last(), ..e3 };
    assert(r.stacks =~= c1.stacks);
    assert(r =~~= c1);
}

} // verus!
