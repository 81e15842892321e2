//! The interpreter's contact with other crates and with the parts of std that
//! vstd leaves unspecified: hash maps under the `ahash` hasher, clocks, the
//! random number generator, and a few character and string operations.
//! Every item here is trusted: its contract is believed, not proved.
use vstd::prelude::*;

use std::collections::HashMap;
use std::collections::HashSet;

use rand::Rng;

use crate::befunge::Position;

verus! {

/// The hasher of `egui::ahash` maps; opaque here.
#[verifier::external_type_specification]
#[verifier::external_body]
pub struct ExRandomState(egui::ahash::RandomState);

/// A coarse clock reading of `coarsetime`; opaque here.
#[verifier::external_type_specification]
#[verifier::external_body]
pub struct ExInstant(coarsetime::Instant);

/// A clock reading of std; opaque here.
#[verifier::external_type_specification]
#[verifier::external_body]
pub struct ExStdInstant(std::time::Instant);

/// A span of `coarsetime` time; opaque here.
#[verifier::external_type_specification]
#[verifier::external_body]
pub struct ExDuration(coarsetime::Duration);

/// A reading of the coarse clock.
pub type Moment = coarsetime::Instant;

/// The hasher of the position maps.
pub type PositionHasher = egui::ahash::RandomState;

/// A map keyed by positions, hashed with `ahash`.
pub type PositionMap<V> = HashMap<Position, V, PositionHasher>;

/// A set of positions, hashed with `ahash`.
pub type PositionSet = HashSet<Position, PositionHasher>;

/// `HashMap::get` under the `ahash` hasher, with the value copied out.
/// Claimed: the result is the value that the map holds for the key, or
/// `None` where it holds none. (vstd states this only for hashers that it
/// knows to be valid, which `ahash`'s is not among.)
#[verifier::external_body]
pub fn map_get<V: Copy>(m: &PositionMap<V>, k: &Position) -> (r: Option<V>)
    ensures
        r == (if m@.contains_key(*k) {
            Some(m@[*k])
        } else {
            None
        }),
{
    m.get(k).copied()
}

/// `HashMap::insert` under the `ahash` hasher. Claimed: afterwards the map
/// holds `v` for `k` and is otherwise unchanged.
#[verifier::external_body]
pub fn map_insert<V>(m: &mut PositionMap<V>, k: Position, v: V)
    ensures
        final(m)@ == old(m)@.insert(k, v),
{
    m.insert(k, v);
}

/// `HashMap::remove` under the `ahash` hasher. Claimed: the result is the
/// value that the map held for the key, if any, and afterwards the map holds
/// nothing for it and is otherwise unchanged.
#[verifier::external_body]
pub fn map_remove<V>(m: &mut PositionMap<V>, k: &Position) -> (r: Option<V>)
    ensures
        r == (if old(m)@.contains_key(*k) {
            Some(old(m)@[*k])
        } else {
            None
        }),
        final(m)@ == old(m)@.remove(*k),
{
    m.remove(k)
}

/// `HashMap::iter` under the `ahash` hasher, collected into pairs. Claimed:
/// each entry of the map comes out exactly once. The order is that of the
/// hash table, which depends on the hasher's random seed, and is left open.
#[verifier::external_body]
pub fn map_entries<V: Copy>(m: &PositionMap<V>) -> (r: Vec<(Position, V)>)
    ensures
        forall|i: int|
            0 <= i < r@.len() ==> m@.contains_key(#[trigger] r@[i].0) && m@[r@[i].0] == r@[i].1,
        forall|i: int, j: int|
            0 <= i < r@.len() && 0 <= j < r@.len() && i != j ==> #[trigger] r@[i].0
                != #[trigger] r@[j].0,
        forall|k: Position| #[trigger]
            m@.contains_key(k) ==> exists|i: int| 0 <= i < r@.len() && #[trigger] r@[i].0 == k,
{
    m.iter().map(|(k, v)| (*k, *v)).collect()
}

/// `HashSet::contains` under the `ahash` hasher. Claimed: the result says
/// whether the set holds the position.
#[verifier::external_body]
pub fn set_contains(s: &PositionSet, k: &Position) -> (r: bool)
    ensures
        r == s@.contains(*k),
{
    s.contains(k)
}

/// `coarsetime::Instant::recent`: the clock reading of the latest update.
/// Nothing is claimed of the reading.
#[verifier::external_body]
pub fn recent_instant() -> Moment {
    coarsetime::Instant::recent()
}

/// `coarsetime::Instant::elapsed_since_recent`: the time from a reading to
/// the latest update. It depends on the clock; nothing is claimed of it.
#[verifier::external_body]
pub fn elapsed_since_recent(earlier: &Moment) -> coarsetime::Duration {
    earlier.elapsed_since_recent()
}

/// `coarsetime::Duration::from_millis`. Nothing is claimed of it: the
/// length of a tick differs between platforms.
#[verifier::external_body]
pub fn coarse_from_millis(millis: u64) -> coarsetime::Duration {
    coarsetime::Duration::from_millis(millis)
}

/// `coarsetime::Duration::as_ticks`: the duration in ticks, the number by
/// which durations compare. Nothing is claimed of it.
#[verifier::external_body]
pub fn as_ticks(d: &coarsetime::Duration) -> u64 {
    d.as_ticks()
}

/// `rand::Rng::gen_range` on the thread's generator, over `0..bound`.
/// Claimed: the number is below the bound (the range is not empty, which
/// `gen_range` would refuse).
#[verifier::external_body]
pub fn random_below(bound: u8) -> (r: u8)
    requires
        bound > 0,
    ensures
        r < bound,
{
    rand::thread_rng().gen_range(0..bound)
}

/// `std::time::Instant::now`. Nothing is claimed of the reading.
#[verifier::external_body]
pub fn std_now() -> std::time::Instant {
    std::time::Instant::now()
}

/// `std::time::Instant::duration_since` (what `-` on instants computes): the
/// time from `earlier` to `later` (0 when `earlier` is later). It depends on the clock readings;
/// nothing is claimed of it.
#[verifier::external_body]
pub fn duration_since(later: &std::time::Instant, earlier: &std::time::Instant) -> std::time::Duration {
    later.duration_since(*earlier)
}

/// `std::time::Instant::elapsed`: the time since a reading. It depends on
/// the clock; nothing is claimed of it.
#[verifier::external_body]
pub fn elapsed(earlier: &std::time::Instant) -> std::time::Duration {
    earlier.elapsed()
}

/// `std::time::Duration::as_micros`: the whole microseconds of a duration.
/// Nothing is claimed of it.
#[verifier::external_body]
pub fn as_micros(d: &std::time::Duration) -> u128 {
    d.as_micros()
}

/// `std::time::Duration::subsec_micros`. Claimed, as std documents: the
/// fraction of a second, in microseconds, is below one million.
#[verifier::external_body]
pub fn subsec_micros(d: &std::time::Duration) -> (r: u32)
    ensures
        r < 1_000_000,
{
    d.subsec_micros()
}

/// `String::push`. Claimed: the character is appended.
#[verifier::external_body]
pub fn string_push(s: &mut String, c: char)
    ensures
        final(s)@ == old(s)@.push(c),
{
    s.push(c);
}

/// `char::from_u32`. Claimed, as std documents: the character with that
/// code, where the code is a Unicode scalar value, and `None` otherwise.
#[verifier::external_body]
pub fn char_from_u32(u: u32) -> (r: Option<char>)
    ensures
        r == (if u <= 0xD7FF || (0xE000 <= u && u <= 0x10FFFF) {
            Some(u as char)
        } else {
            None
        }),
{
    char::from_u32(u)
}

/// `std::path::MAIN_SEPARATOR`: the platform's path separator. It depends
/// on the platform; nothing is claimed of it.
#[verifier::external_body]
pub fn main_separator() -> char {
    std::path::MAIN_SEPARATOR
}

} // verus!
