//! The rule tables: headings and their unit moves, the sixteen-state turmite
//! rule, the shared-trail rule and the display palette.

use vstd::prelude::*;

verus! {

/// The number of distinct cell states of the turmite rule.
pub const STATE_COUNT: u8 = 16;

/// The heading after one turn: clockwise adds one, counter-clockwise adds
/// three, both modulo four.
pub open spec fn turned(heading: int, clockwise: bool) -> int {
    if clockwise {
        (heading + 1) % 4
    } else {
        (heading + 3) % 4
    }
}

/// The heading after a sequence of turns, applied first to last.
pub open spec fn turned_by(heading: int, turns: Seq<bool>) -> int
    decreases turns.len(),
{
    if turns.len() == 0 {
        heading
    } else {
        turned_by(turned(heading, turns[0]), turns.drop_first())
    }
}

/// The move of one step along a heading: north, east, south, west.
pub open spec fn unit_of(heading: int) -> (int, int) {
    if heading == 0 {
        (0, -1)
    } else if heading == 1 {
        (1, 0)
    } else if heading == 2 {
        (0, 1)
    } else {
        (-1, 0)
    }
}

/// Whether an ant on a cell in state `code` turns clockwise.
pub open spec fn clockwise_on(code: int) -> bool {
    code == 1 || code == 3 || code == 6 || code == 7 || code == 9 || code == 11 || code == 14
        || code == 15
}

/// The state a cell takes after an ant leaves it.
pub open spec fn next_state_of(code: int) -> int {
    (code + 1) % 16
}

/// Turns a heading one quarter, clockwise or not.
pub fn turn(heading: u8, clockwise: bool) -> (r: u8)
    requires
        heading < 4,
    ensures
        r == turned(heading as int, clockwise),
        r < 4,
{
    if clockwise {
        (heading + 1) % 4
    } else {
        (heading + 3) % 4
    }
}

/// However many turns are applied, a heading in `{0, 1, 2, 3}` stays there.
pub proof fn lemma_turns_keep_heading(heading: int, turns: Seq<bool>)
    requires
        0 <= heading < 4,
    ensures
        0 <= turned_by(heading, turns) < 4,
    decreases turns.len(),
{
    if turns.len() > 0 {
        lemma_turns_keep_heading(turned(heading, turns[0]), turns.drop_first());
    }
}

/// The coordinate deltas of one step along `heading`.
pub fn unit(heading: u8) -> (r: (isize, isize))
    requires
        heading < 4,
    ensures
        r.0 as int == unit_of(heading as int).0,
        r.1 as int == unit_of(heading as int).1,
{
    if heading == 0 {
        (0, -1)
    } else if heading == 1 {
        (1, 0)
    } else if heading == 2 {
        (0, 1)
    } else {
        (-1, 0)
    }
}

/// The turn table of the turmite rule: whether a cell in state `code` sends
/// an ant clockwise.
pub fn turns_clockwise(code: u8) -> (r: bool)
    requires
        code < STATE_COUNT,
    ensures
        r == clockwise_on(code as int),
{
    match code {
        1 | 3 | 6 | 7 | 9 | 11 | 14 | 15 => true,
        _ => false,
    }
}

/// The successor table of the turmite rule: the state counts up and wraps
/// from fifteen back to zero.
pub fn next_state(code: u8) -> (r: u8)
    requires
        code < STATE_COUNT,
    ensures
        r == next_state_of(code as int),
        r < STATE_COUNT,
{
    if code == 15 {
        0
    } else {
        code + 1
    }
}

} // verus!
