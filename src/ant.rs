//! The ants: a position and a heading, plus a trail colour under the trail
//! rule, each stepping by its rule on a shared grid.

use crate::color::{Rgba, background, background_spec};
use crate::grid::{Grid, Point, in_bounds, index_of, wrap_point};
use crate::rules::{
    STATE_COUNT,
    clockwise_on,
    next_state,
    next_state_of,
    turn,
    turned,
    turns_clockwise,
    unit,
    unit_of,
};
use vstd::prelude::*;

verus! {

/// Every cell holds a turmite state, below sixteen.
pub open spec fn states_valid(cells: Seq<u8>) -> bool {
    forall|i: int| 0 <= i < cells.len() ==> #[trigger] cells[i] < STATE_COUNT
}

/// The point one step from the in-range point `p` along `heading`, wrapped.
pub open spec fn moved(p: Point, heading: int, w: int, h: int) -> Point {
    let d = unit_of(heading);
    wrap_point(Point { x: (p.x + d.0) as isize, y: (p.y + d.1) as isize }, w, h)
}

/// An ant of the turmite rule.
#[derive(Clone, Copy, Debug, PartialEq, Eq, Structural)]
pub struct Ant {
    pub position: Point,
    pub heading: u8,
}

/// One step of a turmite ant on a `w` by `h` grid of `cells`: read the cell
/// it stands on, turn by the table, advance the cell's state and move one
/// cell along the new heading.
pub open spec fn turmite_step(cells: Seq<u8>, w: int, h: int, ant: Ant) -> (Seq<u8>, Ant) {
    let p = wrap_point(ant.position, w, h);
    let i = index_of(p, w);
    let code = cells[i] as int;
    let heading = turned(ant.heading as int, clockwise_on(code));
    (
        cells.update(i, next_state_of(code) as u8),
        Ant { position: moved(p, heading, w, h), heading: heading as u8 },
    )
}

impl Ant {
    /// An ant at `position` facing `heading` taken modulo four.
    pub fn new(position: Point, heading: u8) -> (a: Ant)
        ensures
            a.position == position,
            a.heading == heading % 4,
    {
        Ant { position, heading: heading % 4 }
    }

    /// An ant at the centre of a `width` by `height` grid, facing `heading`
    /// taken modulo four.
    pub fn centered(width: usize, height: usize, heading: u8) -> (a: Ant)
        requires
            width <= isize::MAX,
            height <= isize::MAX,
        ensures
            a.position.x == width / 2,
            a.position.y == height / 2,
            a.heading == heading % 4,
    {
        Ant::new(Point { x: (width / 2) as isize, y: (height / 2) as isize }, heading)
    }

    /// Takes one step of the turmite rule on `grid`.
    pub fn step(&mut self, grid: &mut Grid<u8>)
        requires
            old(grid).wf(),
            states_valid(old(grid).cells@),
            old(self).heading < 4,
        ensures
            final(grid).wf(),
            final(grid).width == old(grid).width,
            final(grid).height == old(grid).height,
            (final(grid).cells@, *final(self)) == turmite_step(
                old(grid).cells@,
                old(grid).width as int,
                old(grid).height as int,
                *old(self),
            ),
            states_valid(final(grid).cells@),
            final(self).heading < 4,
            in_bounds(final(self).position, old(grid).width as int, old(grid).height as int),
    {
        let p = grid.wrap(self.position);
        let code = grid.get(p);
        proof {
            crate::grid::lemma_wrap_in_bounds_is_identity(p, grid.width as int, grid.height as int);
        }
        let heading = turn(self.heading, turns_clockwise(code));
        grid.set(p, next_state(code));
        let d = unit(heading);
        let moved = grid.wrap(Point { x: p.x + d.0, y: p.y + d.1 });
        self.position = moved;
        self.heading = heading;
        proof {
            let cells = final(grid).cells@;
            assert forall|i: int| 0 <= i < cells.len() implies #[trigger] cells[i] < STATE_COUNT by {
                if i != old(grid).slot(p) {
                    assert(cells[i] == old(grid).cells@[i]);
                }
            }
        }
    }
}

/// An ant of the trail rule, which marks cells with its own colour.
#[derive(Clone, Copy, Debug, PartialEq, Eq, Structural)]
pub struct TrailAnt {
    pub position: Point,
    pub heading: u8,
    pub color: Rgba,
}

/// What the trail rule does to a cell holding `cell` when an ant of colour
/// `color` stands on it: the new cell value, and whether the ant turns
/// clockwise. An unmarked cell is marked and turns the ant clockwise; a
/// marked one is cleared and turns it counter-clockwise.
pub open spec fn trail_rule(cell: Rgba, color: Rgba) -> (Rgba, bool) {
    if cell == background_spec() {
        (color, true)
    } else {
        (background_spec(), false)
    }
}

/// One step of a trail ant on a `w` by `h` grid of `cells`.
pub open spec fn trail_step(cells: Seq<Rgba>, w: int, h: int, ant: TrailAnt) -> (
    Seq<Rgba>,
    TrailAnt,
) {
    let p = wrap_point(ant.position, w, h);
    let i = index_of(p, w);
    let (cell, clockwise) = trail_rule(cells[i], ant.color);
    let heading = turned(ant.heading as int, clockwise);
    (
        cells.update(i, cell),
        TrailAnt { position: moved(p, heading, w, h), heading: heading as u8, color: ant.color },
    )
}

/// Applies the trail rule to one cell.
pub fn apply_trail_rule(cell: Rgba, color: Rgba) -> (r: (Rgba, bool))
    ensures
        r == trail_rule(cell, color),
{
    let bg = background();
    if cell == bg {
        (color, true)
    } else {
        (bg, false)
    }
}

/// A cell that starts unmarked and is visited twice, by ants whose colours
/// are not the background, is unmarked again, and the two visits turn
/// opposite ways: clockwise, then counter-clockwise.
pub proof fn lemma_trail_toggle(first: Rgba, second: Rgba)
    requires
        first != background_spec(),
    ensures
        trail_rule(background_spec(), first) == (first, true),
        trail_rule(first, second) == (background_spec(), false),
{
}

impl TrailAnt {
    /// An ant of colour `color` at `position` facing `heading` taken modulo
    /// four.
    pub fn new(position: Point, heading: u8, color: Rgba) -> (a: TrailAnt)
        ensures
            a.position == position,
            a.heading == heading % 4,
            a.color == color,
    {
        TrailAnt { position, heading: heading % 4, color }
    }

    /// Takes one step of the trail rule on `grid`.
    pub fn step(&mut self, grid: &mut Grid<Rgba>)
        requires
            old(grid).wf(),
            old(self).heading < 4,
        ensures
            final(grid).wf(),
            final(grid).width == old(grid).width,
            final(grid).height == old(grid).height,
            (final(grid).cells@, *final(self)) == trail_step(
                old(grid).cells@,
                old(grid).width as int,
                old(grid).height as int,
                *old(self),
            ),
            final(self).heading < 4,
            in_bounds(final(self).position, old(grid).width as int, old(grid).height as int),
    {
        let p = grid.wrap(self.position);
        let cell = grid.get(p);
        proof {
            crate::grid::lemma_wrap_in_bounds_is_identity(p, grid.width as int, grid.height as int);
        }
        let (mark, clockwise) = apply_trail_rule(cell, self.color);
        let heading = turn(self.heading, clockwise);
        grid.set(p, mark);
        let d = unit(heading);
        let moved = grid.wrap(Point { x: p.x + d.0, y: p.y + d.1 });
        self.position = moved;
        self.heading = heading;
    }
}

} // verus!
