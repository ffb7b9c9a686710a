//! The trail simulation: ants that mark and clear cells of one shared grid
//! with their own colours, in creation order.

use crate::ant::{TrailAnt, trail_step};
use crate::color::{Rgba, background, background_spec};
use crate::frame::{frame_byte, scale_frame};
use crate::grid::{Grid, Point, in_bounds, index_of, wrap_point};
use crate::rules::turned;
use crate::schedule::{lemma_prefix_leaves_rest, run_ticks, tick_prefix, ticked};
use vstd::prelude::*;

verus! {

/// The trail rule on a `w` by `h` grid, as a step of the tick schedule.
pub open spec fn trail_stepper(w: int, h: int) -> spec_fn(Seq<Rgba>, TrailAnt) -> (
    Seq<Rgba>,
    TrailAnt,
) {
    |cells: Seq<Rgba>, a: TrailAnt| trail_step(cells, w, h, a)
}

/// What holds of a trail simulation's cells and ants at every tick.
pub open spec fn trail_invariant(cells: Seq<Rgba>, ants: Seq<TrailAnt>, w: int, h: int) -> bool {
    &&& 0 < w <= isize::MAX
    &&& 0 < h <= isize::MAX
    &&& cells.len() == w * h
    &&& forall|j: int|
        0 <= j < ants.len() ==> #[trigger] ants[j].heading < 4 && in_bounds(
            ants[j].position,
            w,
            h,
        )
}

/// One trail step keeps the invariant.
proof fn lemma_step_keeps_invariant(cells: Seq<Rgba>, ants: Seq<TrailAnt>, w: int, h: int, j: int)
    requires
        trail_invariant(cells, ants, w, h),
        0 <= j < ants.len(),
    ensures
        ({
            let (c, a) = trail_step(cells, w, h, ants[j]);
            trail_invariant(c, ants.update(j, a), w, h)
        }),
{
    let ant = ants[j];
    let p = wrap_point(ant.position, w, h);
    crate::grid::lemma_wrap_in_bounds_is_identity(ant.position, w, h);
    let i = p.y * w + p.x;
    assert(0 <= i < w * h) by (nonlinear_arith)
        requires
            0 <= p.x < w,
            0 <= p.y < h,
            i == p.y * w + p.x,
    ;
    let (c, a) = trail_step(cells, w, h, ant);
    let d = crate::rules::unit_of(a.heading as int);
    let t = Point { x: (p.x + d.0) as isize, y: (p.y + d.1) as isize };
    assert(0 <= (t.x as int) % w < w && 0 <= (t.y as int) % h < h) by (nonlinear_arith)
        requires
            w > 0,
            h > 0,
    ;
    let b = ants.update(j, a);
    assert forall|k: int| 0 <= k < b.len() implies #[trigger] b[k].heading < 4 && in_bounds(
        b[k].position,
        w,
        h,
    ) by {
        if k != j {
            assert(b[k] == ants[k]);
        }
    }
}

/// Part of a tick keeps the invariant.
proof fn lemma_prefix_keeps_invariant(cells: Seq<Rgba>, ants: Seq<TrailAnt>, w: int, h: int, k: nat)
    requires
        trail_invariant(cells, ants, w, h),
        k <= ants.len(),
    ensures
        ({
            let (c, a) = tick_prefix(trail_stepper(w, h), cells, ants, k);
            trail_invariant(c, a, w, h)
        }),
    decreases k,
{
    if k > 0 {
        let s = trail_stepper(w, h);
        lemma_prefix_keeps_invariant(cells, ants, w, h, (k - 1) as nat);
        lemma_prefix_leaves_rest(s, cells, ants, (k - 1) as nat);
        let (c, a) = tick_prefix(s, cells, ants, (k - 1) as nat);
        lemma_step_keeps_invariant(c, a, w, h, k - 1);
    }
}

/// However many ticks run, every trail ant stays inside the grid and faces
/// one of the four headings, and the grid keeps its size.
pub proof fn lemma_trail_run_keeps_invariant(
    cells: Seq<Rgba>,
    ants: Seq<TrailAnt>,
    w: int,
    h: int,
    n: nat,
)
    requires
        trail_invariant(cells, ants, w, h),
    ensures
        ({
            let (c, a) = run_ticks(trail_stepper(w, h), cells, ants, n);
            trail_invariant(c, a, w, h) && a.len() == ants.len()
        }),
    decreases n,
{
    if n > 0 {
        let s = trail_stepper(w, h);
        lemma_trail_run_keeps_invariant(cells, ants, w, h, (n - 1) as nat);
        let (c, a) = run_ticks(s, cells, ants, (n - 1) as nat);
        lemma_prefix_keeps_invariant(c, a, w, h, a.len());
        lemma_prefix_leaves_rest(s, c, a, a.len());
    }
}

/// An unmarked cell visited by an ant and then by another ant standing on
/// it, with no step between, is marked with the first ant's colour and then
/// cleared: the grid is back as it was, and the second ant turns
/// counter-clockwise. The first ant's colour must differ from the
/// background, or its mark could not be told from an unmarked cell.
pub proof fn lemma_trail_visit_twice(
    cells: Seq<Rgba>,
    w: int,
    h: int,
    first: TrailAnt,
    second: TrailAnt,
)
    requires
        0 < w <= isize::MAX,
        0 < h <= isize::MAX,
        cells.len() == w * h,
        in_bounds(first.position, w, h),
        cells[index_of(first.position, w)] == background_spec(),
        first.color != background_spec(),
        wrap_point(second.position, w, h) == first.position,
    ensures
        ({
            let (marked, _) = trail_step(cells, w, h, first);
            let (cleared, after) = trail_step(marked, w, h, second);
            &&& marked[index_of(first.position, w)] == first.color
            &&& cleared == cells
            &&& after.heading == turned(second.heading as int, false)
        }),
{
    crate::grid::lemma_wrap_in_bounds_is_identity(first.position, w, h);
    let p = first.position;
    let i = p.y * w + p.x;
    assert(0 <= i < w * h) by (nonlinear_arith)
        requires
            0 <= p.x < w,
            0 <= p.y < h,
            i == p.y * w + p.x,
    ;
    let (marked, _) = trail_step(cells, w, h, first);
    let (cleared, _) = trail_step(marked, w, h, second);
    assert(cleared =~= cells);
}

/// A trail simulation: the grid of colours, the ants in creation order, and
/// how many ticks one call of `advance` runs.
pub struct TrailWorld {
    pub grid: Grid<Rgba>,
    pub ants: Vec<TrailAnt>,
    pub speed: usize,
}

impl TrailWorld {
    /// The invariant of a trail simulation.
    pub open spec fn wf(&self) -> bool {
        &&& self.grid.wf()
        &&& trail_invariant(
            self.grid.cells@,
            self.ants@,
            self.grid.width as int,
            self.grid.height as int,
        )
    }

    /// The step of this simulation's rule.
    pub open spec fn stepper(&self) -> spec_fn(Seq<Rgba>, TrailAnt) -> (Seq<Rgba>, TrailAnt) {
        trail_stepper(self.grid.width as int, self.grid.height as int)
    }

    /// The cells and ants that `n` ticks from now would give.
    pub open spec fn after(&self, n: nat) -> (Seq<Rgba>, Seq<TrailAnt>) {
        run_ticks(self.stepper(), self.grid.cells@, self.ants@, n)
    }

    /// A `width` by `height` simulation with every cell unmarked, no ants
    /// yet, running `speed` ticks a call of `advance`.
    pub fn new(width: usize, height: usize, speed: usize) -> (w: TrailWorld)
        requires
            0 < width <= isize::MAX,
            0 < height <= isize::MAX,
            width * height <= usize::MAX,
        ensures
            w.wf(),
            w.grid.width == width,
            w.grid.height == height,
            w.grid.cells@ == Seq::new((width * height) as nat, |_i: int| background_spec()),
            w.ants@ == Seq::<TrailAnt>::empty(),
            w.speed == speed,
    {
        let grid = Grid::new(width, height, background());
        TrailWorld { grid, ants: Vec::new(), speed }
    }

    /// Adds an ant after all others, its position wrapped into the grid and
    /// its heading taken modulo four.
    pub fn add_ant(&mut self, ant: TrailAnt)
        requires
            old(self).wf(),
        ensures
            final(self).wf(),
            final(self).grid == old(self).grid,
            final(self).speed == old(self).speed,
            final(self).ants@ == old(self).ants@.push(
                TrailAnt {
                    position: old(self).grid.wrapped(ant.position),
                    heading: ant.heading % 4,
                    color: ant.color,
                },
            ),
    {
        let position = self.grid.wrap(ant.position);
        self.ants.push(TrailAnt::new(position, ant.heading, ant.color));
    }

    /// Runs one tick: each ant, in creation order, takes one step, seeing
    /// the marks the ants before it left or cleared.
    pub fn tick(&mut self)
        requires
            old(self).wf(),
        ensures
            final(self).wf(),
            final(self).grid.width == old(self).grid.width,
            final(self).grid.height == old(self).grid.height,
            final(self).speed == old(self).speed,
            (final(self).grid.cells@, final(self).ants@) == ticked(
                old(self).stepper(),
                old(self).grid.cells@,
                old(self).ants@,
            ),
    {
        let n = self.ants.len();
        let mut i: usize = 0;
        while i < n
            invariant
                i <= n,
                n == old(self).ants@.len(),
                self.wf(),
                self.grid.width == old(self).grid.width,
                self.grid.height == old(self).grid.height,
                self.speed == old(self).speed,
                (self.grid.cells@, self.ants@) == tick_prefix(
                    old(self).stepper(),
                    old(self).grid.cells@,
                    old(self).ants@,
                    i as nat,
                ),
            decreases n - i,
        {
            proof {
                lemma_prefix_leaves_rest(
                    old(self).stepper(),
                    old(self).grid.cells@,
                    old(self).ants@,
                    i as nat,
                );
                lemma_step_keeps_invariant(
                    self.grid.cells@,
                    self.ants@,
                    self.grid.width as int,
                    self.grid.height as int,
                    i as int,
                );
            }
            let mut ant = self.ants[i];
            ant.step(&mut self.grid);
            self.ants.set(i, ant);
            i = i + 1;
        }
    }

    /// Runs `ticks` ticks.
    pub fn run(&mut self, ticks: usize)
        requires
            old(self).wf(),
        ensures
            final(self).wf(),
            final(self).grid.width == old(self).grid.width,
            final(self).grid.height == old(self).grid.height,
            final(self).speed == old(self).speed,
            (final(self).grid.cells@, final(self).ants@) == old(self).after(ticks as nat),
    {
        let mut i: usize = 0;
        while i < ticks
            invariant
                i <= ticks,
                self.wf(),
                self.grid.width == old(self).grid.width,
                self.grid.height == old(self).grid.height,
                self.speed == old(self).speed,
                (self.grid.cells@, self.ants@) == old(self).after(i as nat),
            decreases ticks - i,
        {
            self.tick();
            i = i + 1;
        }
    }

    /// Runs as many ticks as the simulation's speed.
    pub fn advance(&mut self)
        requires
            old(self).wf(),
        ensures
            final(self).wf(),
            final(self).grid.width == old(self).grid.width,
            final(self).grid.height == old(self).grid.height,
            final(self).speed == old(self).speed,
            (final(self).grid.cells@, final(self).ants@) == old(self).after(old(self).speed as nat),
    {
        let speed = self.speed;
        self.run(speed);
    }

    /// The colour of the cell that `p` addresses, after wrapping.
    pub fn get(&self, p: Point) -> (r: Rgba)
        requires
            self.wf(),
        ensures
            r == self.grid.cells@[self.grid.slot(p)],
    {
        self.grid.get(p)
    }

    /// Every cell's colour, row by row; the stored colour is the display
    /// colour.
    pub fn cells(&self) -> (r: &[Rgba])
        ensures
            r@ == self.grid.cells@,
    {
        self.grid.cells.as_slice()
    }

    /// The ants, in creation order.
    pub fn ants(&self) -> (r: &[TrailAnt])
        ensures
            r@ == self.ants@,
    {
        self.ants.as_slice()
    }

    /// The RGBA bytes of an image of the grid, each cell drawn as a `zoom` by
    /// `zoom` square.
    pub fn frame(&self, zoom: usize) -> (r: Vec<u8>)
        requires
            self.wf(),
            zoom > 0,
            4 * (self.grid.width * zoom) * (self.grid.height * zoom) <= usize::MAX,
        ensures
            r@.len() == 4 * (self.grid.width * zoom) * (self.grid.height * zoom),
            forall|k: int|
                0 <= k < r@.len() ==> #[trigger] r@[k] == frame_byte(
                    self.grid.cells@,
                    self.grid.width as int,
                    zoom as int,
                    k,
                ),
    {
        scale_frame(self.grid.cells.as_slice(), self.grid.width, self.grid.height, zoom)
    }
}

/// Two trail simulations of the same size with the same cells and the same
/// ants, colours included, reach the same cells and ants after any number of
/// ticks.
pub proof fn lemma_trail_run_is_deterministic(a: TrailWorld, b: TrailWorld, n: nat)
    requires
        a.grid.width == b.grid.width,
        a.grid.height == b.grid.height,
        a.grid.cells@ == b.grid.cells@,
        a.ants@ == b.ants@,
    ensures
        a.after(n) == b.after(n),
{
}

} // verus!
