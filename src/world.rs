//! The turmite simulation: one grid of sixteen-state cells and the ants on
//! it, in creation order.

use crate::ant::{Ant, states_valid, turmite_step};
use crate::color::{Rgba, palette, palette_of};
use crate::frame::{frame_byte, scale_frame};
use crate::grid::{Grid, Point, in_bounds, wrap_point};
use crate::rules::STATE_COUNT;
use crate::schedule::{lemma_prefix_leaves_rest, run_ticks, tick_prefix, ticked};
use vstd::prelude::*;

verus! {

/// The ant is ready to step on a `w` by `h` grid: it faces one of the four
/// headings and stands inside the grid.
pub open spec fn ant_ready(a: Ant, w: int, h: int) -> bool {
    a.heading < 4 && in_bounds(a.position, w, h)
}

/// The turmite rule on a `w` by `h` grid, as a step of the tick schedule.
pub open spec fn turmite_stepper(w: int, h: int) -> spec_fn(Seq<u8>, Ant) -> (Seq<u8>, Ant) {
    |cells: Seq<u8>, a: Ant| turmite_step(cells, w, h, a)
}

/// What holds of a turmite simulation's cells and ants at every tick.
pub open spec fn turmite_invariant(cells: Seq<u8>, ants: Seq<Ant>, w: int, h: int) -> bool {
    &&& 0 < w <= isize::MAX
    &&& 0 < h <= isize::MAX
    &&& cells.len() == w * h
    &&& states_valid(cells)
    &&& forall|j: int| 0 <= j < ants.len() ==> ant_ready(#[trigger] ants[j], w, h)
}

/// One turmite step keeps the invariant.
proof fn lemma_step_keeps_invariant(cells: Seq<u8>, ants: Seq<Ant>, w: int, h: int, j: int)
    requires
        turmite_invariant(cells, ants, w, h),
        0 <= j < ants.len(),
    ensures
        ({
            let (c, a) = turmite_step(cells, w, h, ants[j]);
            turmite_invariant(c, ants.update(j, a), w, h)
        }),
{
    let ant = ants[j];
    let p = wrap_point(ant.position, w, h);
    crate::grid::lemma_wrap_in_bounds_is_identity(ant.position, w, h);
    let i = p.y * w + p.x;
    assert(0 <= i < w * h) by (nonlinear_arith)
        requires
            0 <= p.x < w,
            0 <= p.y < h,
            i == p.y * w + p.x,
    ;
    let (c, a) = turmite_step(cells, w, h, ant);
    assert forall|k: int| 0 <= k < c.len() implies #[trigger] c[k] < STATE_COUNT by {
        if k != i {
            assert(c[k] == cells[k]);
        }
    }
    let heading = a.heading as int;
    let d = crate::rules::unit_of(heading);
    let t = Point { x: (p.x + d.0) as isize, y: (p.y + d.1) as isize };
    assert(0 <= (t.x as int) % w < w && 0 <= (t.y as int) % h < h) by (nonlinear_arith)
        requires
            w > 0,
            h > 0,
    ;
    let b = ants.update(j, a);
    assert forall|k: int| 0 <= k < b.len() implies ant_ready(#[trigger] b[k], w, h) by {
        if k != j {
            assert(b[k] == ants[k]);
        }
    }
}

/// Part of a tick keeps the invariant.
proof fn lemma_prefix_keeps_invariant(cells: Seq<u8>, ants: Seq<Ant>, w: int, h: int, k: nat)
    requires
        turmite_invariant(cells, ants, w, h),
        k <= ants.len(),
    ensures
        ({
            let (c, a) = tick_prefix(turmite_stepper(w, h), cells, ants, k);
            turmite_invariant(c, a, w, h)
        }),
    decreases k,
{
    if k > 0 {
        let s = turmite_stepper(w, h);
        lemma_prefix_keeps_invariant(cells, ants, w, h, (k - 1) as nat);
        lemma_prefix_leaves_rest(s, cells, ants, (k - 1) as nat);
        let (c, a) = tick_prefix(s, cells, ants, (k - 1) as nat);
        lemma_step_keeps_invariant(c, a, w, h, k - 1);
    }
}

/// However many ticks run, every ant stays inside the grid and faces one of
/// the four headings, every cell holds a state below sixteen, and the grid
/// keeps its size.
pub proof fn lemma_run_keeps_invariant(cells: Seq<u8>, ants: Seq<Ant>, w: int, h: int, n: nat)
    requires
        turmite_invariant(cells, ants, w, h),
    ensures
        ({
            let (c, a) = run_ticks(turmite_stepper(w, h), cells, ants, n);
            turmite_invariant(c, a, w, h) && a.len() == ants.len()
        }),
    decreases n,
{
    if n > 0 {
        let s = turmite_stepper(w, h);
        lemma_run_keeps_invariant(cells, ants, w, h, (n - 1) as nat);
        let (c, a) = run_ticks(s, cells, ants, (n - 1) as nat);
        lemma_prefix_keeps_invariant(c, a, w, h, a.len());
        lemma_prefix_leaves_rest(s, c, a, a.len());
    }
}

/// A turmite simulation: the grid, the ants in creation order, and how many
/// ticks one call of `advance` runs.
pub struct World {
    pub grid: Grid<u8>,
    pub ants: Vec<Ant>,
    pub speed: usize,
}

impl World {
    /// The invariant of a simulation.
    pub open spec fn wf(&self) -> bool {
        &&& self.grid.wf()
        &&& turmite_invariant(
            self.grid.cells@,
            self.ants@,
            self.grid.width as int,
            self.grid.height as int,
        )
    }

    /// The step of this simulation's rule.
    pub open spec fn stepper(&self) -> spec_fn(Seq<u8>, Ant) -> (Seq<u8>, Ant) {
        turmite_stepper(self.grid.width as int, self.grid.height as int)
    }

    /// The cells and ants that `n` ticks from now would give.
    pub open spec fn after(&self, n: nat) -> (Seq<u8>, Seq<Ant>) {
        run_ticks(self.stepper(), self.grid.cells@, self.ants@, n)
    }

    /// A `width` by `height` simulation with every cell in state zero, no
    /// ants yet, running `speed` ticks a call of `advance`.
    pub fn new(width: usize, height: usize, speed: usize) -> (w: World)
        requires
            0 < width <= isize::MAX,
            0 < height <= isize::MAX,
            width * height <= usize::MAX,
        ensures
            w.wf(),
            w.grid.width == width,
            w.grid.height == height,
            w.grid.cells@ == Seq::new((width * height) as nat, |_i: int| 0u8),
            w.ants@ == Seq::<Ant>::empty(),
            w.speed == speed,
    {
        let grid = Grid::new(width, height, 0u8);
        World { grid, ants: Vec::new(), speed }
    }

    /// Adds an ant after all others, its position wrapped into the grid and
    /// its heading taken modulo four.
    pub fn add_ant(&mut self, ant: Ant)
        requires
            old(self).wf(),
        ensures
            final(self).wf(),
            final(self).grid == old(self).grid,
            final(self).speed == old(self).speed,
            final(self).ants@ == old(self).ants@.push(
                Ant {
                    position: old(self).grid.wrapped(ant.position),
                    heading: ant.heading % 4,
                },
            ),
    {
        let position = self.grid.wrap(ant.position);
        self.ants.push(Ant::new(position, ant.heading));
    }

    /// Adds four ants at the centre of the grid, facing north, east, south
    /// and west, in that order.
    pub fn add_ants(&mut self)
        requires
            old(self).wf(),
        ensures
            final(self).wf(),
            final(self).grid == old(self).grid,
            final(self).speed == old(self).speed,
            final(self).ants@.len() == old(self).ants@.len() + 4,
            forall|j: int|
                0 <= j < old(self).ants@.len() ==> final(self).ants@[j] == old(self).ants@[j],
            forall|j: int|
                0 <= j < 4 ==> #[trigger] final(self).ants@[old(self).ants@.len() + j] == (Ant {
                    position: Point {
                        x: (old(self).grid.width / 2) as isize,
                        y: (old(self).grid.height / 2) as isize,
                    },
                    heading: j as u8,
                }),
    {
        let mut i: u8 = 0;
        while i < 4
            invariant
                i <= 4,
                self.wf(),
                self.grid == old(self).grid,
                self.speed == old(self).speed,
                self.ants@.len() == old(self).ants@.len() + i,
                forall|j: int|
                    0 <= j < old(self).ants@.len() ==> self.ants@[j] == old(self).ants@[j],
                forall|j: int|
                    0 <= j < i ==> #[trigger] self.ants@[old(self).ants@.len() + j] == (Ant {
                        position: Point {
                            x: (old(self).grid.width / 2) as isize,
                            y: (old(self).grid.height / 2) as isize,
                        },
                        heading: j as u8,
                    }),
            decreases 4 - i,
        {
            let ant = Ant::centered(self.grid.width, self.grid.height, i);
            proof {
                crate::grid::lemma_wrap_in_bounds_is_identity(
                    ant.position,
                    self.grid.width as int,
                    self.grid.height as int,
                );
            }
            self.add_ant(ant);
            i = i + 1;
        }
    }

    /// Runs one tick: each ant, in creation order, takes one step, seeing
    /// what the ants before it wrote.
    pub fn tick(&mut self)
        requires
            old(self).wf(),
        ensures
            final(self).wf(),
            final(self).grid.width == old(self).grid.width,
            final(self).grid.height == old(self).grid.height,
            final(self).speed == old(self).speed,
            (final(self).grid.cells@, final(self).ants@) == ticked(
                old(self).stepper(),
                old(self).grid.cells@,
                old(self).ants@,
            ),
    {
        let n = self.ants.len();
        let mut i: usize = 0;
        while i < n
            invariant
                i <= n,
                n == old(self).ants@.len(),
                self.wf(),
                self.grid.width == old(self).grid.width,
                self.grid.height == old(self).grid.height,
                self.speed == old(self).speed,
                (self.grid.cells@, self.ants@) == tick_prefix(
                    old(self).stepper(),
                    old(self).grid.cells@,
                    old(self).ants@,
                    i as nat,
                ),
            decreases n - i,
        {
            proof {
                lemma_prefix_leaves_rest(
                    old(self).stepper(),
                    old(self).grid.cells@,
                    old(self).ants@,
                    i as nat,
                );
                lemma_step_keeps_invariant(
                    self.grid.cells@,
                    self.ants@,
                    self.grid.width as int,
                    self.grid.height as int,
                    i as int,
                );
            }
            let mut ant = self.ants[i];
            ant.step(&mut self.grid);
            self.ants.set(i, ant);
            i = i + 1;
        }
    }

    /// Runs `ticks` ticks.
    pub fn run(&mut self, ticks: usize)
        requires
            old(self).wf(),
        ensures
            final(self).wf(),
            final(self).grid.width == old(self).grid.width,
            final(self).grid.height == old(self).grid.height,
            final(self).speed == old(self).speed,
            (final(self).grid.cells@, final(self).ants@) == old(self).after(ticks as nat),
    {
        let mut i: usize = 0;
        while i < ticks
            invariant
                i <= ticks,
                self.wf(),
                self.grid.width == old(self).grid.width,
                self.grid.height == old(self).grid.height,
                self.speed == old(self).speed,
                (self.grid.cells@, self.ants@) == old(self).after(i as nat),
            decreases ticks - i,
        {
            self.tick();
            i = i + 1;
        }
    }

    /// Runs as many ticks as the simulation's speed.
    pub fn advance(&mut self)
        requires
            old(self).wf(),
        ensures
            final(self).wf(),
            final(self).grid.width == old(self).grid.width,
            final(self).grid.height == old(self).grid.height,
            final(self).speed == old(self).speed,
            (final(self).grid.cells@, final(self).ants@) == old(self).after(old(self).speed as nat),
    {
        let speed = self.speed;
        self.run(speed);
    }

    /// The state of the cell that `p` addresses, after wrapping; always below
    /// sixteen.
    pub fn get(&self, p: Point) -> (r: u8)
        requires
            self.wf(),
        ensures
            r == self.grid.cells@[self.grid.slot(p)],
            r < STATE_COUNT,
    {
        self.grid.get(p)
    }

    /// The grid's width.
    pub fn width(&self) -> (r: usize)
        ensures
            r == self.grid.width,
    {
        self.grid.width
    }

    /// The grid's height.
    pub fn height(&self) -> (r: usize)
        ensures
            r == self.grid.height,
    {
        self.grid.height
    }

    /// Every cell's state, row by row.
    pub fn cells(&self) -> (r: &[u8])
        ensures
            r@ == self.grid.cells@,
    {
        self.grid.cells.as_slice()
    }

    /// The ants, in creation order.
    pub fn ants(&self) -> (r: &[Ant])
        ensures
            r@ == self.ants@,
    {
        self.ants.as_slice()
    }

    /// Every cell's display colour, row by row.
    pub open spec fn palette_view(&self) -> Seq<Rgba> {
        Seq::new(self.grid.cells@.len(), |i: int| palette_of(self.grid.cells@[i] as int))
    }

    /// Every cell's display colour, row by row.
    pub fn colors(&self) -> (r: Vec<Rgba>)
        requires
            self.wf(),
        ensures
            r@ == self.palette_view(),
    {
        let mut r: Vec<Rgba> = Vec::with_capacity(self.grid.cells.len());
        let mut i: usize = 0;
        while i < self.grid.cells.len()
            invariant
                self.wf(),
                i <= self.grid.cells@.len(),
                r@.len() == i,
                forall|k: int| 0 <= k < i ==> #[trigger] r@[k] == palette_of(self.grid.cells@[k] as int),
            decreases self.grid.cells@.len() - i,
        {
            r.push(palette(self.grid.cells[i]));
            i = i + 1;
        }
        assert(r@ =~= self.palette_view());
        r
    }

    /// The RGBA bytes of an image of the grid in display colours, each cell
    /// drawn as a `zoom` by `zoom` square.
    pub fn frame(&self, zoom: usize) -> (r: Vec<u8>)
        requires
            self.wf(),
            zoom > 0,
            4 * (self.grid.width * zoom) * (self.grid.height * zoom) <= usize::MAX,
        ensures
            r@.len() == 4 * (self.grid.width * zoom) * (self.grid.height * zoom),
            forall|k: int|
                0 <= k < r@.len() ==> #[trigger] r@[k] == frame_byte(
                    self.palette_view(),
                    self.grid.width as int,
                    zoom as int,
                    k,
                ),
    {
        let colors = self.colors();
        scale_frame(colors.as_slice(), self.grid.width, self.grid.height, zoom)
    }
}

/// Two simulations of the same size with the same cells and the same ants
/// reach the same cells and ants after any number of ticks.
pub proof fn lemma_run_is_deterministic(a: World, b: World, n: nat)
    requires
        a.grid.width == b.grid.width,
        a.grid.height == b.grid.height,
        a.grid.cells@ == b.grid.cells@,
        a.ants@ == b.ants@,
    ensures
        a.after(n) == b.after(n),
{
}

} // verus!
