//! The toroidal grid: a fixed rectangle of cells addressed by wrapped
//! coordinates.

use vstd::arithmetic::div_mod::lemma_fundamental_div_mod;
use vstd::arithmetic::div_mod::lemma_fundamental_div_mod_converse;
use vstd::prelude::*;

verus! {

/// A coordinate pair; it may lie outside the grid until it is wrapped.
#[derive(Clone, Copy, Debug, PartialEq, Eq, Structural)]
pub struct Point {
    pub x: isize,
    pub y: isize,
}

/// The coordinate `v` brought into `[0, d)` by true modulo.
pub open spec fn wrap_coord(v: int, d: int) -> int {
    v % d
}

/// `p` with both coordinates wrapped into a `w` by `h` rectangle.
pub open spec fn wrap_point(p: Point, w: int, h: int) -> Point {
    Point { x: wrap_coord(p.x as int, w) as isize, y: wrap_coord(p.y as int, h) as isize }
}

/// `p` lies inside a `w` by `h` rectangle.
pub open spec fn in_bounds(p: Point, w: int, h: int) -> bool {
    0 <= p.x < w && 0 <= p.y < h
}

/// The row-major index of an in-range point.
pub open spec fn index_of(p: Point, w: int) -> int {
    p.y * w + p.x
}

/// Wraps one coordinate into `[0, d)`.
pub fn wrap_coordinate(v: isize, d: usize) -> (r: isize)
    requires
        0 < d <= isize::MAX,
    ensures
        r as int == wrap_coord(v as int, d as int),
        0 <= r < d,
{
    if v >= 0 {
        let r = (v as usize) % d;
        r as isize
    } else {
        let n: usize = (-(v + 1)) as usize;
        let m: usize = n % d;
        proof {
            lemma_fundamental_div_mod(n as int, d as int);
            let q = n as int / d as int;
            assert(v as int == (-q - 1) * (d as int) + (d as int - 1 - m as int)) by (nonlinear_arith)
                requires
                    n as int == d as int * q + m as int,
                    v as int == -(n as int) - 1,
            ;
            lemma_fundamental_div_mod_converse(v as int, d as int, -q - 1, d as int - 1 - m as int);
        }
        (d - 1 - m) as isize
    }
}

/// A wrapped point is unchanged by wrapping it again, and more generally any
/// point already inside the rectangle is left as it is.
pub proof fn lemma_wrap_in_bounds_is_identity(p: Point, w: int, h: int)
    requires
        w > 0,
        h > 0,
        in_bounds(p, w, h),
    ensures
        wrap_point(p, w, h) == p,
{
    vstd::arithmetic::div_mod::lemma_small_mod(p.x as nat, w as nat);
    vstd::arithmetic::div_mod::lemma_small_mod(p.y as nat, h as nat);
}

/// Wrapping twice is wrapping once.
pub proof fn lemma_wrap_idempotent(p: Point, w: int, h: int)
    requires
        0 < w <= isize::MAX,
        0 < h <= isize::MAX,
    ensures
        wrap_point(wrap_point(p, w, h), w, h) == wrap_point(p, w, h),
{
    let q = wrap_point(p, w, h);
    assert(0 <= (p.x as int) % w < w && 0 <= (p.y as int) % h < h) by (nonlinear_arith)
        requires
            w > 0,
            h > 0,
    ;
    lemma_wrap_in_bounds_is_identity(q, w, h);
}

/// A `width` by `height` grid of cells stored row by row.
pub struct Grid<C> {
    pub width: usize,
    pub height: usize,
    pub cells: Vec<C>,
}

impl<C: Copy> Grid<C> {
    /// Both dimensions are positive, fit a signed coordinate, and every cell
    /// has exactly one stored value.
    pub open spec fn wf(&self) -> bool {
        0 < self.width <= isize::MAX && 0 < self.height <= isize::MAX && self.cells@.len()
            == self.width * self.height
    }

    /// The in-range position that `p` addresses.
    pub open spec fn wrapped(&self, p: Point) -> Point {
        wrap_point(p, self.width as int, self.height as int)
    }

    /// The storage index of the cell that `p` addresses.
    pub open spec fn slot(&self, p: Point) -> int {
        index_of(self.wrapped(p), self.width as int)
    }

    /// Makes a `width` by `height` grid with every cell set to `fill`.
    pub fn new(width: usize, height: usize, fill: C) -> (g: Self)
        requires
            0 < width <= isize::MAX,
            0 < height <= isize::MAX,
            width * height <= usize::MAX,
        ensures
            g.wf(),
            g.width == width,
            g.height == height,
            g.cells@ == Seq::new((width * height) as nat, |_i: int| fill),
    {
        let n: usize = width * height;
        let mut cells: Vec<C> = Vec::with_capacity(n);
        let mut i: usize = 0;
        while i < n
            invariant
                i <= n,
                cells@ == Seq::new(i as nat, |_i: int| fill),
            decreases n - i,
        {
            cells.push(fill);
            i = i + 1;
            assert(cells@ =~= Seq::new(i as nat, |_i: int| fill));
        }
        Grid { width, height, cells }
    }

    /// Brings `p` into the grid by wrapping each coordinate around its
    /// dimension.
    pub fn wrap(&self, p: Point) -> (r: Point)
        requires
            self.wf(),
        ensures
            r == self.wrapped(p),
            in_bounds(r, self.width as int, self.height as int),
    {
        Point { x: wrap_coordinate(p.x, self.width), y: wrap_coordinate(p.y, self.height) }
    }

    proof fn lemma_slot_in_range(&self, p: Point)
        requires
            self.wf(),
        ensures
            0 <= self.slot(p) < self.cells@.len(),
            self.slot(p) == self.width * self.wrapped(p).y + self.wrapped(p).x,
            self.width * self.wrapped(p).y <= self.width * self.wrapped(p).y + self.wrapped(p).x,
    {
        let q = self.wrapped(p);
        let w = self.width as int;
        let h = self.height as int;
        assert(0 <= q.y * w + q.x < w * h && q.y * w == w * q.y && 0 <= w * q.y) by (nonlinear_arith)
            requires
                0 <= q.x < w,
                0 <= q.y < h,
        ;
    }

    fn index(&self, q: Point, p: Point) -> (i: usize)
        requires
            self.wf(),
            q == self.wrapped(p),
        ensures
            i == self.slot(p),
            i < self.cells@.len(),
    {
        let len = self.cells.len();
        proof {
            self.lemma_slot_in_range(p);
        }
        let y = q.y as usize;
        let x = q.x as usize;
        let row = self.width * y;
        row + x
    }

    /// The state of the cell that `p` addresses, after wrapping.
    pub fn get(&self, p: Point) -> (r: C)
        requires
            self.wf(),
        ensures
            0 <= self.slot(p) < self.cells@.len(),
            r == self.cells@[self.slot(p)],
    {
        let q = self.wrap(p);
        let i = self.index(q, p);
        self.cells[i]
    }

    /// Overwrites the cell that `p` addresses, after wrapping; no other cell
    /// changes.
    pub fn set(&mut self, p: Point, value: C)
        requires
            old(self).wf(),
        ensures
            final(self).wf(),
            final(self).width == old(self).width,
            final(self).height == old(self).height,
            0 <= old(self).slot(p) < old(self).cells@.len(),
            final(self).cells@ == old(self).cells@.update(old(self).slot(p), value),
    {
        let q = self.wrap(p);
        let i = self.index(q, p);
        self.cells.set(i, value);
    }
}

} // verus!
