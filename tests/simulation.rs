use turmite::ant::{Ant, TrailAnt, apply_trail_rule};
use turmite::color::{Rgba, background, palette};
use turmite::grid::{Grid, Point, wrap_coordinate};
use turmite::rules::{next_state, turn, turns_clockwise, unit};
use turmite::trail::TrailWorld;
use turmite::world::World;

fn pt(x: isize, y: isize) -> Point {
    Point { x, y }
}

fn white() -> Rgba {
    Rgba { r: 255, g: 255, b: 255, a: 255 }
}

#[test]
fn single_ant_two_ticks() {
    let mut w = World::new(10, 10, 1);
    w.add_ant(Ant::new(pt(5, 5), 0));
    w.tick();
    assert_eq!(w.get(pt(5, 5)), 1);
    assert_eq!(w.ants()[0].position, pt(4, 5));
    assert_eq!(w.ants()[0].heading, 3);
    w.tick();
    assert_eq!(w.get(pt(4, 5)), 1);
    assert_eq!(w.ants()[0].heading, 2);
    assert_eq!(w.ants()[0].position, pt(4, 6));
    let touched = w.cells().iter().filter(|c| **c != 0).count();
    assert_eq!(touched, 2);
}

#[test]
fn four_ants_share_one_cell() {
    let mut w = World::new(10, 10, 1);
    w.add_ants();
    for (i, a) in w.ants().iter().enumerate() {
        assert_eq!(a.position, pt(5, 5));
        assert_eq!(a.heading as usize, i);
    }
    w.tick();
    assert_eq!(w.get(pt(5, 5)), 4);
    let expected = [(pt(4, 5), 3), (pt(5, 6), 2), (pt(6, 5), 1), (pt(5, 4), 0)];
    for (a, (p, h)) in w.ants().iter().zip(expected.iter()) {
        assert_eq!(a.position, *p);
        assert_eq!(a.heading, *h);
    }
}

#[test]
fn trail_mark_then_erase() {
    let color = Rgba { r: 10, g: 20, b: 30, a: 255 };
    let mut w = TrailWorld::new(5, 5, 1);
    assert!(w.cells().iter().all(|c| *c == white()));
    w.add_ant(TrailAnt::new(pt(2, 2), 0, color));
    w.tick();
    assert_eq!(w.get(pt(2, 2)), color);
    assert_eq!(w.ants()[0].heading, 1);
    assert_eq!(w.ants()[0].position, pt(3, 2));
    w.ants[0].position = pt(2, 2);
    w.tick();
    assert_eq!(w.get(pt(2, 2)), white());
    assert_eq!(w.ants()[0].heading, 0);
    assert_eq!(w.ants()[0].position, pt(2, 1));
    assert!(w.cells().iter().all(|c| *c == white()));
}

#[test]
fn trail_single_cell_grid_toggles() {
    let color = Rgba { r: 1, g: 2, b: 3, a: 4 };
    let mut w = TrailWorld::new(1, 1, 2);
    w.add_ant(TrailAnt::new(pt(0, 0), 2, color));
    w.tick();
    assert_eq!(w.get(pt(0, 0)), color);
    assert_eq!(w.ants()[0].heading, 3);
    assert_eq!(w.ants()[0].position, pt(0, 0));
    w.tick();
    assert_eq!(w.get(pt(0, 0)), white());
    assert_eq!(w.ants()[0].heading, 2);
}

#[test]
fn trail_ants_interact_in_order() {
    let red = Rgba { r: 255, g: 0, b: 0, a: 255 };
    let blue = Rgba { r: 0, g: 0, b: 255, a: 255 };
    let mut w = TrailWorld::new(5, 5, 1);
    w.add_ant(TrailAnt::new(pt(1, 1), 0, red));
    w.add_ant(TrailAnt::new(pt(1, 1), 0, blue));
    w.tick();
    // the second ant finds the first one's mark, clears it and turns left
    assert_eq!(w.get(pt(1, 1)), white());
    assert_eq!(w.ants()[0].position, pt(2, 1));
    assert_eq!(w.ants()[0].heading, 1);
    assert_eq!(w.ants()[1].position, pt(0, 1));
    assert_eq!(w.ants()[1].heading, 3);
}

#[test]
fn trail_rule_table() {
    let c = Rgba { r: 9, g: 9, b: 9, a: 9 };
    assert_eq!(apply_trail_rule(white(), c), (c, true));
    assert_eq!(apply_trail_rule(c, c), (white(), false));
    let other = Rgba { r: 1, g: 1, b: 1, a: 1 };
    assert_eq!(apply_trail_rule(other, c), (white(), false));
    assert_eq!(background(), white());
}

#[test]
fn wrap_in_range_is_identity() {
    let g = Grid::new(7, 3, 0u8);
    for x in 0..7 {
        for y in 0..3 {
            assert_eq!(g.wrap(pt(x, y)), pt(x, y));
            assert_eq!(g.wrap(g.wrap(pt(x - 7, y + 3))), pt(x, y));
        }
    }
}

#[test]
fn wrap_out_of_range() {
    let g = Grid::new(10, 4, 0u8);
    assert_eq!(g.wrap(pt(-1, -1)), pt(9, 3));
    assert_eq!(g.wrap(pt(10, 4)), pt(0, 0));
    assert_eq!(g.wrap(pt(-25, 9)), pt(5, 1));
    assert_eq!(wrap_coordinate(-7, 5), 3);
    assert_eq!(wrap_coordinate(12, 5), 2);
    assert_eq!(wrap_coordinate(-5, 5), 0);
    assert_eq!(wrap_coordinate(isize::MIN, 2), 0);
    assert_eq!(wrap_coordinate(isize::MAX, 2), 1);
}

#[test]
fn grid_get_and_set() {
    let mut g = Grid::new(4, 3, 0u8);
    g.set(pt(-1, 0), 7);
    assert_eq!(g.get(pt(3, 0)), 7);
    assert_eq!(g.cells[3], 7);
    g.set(pt(1, 2), 5);
    assert_eq!(g.cells[2 * 4 + 1], 5);
    assert_eq!(g.cells.iter().filter(|c| **c != 0).count(), 2);
}

#[test]
fn turmite_tables() {
    let clockwise = [false, true, false, true, false, false, true, true, false, true, false, true, false, false, true, true];
    for code in 0..16u8 {
        assert_eq!(turns_clockwise(code), clockwise[code as usize]);
        assert_eq!(next_state(code), (code + 1) % 16);
    }
    assert_eq!(next_state(15), 0);
}

#[test]
fn headings_cycle() {
    assert_eq!(turn(3, true), 0);
    assert_eq!(turn(0, false), 3);
    assert_eq!(turn(1, true), 2);
    assert_eq!(turn(2, false), 1);
    let mut h = 0u8;
    for i in 0..1000 {
        h = turn(h, i % 3 == 0);
        assert!(h < 4);
    }
    assert_eq!(unit(0), (0, -1));
    assert_eq!(unit(1), (1, 0));
    assert_eq!(unit(2), (0, 1));
    assert_eq!(unit(3), (-1, 0));
}

#[test]
fn bounds_and_states_hold_over_many_ticks() {
    let mut w = World::new(3, 2, 7);
    w.add_ants();
    w.add_ant(Ant::new(pt(-4, 9), 9));
    for _ in 0..300 {
        w.advance();
        for a in w.ants() {
            assert!(0 <= a.position.x && a.position.x < 3);
            assert!(0 <= a.position.y && a.position.y < 2);
            assert!(a.heading < 4);
        }
        assert!(w.cells().iter().all(|c| *c < 16));
    }
}

#[test]
fn runs_are_deterministic() {
    let make = || {
        let mut w = World::new(12, 9, 3);
        w.add_ants();
        w.add_ant(Ant::new(pt(1, 1), 2));
        w
    };
    let mut a = make();
    let mut b = make();
    a.run(500);
    b.run(500);
    assert_eq!(a.cells(), b.cells());
    assert_eq!(a.ants(), b.ants());

    let red = Rgba { r: 200, g: 0, b: 0, a: 255 };
    let make_trail = || {
        let mut w = TrailWorld::new(8, 8, 1);
        w.add_ant(TrailAnt::new(pt(3, 3), 0, red));
        w.add_ant(TrailAnt::new(pt(5, 2), 1, Rgba { r: 0, g: 0, b: 9, a: 255 }));
        w
    };
    let mut c = make_trail();
    let mut d = make_trail();
    c.run(400);
    d.run(400);
    assert_eq!(c.cells(), d.cells());
    assert_eq!(c.ants(), d.ants());
}

#[test]
fn advance_runs_speed_ticks() {
    let mut a = World::new(10, 10, 5);
    a.add_ants();
    let mut b = World::new(10, 10, 1);
    b.add_ants();
    a.advance();
    b.run(5);
    assert_eq!(a.cells(), b.cells());
    assert_eq!(a.ants(), b.ants());
    let mut c = World::new(10, 10, 0);
    c.add_ants();
    c.advance();
    assert!(c.cells().iter().all(|s| *s == 0));
}

#[test]
fn add_ant_wraps_and_reduces_heading() {
    let mut w = World::new(10, 10, 1);
    w.add_ant(Ant { position: pt(-1, 12), heading: 6 });
    assert_eq!(w.ants()[0].position, pt(9, 2));
    assert_eq!(w.ants()[0].heading, 2);
    assert_eq!(Ant::centered(7, 4, 5), Ant { position: pt(3, 2), heading: 1 });
}

#[test]
fn single_cell_turmite() {
    let mut w = World::new(1, 1, 1);
    w.add_ant(Ant::new(pt(0, 0), 0));
    for i in 1..=20u32 {
        w.tick();
        assert_eq!(w.get(pt(0, 0)) as u32, i % 16);
        assert_eq!(w.ants()[0].position, pt(0, 0));
    }
}

#[test]
fn palette_colors() {
    assert_eq!(palette(0), white());
    assert_eq!(palette(1), Rgba { r: 255, g: 61, b: 61, a: 255 });
    assert_eq!(palette(12), Rgba { r: 26, g: 117, b: 78, a: 255 });
    assert_eq!(palette(15), Rgba { r: 0, g: 0, b: 0, a: 255 });
    let mut w = World::new(4, 4, 1);
    w.add_ant(Ant::new(pt(0, 0), 0));
    w.tick();
    let colors = w.colors();
    assert_eq!(colors.len(), 16);
    assert_eq!(colors[0], palette(1));
    assert!(colors[1..].iter().all(|c| *c == white()));
}

fn bytes(c: Rgba) -> [u8; 4] {
    [c.r, c.g, c.b, c.a]
}

#[test]
fn frame_scales_cells() {
    let mut w = World::new(2, 1, 1);
    w.add_ant(Ant::new(pt(0, 0), 0));
    w.tick();
    let f = w.frame(2);
    assert_eq!(f.len(), 4 * 4 * 2);
    let one = bytes(palette(1));
    let blank = bytes(white());
    for y in 0..2 {
        for x in 0..4 {
            let at = 4 * (y * 4 + x);
            let want = if x < 2 { one } else { blank };
            assert_eq!(&f[at..at + 4], &want[..]);
        }
    }
    let g = w.frame(1);
    assert_eq!(g, [one, blank].concat());
}

#[test]
fn frame_of_trail_world() {
    let color = Rgba { r: 10, g: 20, b: 30, a: 255 };
    let mut w = TrailWorld::new(3, 2, 1);
    w.add_ant(TrailAnt::new(pt(2, 1), 0, color));
    w.tick();
    let f = w.frame(1);
    assert_eq!(f.len(), 24);
    assert_eq!(&f[20..24], &bytes(color)[..]);
    assert!(f[..20].iter().all(|b| *b == 255));
    let big = turmite::frame::scale_frame(w.cells(), 3, 2, 3);
    assert_eq!(big.len(), 4 * 9 * 6);
    let last = big.len() - 4;
    assert_eq!(&big[last..], &bytes(color)[..]);
    let pixel_in_first_cell = 4 * (2 * 9 + 2);
    assert_eq!(&big[pixel_in_first_cell..pixel_in_first_cell + 4], &bytes(white())[..]);
}
