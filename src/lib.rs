//! A turmite simulation on a toroidal grid: ants that turn, rewrite the cell
//! under them and step on, in a fixed order, every tick.

pub mod ant;
pub mod color;
pub mod frame;
pub mod grid;
pub mod rules;
pub mod schedule;
pub mod trail;
pub mod world;
