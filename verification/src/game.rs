//! Board-game data types: cell status, coordinates, ships and drawing paths.

use vstd::prelude::*;

verus! {

use vstd::std_specs::hash::obeys_key_model;

/// Board side length.
pub const LEN: u8 = 12;

/// How a ship lies on the board.
#[derive(Debug, Clone, Copy)]
pub enum ShipDirection {
    Horizontal,
    Vertical,
}

/// Outcome of one shot.
#[derive(Debug, Clone, Copy)]
pub enum Move {
    Miss(Point),
    Kill(Point),
}

/// A step direction on the board.
#[derive(Debug, Clone, Copy)]
pub enum Direction {
    Up,
    Right,
    Down,
    Left,
}

/// State of one board cell.
#[derive(Debug, Copy, Clone, PartialEq, Eq, Structural)]
pub enum Status {
    Empty,
    Ship,
    Bound,
    Kill,
}

/// A full board of cells.
pub type Field = [[Status; 12]; 12];

/// A coordinate on the board.
#[derive(Debug, Clone, Copy, PartialEq, Eq, Structural)]
pub struct Point {
    pub row: u8,
    pub column: u8,
}

/// Where `p` lands after one step in `d`.
pub open spec fn moved(p: Point, d: Direction) -> Point {
    match d {
        Direction::Up => Point { row: (p.row - 1) as u8, column: p.column },
        Direction::Left => Point { row: p.row, column: (p.column - 1) as u8 },
        Direction::Right => Point { row: p.row, column: (p.column + 1) as u8 },
        Direction::Down => Point { row: (p.row + 1) as u8, column: p.column },
    }
}

impl Point {
    /// Step one cell in the given direction; stepping off the coordinate
    /// range is excluded.
    pub fn go_to(&mut self, direction: &Direction) -> (ret: &mut Point)
        requires
            *direction matches Direction::Up ==> old(self).row > 0,
            *direction matches Direction::Down ==> old(self).row < 255,
            *direction matches Direction::Left ==> old(self).column > 0,
            *direction matches Direction::Right ==> old(self).column < 255,
        ensures
            *ret == moved(*old(self), *direction),
            *final(self) == *final(ret),
    {
        match direction {
            Direction::Up => {
                self.row = self.row - 1;
            },
            Direction::Left => {
                self.column = self.column - 1;
            },
            Direction::Right => {
                self.column = self.column + 1;
            },
            Direction::Down => {
                self.row = self.row + 1;
            },
        }
        self
    }
}

/// A ship: its size, orientation and anchor cell.
#[derive(Debug, Copy, Clone)]
pub struct Ship {
    pub size: u8,
    pub direction: &'static ShipDirection,
    pub start_point: Point,
}

impl Ship {
    /// The fleet composition: how many ships (value) exist of each size
    /// (key) — four of size 1 down to one of size 4.
    pub fn get_all() -> (r: std::collections::HashMap<u8, u8>)
        ensures
            obeys_key_model::<u8>() ==> r@ == map![1u8 => 4u8, 2u8 => 3u8, 3u8 => 2u8, 4u8 => 1u8],
    {
        let mut ships: std::collections::HashMap<u8, u8> = std::collections::HashMap::new();
        ships.insert(1, 4);
        ships.insert(2, 3);
        ships.insert(3, 2);
        ships.insert(4, 1);
        proof {
            if obeys_key_model::<u8>() {
                assert(ships@ =~= map![1u8 => 4u8, 2u8 => 3u8, 3u8 => 2u8, 4u8 => 1u8]);
            }
        }
        ships
    }
}

/// A drawing instruction: a path of direction steps from a start cell, the
/// status to draw, and the statuses it may overwrite.
pub struct Draw {
    pub start_point: Point,
    pub path: Vec<(Direction, u8)>,
    pub draw_status: Status,
    pub allowed_status: Vec<Status>,
}

} // verus!
