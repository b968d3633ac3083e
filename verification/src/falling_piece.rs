//! The currently falling piece: kind, orientation, pivot position and the
//! four rotated cell offsets, together with its movement operations.
//!
//! Rotation transforms each cell offset about the pivot. With row numbers
//! growing downward, a clockwise quarter-turn maps `(x, y)` to `(-y, x)`.

use vstd::prelude::*;

use crate::tetromino::{
    cells_bounded, initial_cells, lemma_initial_cells_bounded, map_cells, Tetromino, TetrominoMap,
};

verus! {

/// The four orientations a piece can be in, advanced by rotation.
#[derive(Clone, Copy, Debug, PartialEq, Eq, Structural)]
pub enum Orientation {
    Up,
    Right,
    Down,
    Left,
}

/// A one-column sideways move.
#[derive(Clone, Copy, Debug, PartialEq, Eq, Structural)]
pub enum Shift {
    Left,
    Right,
}

/// The three rotation kinds an input can request.
#[derive(Clone, Copy, Debug, PartialEq, Eq, Structural)]
pub enum RotationType {
    Clockwise,
    CounterClockwise,
    OneEighty,
}

/// A cell offset after a clockwise quarter-turn about the pivot.
pub open spec fn cw_cell(c: (int, int)) -> (int, int) {
    (-c.1, c.0)
}

/// A cell offset after a counter-clockwise quarter-turn about the pivot.
pub open spec fn ccw_cell(c: (int, int)) -> (int, int) {
    (c.1, -c.0)
}

/// A cell offset after a half-turn about the pivot.
pub open spec fn half_cell(c: (int, int)) -> (int, int) {
    (-c.0, -c.1)
}

pub open spec fn rotated_cell(rt: RotationType, c: (int, int)) -> (int, int) {
    match rt {
        RotationType::Clockwise => cw_cell(c),
        RotationType::CounterClockwise => ccw_cell(c),
        RotationType::OneEighty => half_cell(c),
    }
}

/// All four cell offsets rotated about the pivot.
pub open spec fn rotate_cells(cells: Seq<(int, int)>, rt: RotationType) -> Seq<(int, int)> {
    cells.map_values(|c: (int, int)| rotated_cell(rt, c))
}

pub open spec fn next_orientation(o: Orientation, rt: RotationType) -> Orientation {
    match rt {
        RotationType::Clockwise => match o {
            Orientation::Up => Orientation::Right,
            Orientation::Right => Orientation::Down,
            Orientation::Down => Orientation::Left,
            Orientation::Left => Orientation::Up,
        },
        RotationType::CounterClockwise => match o {
            Orientation::Up => Orientation::Left,
            Orientation::Left => Orientation::Down,
            Orientation::Down => Orientation::Right,
            Orientation::Right => Orientation::Up,
        },
        RotationType::OneEighty => match o {
            Orientation::Up => Orientation::Down,
            Orientation::Right => Orientation::Left,
            Orientation::Down => Orientation::Up,
            Orientation::Left => Orientation::Right,
        },
    }
}

/// The cell offsets of a kind in a given orientation: the initial map turned
/// clockwise zero to three times.
pub open spec fn oriented_cells(t: Tetromino, o: Orientation) -> Seq<(int, int)> {
    let base = initial_cells(t);
    match o {
        Orientation::Up => base,
        Orientation::Right => rotate_cells(base, RotationType::Clockwise),
        Orientation::Down => rotate_cells(
            rotate_cells(base, RotationType::Clockwise),
            RotationType::Clockwise,
        ),
        Orientation::Left => rotate_cells(
            rotate_cells(rotate_cells(base, RotationType::Clockwise), RotationType::Clockwise),
            RotationType::Clockwise,
        ),
    }
}

pub proof fn lemma_rotate_cells_bounded(cells: Seq<(int, int)>, rt: RotationType)
    requires
        cells_bounded(cells),
    ensures
        cells_bounded(rotate_cells(cells, rt)),
{
}

pub proof fn lemma_oriented_cells_wf(t: Tetromino, o: Orientation)
    ensures
        oriented_cells(t, o).len() == 4,
        cells_bounded(oriented_cells(t, o)),
{
    lemma_initial_cells_bounded(t);
    lemma_rotate_cells_bounded(initial_cells(t), RotationType::Clockwise);
    lemma_rotate_cells_bounded(
        rotate_cells(initial_cells(t), RotationType::Clockwise),
        RotationType::Clockwise,
    );
    lemma_rotate_cells_bounded(
        rotate_cells(
            rotate_cells(initial_cells(t), RotationType::Clockwise),
            RotationType::Clockwise,
        ),
        RotationType::Clockwise,
    );
}

/// Rotating the oriented map of a kind gives the oriented map of the next
/// orientation: the executable rotation stays consistent with the catalog.
pub proof fn lemma_rotation_consistent(t: Tetromino, o: Orientation, rt: RotationType)
    ensures
        rotate_cells(oriented_cells(t, o), rt) == oriented_cells(t, next_orientation(o, rt)),
{
    let base = initial_cells(t);
    let cw = RotationType::Clockwise;
    let r1 = rotate_cells(base, cw);
    let r2 = rotate_cells(r1, cw);
    let r3 = rotate_cells(r2, cw);
    match rt {
        RotationType::Clockwise => {
            if o is Left {
                assert(rotate_cells(r3, cw) =~= base);
            }
        },
        RotationType::CounterClockwise => {
            match o {
                Orientation::Up => {
                    assert(rotate_cells(base, rt) =~= r3);
                },
                Orientation::Right => {
                    assert(rotate_cells(r1, rt) =~= base);
                },
                Orientation::Down => {
                    assert(rotate_cells(r2, rt) =~= r1);
                },
                Orientation::Left => {
                    assert(rotate_cells(r3, rt) =~= r2);
                },
            }
        },
        RotationType::OneEighty => {
            match o {
                Orientation::Up => {
                    assert(rotate_cells(base, rt) =~= r2);
                },
                Orientation::Right => {
                    assert(rotate_cells(r1, rt) =~= r3);
                },
                Orientation::Down => {
                    assert(rotate_cells(r2, rt) =~= base);
                },
                Orientation::Left => {
                    assert(rotate_cells(r3, rt) =~= r1);
                },
            }
        },
    }
}

/// Law: four quarter-turns in the same direction restore a cell map.
pub proof fn lemma_rotate_four_cycle(cells: Seq<(int, int)>, rt: RotationType)
    requires
        rt is Clockwise || rt is CounterClockwise,
    ensures
        rotate_cells(rotate_cells(rotate_cells(rotate_cells(cells, rt), rt), rt), rt) == cells,
{
    assert(rotate_cells(rotate_cells(rotate_cells(rotate_cells(cells, rt), rt), rt), rt)
        =~= cells);
}

/// Law: two half-turns restore a cell map.
pub proof fn lemma_half_turn_cycle(cells: Seq<(int, int)>)
    ensures
        rotate_cells(rotate_cells(cells, RotationType::OneEighty), RotationType::OneEighty)
            == cells,
{
    assert(rotate_cells(rotate_cells(cells, RotationType::OneEighty), RotationType::OneEighty)
        =~= cells);
}

/// Law: four quarter-turns in the same direction restore the orientation.
pub proof fn lemma_orientation_four_cycle(o: Orientation, rt: RotationType)
    requires
        rt is Clockwise || rt is CounterClockwise,
    ensures
        next_orientation(
            next_orientation(next_orientation(next_orientation(o, rt), rt), rt),
            rt,
        ) == o,
{
}

/// Law: two half-turns restore the orientation.
pub proof fn lemma_orientation_half_cycle(o: Orientation)
    ensures
        next_orientation(
            next_orientation(o, RotationType::OneEighty),
            RotationType::OneEighty,
        ) == o,
{
}

/// The currently falling piece. The pivot sits at grid position
/// `(x, y)`; `map` holds the four cell offsets for the current orientation.
#[derive(Clone, Copy, Debug, PartialEq, Eq)]
pub struct FallingPiece {
    pub tetromino: Tetromino,
    pub orientation: Orientation,
    pub x: i8,
    pub y: i8,
    pub map: TetrominoMap,
}

impl FallingPiece {
    /// The cell map matches the piece's kind and orientation.
    pub open spec fn wf(self) -> bool {
        map_cells(self.map) == oriented_cells(self.tetromino, self.orientation)
    }

    /// The absolute grid positions of the four cells.
    pub open spec fn abs_cells(self) -> Seq<(int, int)> {
        Seq::new(4, |i: int| (map_cells(self.map)[i].0 + self.x, map_cells(self.map)[i].1 + self.y))
    }

    /// A fresh piece of the given kind in spawn orientation at `(x, y)`.
    pub fn new(tetromino: Tetromino, x: i8, y: i8) -> (p: FallingPiece)
        ensures
            p.tetromino == tetromino,
            p.orientation == Orientation::Up,
            p.x == x,
            p.y == y,
            p.wf(),
    {
        FallingPiece { tetromino, orientation: Orientation::Up, x, y, map: tetromino.initial_map() }
    }

    /// Move one row down.
    pub fn fall(&mut self)
        requires
            old(self).y < i8::MAX,
        ensures
            final(self).y == old(self).y + 1,
            final(self).x == old(self).x,
            final(self).tetromino == old(self).tetromino,
            final(self).orientation == old(self).orientation,
            final(self).map == old(self).map,
    {
        self.y = self.y + 1;
    }

    /// Move one row up; undoes one `fall`.
    pub fn unfall(&mut self)
        requires
            old(self).y > i8::MIN,
        ensures
            final(self).y == old(self).y - 1,
            final(self).x == old(self).x,
            final(self).tetromino == old(self).tetromino,
            final(self).orientation == old(self).orientation,
            final(self).map == old(self).map,
    {
        self.y = self.y - 1;
    }

    /// Move one column in the given direction.
    pub fn shift(&mut self, shift: Shift)
        requires
            shift is Left ==> old(self).x > i8::MIN,
            shift is Right ==> old(self).x < i8::MAX,
        ensures
            final(self).x == old(self).x + (if shift is Left { -1int } else { 1int }),
            final(self).y == old(self).y,
            final(self).tetromino == old(self).tetromino,
            final(self).orientation == old(self).orientation,
            final(self).map == old(self).map,
    {
        match shift {
            Shift::Left => self.x = self.x - 1,
            Shift::Right => self.x = self.x + 1,
        }
    }

    /// Rotate the cell map about the pivot and advance the orientation.
    /// Does not itself check board legality; the kick search does that.
    pub fn rotate(&mut self, rt: RotationType)
        requires
            old(self).wf(),
        ensures
            final(self).wf(),
            map_cells(final(self).map) == rotate_cells(map_cells(old(self).map), rt),
            final(self).orientation == next_orientation(old(self).orientation, rt),
            final(self).tetromino == old(self).tetromino,
            final(self).x == old(self).x,
            final(self).y == old(self).y,
    {
        let m = self.map;
        proof {
            lemma_oriented_cells_wf(self.tetromino, self.orientation);
            lemma_rotation_consistent(self.tetromino, self.orientation, rt);
            assert forall|i: int| 0 <= i < 4 implies -2 <= (#[trigger] m@[i]).0 <= 2 && -2
                <= m@[i].1 <= 2 by {
                assert(map_cells(m)[i] == (m@[i].0 as int, m@[i].1 as int));
            }
        }
        let rotated: TetrominoMap = match rt {
            RotationType::Clockwise => [
                (-m[0].1, m[0].0),
                (-m[1].1, m[1].0),
                (-m[2].1, m[2].0),
                (-m[3].1, m[3].0),
            ],
            RotationType::CounterClockwise => [
                (m[0].1, -m[0].0),
                (m[1].1, -m[1].0),
                (m[2].1, -m[2].0),
                (m[3].1, -m[3].0),
            ],
            RotationType::OneEighty => [
                (-m[0].0, -m[0].1),
                (-m[1].0, -m[1].1),
                (-m[2].0, -m[2].1),
                (-m[3].0, -m[3].1),
            ],
        };
        proof {
            assert(map_cells(rotated) =~= rotate_cells(map_cells(m), rt));
        }
        self.map = rotated;
        self.orientation = match (self.orientation, rt) {
            (Orientation::Up, RotationType::Clockwise) => Orientation::Right,
            (Orientation::Right, RotationType::Clockwise) => Orientation::Down,
            (Orientation::Down, RotationType::Clockwise) => Orientation::Left,
            (Orientation::Left, RotationType::Clockwise) => Orientation::Up,
            (Orientation::Up, RotationType::CounterClockwise) => Orientation::Left,
            (Orientation::Left, RotationType::CounterClockwise) => Orientation::Down,
            (Orientation::Down, RotationType::CounterClockwise) => Orientation::Right,
            (Orientation::Right, RotationType::CounterClockwise) => Orientation::Up,
            (Orientation::Up, RotationType::OneEighty) => Orientation::Down,
            (Orientation::Right, RotationType::OneEighty) => Orientation::Left,
            (Orientation::Down, RotationType::OneEighty) => Orientation::Up,
            (Orientation::Left, RotationType::OneEighty) => Orientation::Right,
        };
    }

    /// Move the pivot by the given `(columns, rows)` offset.
    pub fn translate(&mut self, translation: (i8, i8))
        requires
            i8::MIN <= old(self).x + translation.0 <= i8::MAX,
            i8::MIN <= old(self).y + translation.1 <= i8::MAX,
        ensures
            final(self).x == old(self).x + translation.0,
            final(self).y == old(self).y + translation.1,
            final(self).tetromino == old(self).tetromino,
            final(self).orientation == old(self).orientation,
            final(self).map == old(self).map,
    {
        self.x = self.x + translation.0;
        self.y = self.y + translation.1;
    }
}

} // verus!
