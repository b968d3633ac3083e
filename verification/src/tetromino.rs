//! The catalog of the seven piece kinds and their initial cell maps.
//!
//! A cell map is four `(column, row)` offsets from the piece's pivot, in the
//! spawn orientation. Row offsets grow downward, so an offset of `-1` is one
//! row above the pivot.

use vstd::prelude::*;

verus! {

/// One of the seven tetromino kinds.
#[derive(Clone, Copy, Debug, PartialEq, Eq, Structural)]
pub enum Tetromino {
    I,
    O,
    T,
    S,
    Z,
    J,
    L,
}

/// Four `(column, row)` offsets from the pivot.
pub type TetrominoMap = [(i8, i8); 4];

/// The cell offsets of a map as unbounded integers, for use in contracts.
pub open spec fn map_cells(m: TetrominoMap) -> Seq<(int, int)> {
    Seq::new(4, |i: int| (m@[i].0 as int, m@[i].1 as int))
}

/// The initial cell offsets of each kind, in the spawn orientation.
pub open spec fn initial_cells(t: Tetromino) -> Seq<(int, int)> {
    match t {
        Tetromino::I => seq![(-1int, 0int), (0int, 0int), (1int, 0int), (2int, 0int)],
        Tetromino::O => seq![(0int, -1int), (1int, -1int), (0int, 0int), (1int, 0int)],
        Tetromino::T => seq![(0int, -1int), (-1int, 0int), (0int, 0int), (1int, 0int)],
        Tetromino::S => seq![(0int, -1int), (1int, -1int), (-1int, 0int), (0int, 0int)],
        Tetromino::Z => seq![(-1int, -1int), (0int, -1int), (0int, 0int), (1int, 0int)],
        Tetromino::J => seq![(-1int, -1int), (-1int, 0int), (0int, 0int), (1int, 0int)],
        Tetromino::L => seq![(1int, -1int), (-1int, 0int), (0int, 0int), (1int, 0int)],
    }
}

/// Every initial cell offset lies within two cells of the pivot.
pub open spec fn cells_bounded(cells: Seq<(int, int)>) -> bool {
    forall|i: int|
        0 <= i < cells.len() ==> -2 <= (#[trigger] cells[i]).0 <= 2 && -2 <= cells[i].1 <= 2
}

pub proof fn lemma_initial_cells_bounded(t: Tetromino)
    ensures
        initial_cells(t).len() == 4,
        cells_bounded(initial_cells(t)),
{
    assert forall|i: int| 0 <= i < initial_cells(t).len() implies -2 <= (
    #[trigger] initial_cells(t)[i]).0 <= 2 && -2 <= initial_cells(t)[i].1 <= 2 by {
        match t {
            Tetromino::I => {},
            Tetromino::O => {},
            Tetromino::T => {},
            Tetromino::S => {},
            Tetromino::Z => {},
            Tetromino::J => {},
            Tetromino::L => {},
        }
    }
}

impl Tetromino {
    /// The initial cell map of this kind, in the spawn orientation.
    pub fn initial_map(self) -> (m: TetrominoMap)
        ensures
            map_cells(m) == initial_cells(self),
    {
        let m: TetrominoMap = match self {
            Tetromino::I => [(-1, 0), (0, 0), (1, 0), (2, 0)],
            Tetromino::O => [(0, -1), (1, -1), (0, 0), (1, 0)],
            Tetromino::T => [(0, -1), (-1, 0), (0, 0), (1, 0)],
            Tetromino::S => [(0, -1), (1, -1), (-1, 0), (0, 0)],
            Tetromino::Z => [(-1, -1), (0, -1), (0, 0), (1, 0)],
            Tetromino::J => [(-1, -1), (-1, 0), (0, 0), (1, 0)],
            Tetromino::L => [(1, -1), (-1, 0), (0, 0), (1, 0)],
        };
        proof {
            assert(map_cells(m) =~= initial_cells(self));
        }
        m
    }
}

} // verus!
