//! The playfield: the grid of settled cells, collision testing, the kick
//! search for rotations, line clearing with gravity compaction, spin
//! classification, and the per-tick protocol that moves the falling piece.
//!
//! Grid layout: `grid[row][column]`, row `0` at the top of the hidden
//! buffer, row `HEIGHT - 1` the floor. Rows `0 .. BUFFER_ROWS` are hidden;
//! rows `BUFFER_ROWS .. HEIGHT` are the visible play area. A falling piece
//! moves toward higher row numbers.

use vstd::prelude::*;

use crate::falling_piece::{FallingPiece, Orientation, RotationType, Shift};
use crate::handling::HandlingSettings;
use crate::input::InputState;
use crate::line_clear_message::SpinType;
use crate::next_queue::NextQueue;
use crate::tetromino::Tetromino;

verus! {

/// Columns of the grid.
pub const WIDTH: usize = 10;

/// Total rows of the grid, hidden buffer included.
pub const HEIGHT: usize = 40;

/// Rows shown to the player, at the bottom of the grid.
pub const VISIBLE_HEIGHT: usize = 20;

/// Rows of the hidden buffer above the visible area: `HEIGHT - VISIBLE_HEIGHT`.
pub const BUFFER_ROWS: usize = 20;

/// The spawn column: the middle of the grid, `(WIDTH - 1) / 2`.
pub const INITIAL_X_POSITION: i8 = 4;

/// The spawn row: `BUFFER_ROWS - 1`, one row above the visible area, so a
/// fresh piece sits entirely inside the hidden buffer.
pub const INITIAL_Y_POSITION: i8 = 19;

/// The grid of settled cells: `HEIGHT` rows of `WIDTH` cells each.
pub type Grid = Vec<Vec<Option<Tetromino>>>;

/// The rows of a grid as mathematical sequences.
pub open spec fn rows_view(rows: Seq<Vec<Option<Tetromino>>>) -> Seq<Seq<Option<Tetromino>>> {
    rows.map_values(|r: Vec<Option<Tetromino>>| r@)
}

/// The grid has exactly `HEIGHT` rows of `WIDTH` cells each.
pub open spec fn grid_wf(g: Seq<Seq<Option<Tetromino>>>) -> bool {
    &&& g.len() == HEIGHT
    &&& forall|y: int| 0 <= y < g.len() ==> (#[trigger] g[y]).len() == WIDTH
}

/// The position lies on the grid.
pub open spec fn in_bounds(x: int, y: int) -> bool {
    0 <= x < WIDTH && 0 <= y < HEIGHT
}

/// The position lies on the grid and holds no settled cell.
pub open spec fn cell_open(g: Seq<Seq<Option<Tetromino>>>, x: int, y: int) -> bool {
    in_bounds(x, y) && g[y][x] is None
}

/// All four cells of the piece lie on the grid and collide with nothing.
pub open spec fn piece_fits(g: Seq<Seq<Option<Tetromino>>>, p: FallingPiece) -> bool {
    forall|i: int|
        0 <= i < 4 ==> cell_open(g, (#[trigger] p.abs_cells()[i]).0, p.abs_cells()[i].1)
}

/// One of the piece's first `n` cells occupies this position.
pub open spec fn covered_prefix(p: FallingPiece, n: int, x: int, y: int) -> bool {
    exists|i: int| 0 <= i < n && #[trigger] p.abs_cells()[i] == (x, y)
}

/// Some cell of the piece occupies this position.
pub open spec fn piece_covers(p: FallingPiece, x: int, y: int) -> bool {
    covered_prefix(p, 4, x, y)
}

/// The grid with the piece's first `n` cells written in its own color.
pub open spec fn place_prefix(g: Seq<Seq<Option<Tetromino>>>, p: FallingPiece, n: int) -> Seq<
    Seq<Option<Tetromino>>,
> {
    Seq::new(
        g.len(),
        |y: int|
            Seq::new(
                g[y].len(),
                |x: int|
                    if covered_prefix(p, n, x, y) {
                        Some(p.tetromino)
                    } else {
                        g[y][x]
                    },
            ),
    )
}

/// The grid with the piece's four cells written in its own color.
pub open spec fn place_piece(g: Seq<Seq<Option<Tetromino>>>, p: FallingPiece) -> Seq<
    Seq<Option<Tetromino>>,
> {
    place_prefix(g, p, 4)
}

/// Every cell of the row is occupied.
pub open spec fn row_full(r: Seq<Option<Tetromino>>) -> bool {
    forall|x: int| 0 <= x < r.len() ==> (#[trigger] r[x]) is Some
}

/// A row of `WIDTH` empty cells.
pub open spec fn empty_row() -> Seq<Option<Tetromino>> {
    Seq::new(WIDTH as nat, |x: int| None)
}

/// No cell anywhere in the grid is occupied.
pub open spec fn grid_clear(g: Seq<Seq<Option<Tetromino>>>) -> bool {
    forall|y: int, x: int|
        0 <= y < g.len() && 0 <= x < g[y].len() ==> (#[trigger] g[y][x]) is None
}

/// The rows that survive a clear: every row that is not full, in order.
pub open spec fn kept_rows(g: Seq<Seq<Option<Tetromino>>>) -> Seq<Seq<Option<Tetromino>>>
    decreases g.len(),
{
    if g.len() == 0 {
        Seq::empty()
    } else if row_full(g.last()) {
        kept_rows(g.drop_last())
    } else {
        kept_rows(g.drop_last()).push(g.last())
    }
}

/// How many rows a clear removes.
pub open spec fn full_row_count(g: Seq<Seq<Option<Tetromino>>>) -> int {
    g.len() - kept_rows(g).len()
}

/// The grid after clearing: the surviving rows settle to the bottom and
/// fresh empty rows fill the top.
pub open spec fn cleared_grid(g: Seq<Seq<Option<Tetromino>>>) -> Seq<Seq<Option<Tetromino>>> {
    Seq::new((g.len() - kept_rows(g).len()) as nat, |i: int| empty_row()) + kept_rows(g)
}

/// A clear never keeps more rows than the grid has.
pub proof fn lemma_kept_rows_len(g: Seq<Seq<Option<Tetromino>>>)
    ensures
        kept_rows(g).len() <= g.len(),
    decreases g.len(),
{
    if g.len() > 0 {
        lemma_kept_rows_len(g.drop_last());
    }
}

/// Every surviving row is one of the grid's rows, and none of them is full.
pub proof fn lemma_kept_rows_from(g: Seq<Seq<Option<Tetromino>>>)
    ensures
        forall|j: int|
            0 <= j < kept_rows(g).len() ==> !row_full(#[trigger] kept_rows(g)[j]) && exists|y: int|
                0 <= y < g.len() && g[y] == kept_rows(g)[j],
    decreases g.len(),
{
    if g.len() > 0 {
        lemma_kept_rows_from(g.drop_last());
        assert forall|j: int| 0 <= j < kept_rows(g).len() implies !row_full(
            #[trigger] kept_rows(g)[j],
        ) && exists|y: int| 0 <= y < g.len() && g[y] == kept_rows(g)[j] by {
            if j < kept_rows(g.drop_last()).len() {
                let y = choose|y: int|
                    0 <= y < g.drop_last().len() && g.drop_last()[y] == kept_rows(
                        g.drop_last(),
                    )[j];
                assert(g[y] == kept_rows(g)[j]);
            } else {
                assert(kept_rows(g)[j] == g[g.len() - 1]);
            }
        }
    }
}

/// Clearing a well-formed grid gives a well-formed grid with no full rows,
/// removing exactly the full rows.
pub proof fn lemma_cleared_grid_wf(g: Seq<Seq<Option<Tetromino>>>)
    requires
        grid_wf(g),
    ensures
        grid_wf(cleared_grid(g)),
        forall|j: int|
            0 <= j < cleared_grid(g).len() ==> !row_full(#[trigger] cleared_grid(g)[j]),
        0 <= full_row_count(g) <= g.len(),
{
    lemma_kept_rows_len(g);
    lemma_kept_rows_from(g);
    let cg = cleared_grid(g);
    assert(empty_row().len() == WIDTH);
    assert(!row_full(empty_row())) by {
        assert(empty_row()[0] is None);
    }
    assert forall|j: int| 0 <= j < cg.len() implies (#[trigger] cg[j]).len() == WIDTH by {
        if j < full_row_count(g) {
            assert(cg[j] == empty_row());
        } else {
            let r = kept_rows(g)[j - full_row_count(g)];
            let y = choose|y: int| 0 <= y < g.len() && g[y] == r;
            assert(g[y].len() == WIDTH);
        }
    }
    assert forall|j: int| 0 <= j < cg.len() implies !row_full(#[trigger] cg[j]) by {
        if j < full_row_count(g) {
            assert(cg[j] == empty_row());
        } else {
            assert(cg[j] == kept_rows(g)[j - full_row_count(g)]);
        }
    }
}

/// Surviving rows split around any concatenation point.
pub proof fn lemma_kept_rows_append(a: Seq<Seq<Option<Tetromino>>>, b: Seq<Seq<Option<Tetromino>>>)
    ensures
        kept_rows(a + b) == kept_rows(a) + kept_rows(b),
    decreases b.len(),
{
    if b.len() == 0 {
        assert(a + b =~= a);
        assert(kept_rows(a) + kept_rows(b) =~= kept_rows(a));
    } else {
        lemma_kept_rows_append(a, b.drop_last());
        assert((a + b).drop_last() =~= a + b.drop_last());
        assert((a + b).last() == b.last());
        if row_full(b.last()) {
            assert(kept_rows(a) + kept_rows(b) =~= kept_rows(a) + kept_rows(b.drop_last()));
        } else {
            assert(kept_rows(a) + kept_rows(b) =~= (kept_rows(a) + kept_rows(b.drop_last())).push(
                b.last(),
            ));
        }
    }
}

/// Law: clearing moves each surviving row down by exactly the number of
/// full rows below it, and leaves rows with no full row below them where
/// they are. `g.skip(y + 1).len() - kept_rows(g.skip(y + 1)).len()` is the
/// number of full rows strictly below row `y`.
pub proof fn lemma_cleared_row_position(g: Seq<Seq<Option<Tetromino>>>, y: int)
    requires
        0 <= y < g.len(),
        !row_full(g[y]),
    ensures
        cleared_grid(g)[y + (g.skip(y + 1).len() - kept_rows(g.skip(y + 1)).len())] == g[y],
        0 <= y + (g.skip(y + 1).len() - kept_rows(g.skip(y + 1)).len()) < cleared_grid(g).len(),
{
    let front = g.take(y + 1);
    let back = g.skip(y + 1);
    lemma_kept_rows_len(front);
    lemma_kept_rows_len(back);
    lemma_kept_rows_len(g);
    assert(g =~= front + back);
    lemma_kept_rows_append(front, back);
    assert(front.drop_last() =~= g.take(y));
    assert(front.last() == g[y]);
    assert(kept_rows(front) == kept_rows(g.take(y)).push(g[y]));
    lemma_kept_rows_len(g.take(y));
    let idx_in_kept = kept_rows(front).len() - 1;
    assert(kept_rows(g)[idx_in_kept] == g[y]);
    let cleared = full_row_count(g);
    assert(cleared_grid(g)[cleared + idx_in_kept] == g[y]);
    assert(cleared + idx_in_kept == y + (back.len() - kept_rows(back).len()));
}

/// Any row of the placed grid that was not full before holds a piece cell
/// in every cell that completes it; so a newly full row is one of the at
/// most four rows the piece touches.
proof fn lemma_full_prefix_bound(g: Seq<Seq<Option<Tetromino>>>, p: FallingPiece, n: int)
    requires
        grid_wf(g),
        forall|y: int| 0 <= y < g.len() ==> !row_full(#[trigger] g[y]),
        0 <= n <= g.len(),
    ensures
        full_row_count(place_piece(g, p).take(n)) <= (if 0 <= p.abs_cells()[0].1 < n {
            1int
        } else {
            0int
        }) + (if 0 <= p.abs_cells()[1].1 < n {
            1int
        } else {
            0int
        }) + (if 0 <= p.abs_cells()[2].1 < n {
            1int
        } else {
            0int
        }) + (if 0 <= p.abs_cells()[3].1 < n {
            1int
        } else {
            0int
        }),
    decreases n,
{
    let gp = place_piece(g, p);
    if n == 0 {
        assert(gp.take(0) =~= Seq::<Seq<Option<Tetromino>>>::empty());
    } else {
        lemma_full_prefix_bound(g, p, n - 1);
        assert(gp.take(n).drop_last() =~= gp.take(n - 1));
        assert(gp.take(n).last() == gp[n - 1]);
        lemma_kept_rows_len(gp.take(n - 1));
        if row_full(gp[n - 1]) {
            let y = n - 1;
            assert(!row_full(g[y]));
            let x = choose|x: int| 0 <= x < g[y].len() && !((#[trigger] g[y][x]) is Some);
            assert(gp[y][x] is Some);
            assert(piece_covers(p, x, y));
            let i = choose|i: int| 0 <= i < 4 && #[trigger] p.abs_cells()[i] == (x, y);
            assert(p.abs_cells()[i].1 == n - 1);
        }
    }
}

/// Law: locking a piece onto a grid with no full rows clears at most four.
pub proof fn lemma_lock_clears_at_most_four(g: Seq<Seq<Option<Tetromino>>>, p: FallingPiece)
    requires
        grid_wf(g),
        forall|y: int| 0 <= y < g.len() ==> !row_full(#[trigger] g[y]),
    ensures
        0 <= full_row_count(place_piece(g, p)) <= 4,
{
    lemma_full_prefix_bound(g, p, g.len() as int);
    assert(place_piece(g, p).take(g.len() as int) =~= place_piece(g, p));
    lemma_kept_rows_len(place_piece(g, p));
}

/// The position lies on the grid.
pub fn valid_mino(x: i32, y: i32) -> (r: bool)
    ensures
        r == in_bounds(x as int, y as int),
{
    0 <= x && x < WIDTH as i32 && 0 <= y && y < HEIGHT as i32
}

/// All four cells of the piece lie on the grid and collide with nothing.
pub fn valid_position(grid: &Grid, piece: &FallingPiece) -> (r: bool)
    requires
        grid_wf(rows_view(grid@)),
    ensures
        r == piece_fits(rows_view(grid@), *piece),
{
    let g = Ghost(rows_view(grid@));
    let mut i: usize = 0;
    let mut ok = true;
    while i < 4
        invariant
            0 <= i <= 4,
            grid_wf(g@),
            g@ == rows_view(grid@),
            ok == forall|j: int|
                0 <= j < i ==> cell_open(g@, (#[trigger] piece.abs_cells()[j]).0,
                piece.abs_cells()[j].1),
        decreases 4 - i,
    {
        let (cx, cy) = piece.map[i];
        let x = cx as i32 + piece.x as i32;
        let y = cy as i32 + piece.y as i32;
        proof {
            assert(piece.abs_cells()[i as int] == (x as int, y as int));
        }
        let open = if valid_mino(x, y) {
            proof {
                assert(g@[y as int] == grid@[y as int]@);
                assert(g@[y as int].len() == WIDTH);
            }
            grid[y as usize][x as usize].is_none()
        } else {
            false
        };
        ok = ok && open;
        i = i + 1;
    }
    ok
}

/// Every cell of the row is occupied.
fn row_is_full(row: &Vec<Option<Tetromino>>) -> (r: bool)
    ensures
        r == row_full(row@),
{
    let mut x: usize = 0;
    let mut full = true;
    while x < row.len()
        invariant
            0 <= x <= row@.len(),
            full == forall|j: int| 0 <= j < x ==> (#[trigger] row@[j]) is Some,
        decreases row@.len() - x,
    {
        full = full && row[x].is_some();
        x = x + 1;
    }
    full
}

/// A fresh copy of a row.
fn copy_row(row: &Vec<Option<Tetromino>>) -> (r: Vec<Option<Tetromino>>)
    ensures
        r@ == row@,
{
    let mut r: Vec<Option<Tetromino>> = Vec::new();
    let mut x: usize = 0;
    while x < row.len()
        invariant
            0 <= x <= row@.len(),
            r@ == row@.take(x as int),
        decreases row@.len() - x,
    {
        r.push(row[x]);
        proof {
            assert(r@ =~= row@.take(x + 1));
        }
        x = x + 1;
    }
    proof {
        assert(r@ =~= row@);
    }
    r
}

/// A row of `WIDTH` empty cells.
fn make_empty_row() -> (r: Vec<Option<Tetromino>>)
    ensures
        r@ == empty_row(),
{
    let mut r: Vec<Option<Tetromino>> = Vec::new();
    let mut x: usize = 0;
    while x < WIDTH
        invariant
            0 <= x <= WIDTH,
            r@ == empty_row().take(x as int),
        decreases WIDTH - x,
    {
        r.push(None);
        proof {
            assert(r@ =~= empty_row().take(x + 1));
        }
        x = x + 1;
    }
    proof {
        assert(r@ =~= empty_row());
    }
    r
}

/// A fresh piece of the given kind at the spawn position.
pub fn spawn_tetromino(tetromino: Tetromino) -> (p: FallingPiece)
    ensures
        p.tetromino == tetromino,
        p.orientation == Orientation::Up,
        p.x == INITIAL_X_POSITION,
        p.y == INITIAL_Y_POSITION,
        p.wf(),
{
    FallingPiece::new(tetromino, INITIAL_X_POSITION, INITIAL_Y_POSITION)
}

/// The corner at offset `(dx, dy)` from the piece's pivot is off the grid
/// or occupied.
pub open spec fn corner_blocked(
    g: Seq<Seq<Option<Tetromino>>>,
    p: FallingPiece,
    dx: int,
    dy: int,
) -> bool {
    !cell_open(g, p.x + dx, p.y + dy)
}

/// The two corners on the side the T piece's nub points to, per
/// orientation. In the `Up` orientation the nub points up (row offset -1),
/// so the front corners are the two above the pivot.
pub open spec fn front_corner_offsets(o: Orientation) -> ((int, int), (int, int)) {
    match o {
        Orientation::Up => ((-1int, -1int), (1int, -1int)),
        Orientation::Right => ((1int, -1int), (1int, 1int)),
        Orientation::Down => ((-1int, 1int), (1int, 1int)),
        Orientation::Left => ((-1int, -1int), (-1int, 1int)),
    }
}

/// The two corners opposite the nub, per orientation.
pub open spec fn back_corner_offsets(o: Orientation) -> ((int, int), (int, int)) {
    match o {
        Orientation::Up => ((-1int, 1int), (1int, 1int)),
        Orientation::Right => ((-1int, -1int), (-1int, 1int)),
        Orientation::Down => ((-1int, -1int), (1int, -1int)),
        Orientation::Left => ((1int, -1int), (1int, 1int)),
    }
}

/// How many of the two corners are blocked.
pub open spec fn blocked_pair_count(
    g: Seq<Seq<Option<Tetromino>>>,
    p: FallingPiece,
    pair: ((int, int), (int, int)),
) -> int {
    (if corner_blocked(g, p, pair.0.0, pair.0.1) {
        1int
    } else {
        0int
    }) + (if corner_blocked(g, p, pair.1.0, pair.1.1) {
        1int
    } else {
        0int
    })
}

/// Spin detection, applied only to the T piece: with at least three of the
/// four diagonal corners around the pivot blocked, the lock is a spin;
/// with both front corners blocked it is a proper spin, otherwise a mini.
pub open spec fn spin_classification(g: Seq<Seq<Option<Tetromino>>>, p: FallingPiece) -> Option<
    SpinType,
> {
    if !(p.tetromino is T) {
        None
    } else {
        let front = blocked_pair_count(g, p, front_corner_offsets(p.orientation));
        let back = blocked_pair_count(g, p, back_corner_offsets(p.orientation));
        if front + back < 3 {
            None
        } else if front == 2 {
            Some(SpinType::Proper)
        } else {
            Some(SpinType::Mini)
        }
    }
}

/// The corner at offset `(dx, dy)` from the piece's pivot is off the grid
/// or occupied.
fn corner_blocked_at(grid: &Grid, piece: &FallingPiece, dx: i8, dy: i8) -> (r: bool)
    requires
        grid_wf(rows_view(grid@)),
    ensures
        r == corner_blocked(rows_view(grid@), *piece, dx as int, dy as int),
{
    let x = piece.x as i32 + dx as i32;
    let y = piece.y as i32 + dy as i32;
    if valid_mino(x, y) {
        proof {
            assert(rows_view(grid@)[y as int] == grid@[y as int]@);
        }
        grid[y as usize][x as usize].is_some()
    } else {
        true
    }
}

/// What a piece lock reported: how many lines it cleared, the spin it was
/// awarded, and whether the board was left entirely empty.
#[derive(Clone, Copy, Debug, PartialEq, Eq)]
pub struct UpdateInfo {
    pub cleared_lines: u32,
    pub spin: Option<(Tetromino, SpinType)>,
    pub is_all_clear: bool,
}

/// The locked piece lies entirely inside the hidden buffer above the
/// visible area: the first top-out trigger.
pub open spec fn piece_buried(p: FallingPiece) -> bool {
    forall|i: int| 0 <= i < 4 ==> (#[trigger] p.abs_cells()[i]).1 < BUFFER_ROWS
}

/// The playfield: settled cells, the falling piece, the queue, the held
/// piece, and the per-piece timers. Times are in milliseconds. A match
/// snapshot for undo support is a plain clone of this value.
#[derive(Clone)]
pub struct Playfield {
    pub grid: Grid,
    pub next_queue: NextQueue,
    pub falling_piece: FallingPiece,
    pub holding_piece: Option<Tetromino>,
    pub can_swap: bool,
    pub last_move_rotation: bool,
    pub last_drop: u64,
    pub lock_delay: u64,
    pub lock_delay_resets: u32,
    pub das_press: Option<(Shift, u64)>,
    pub has_lost: bool,
}

impl Playfield {
    /// The rows of the grid as mathematical sequences.
    pub open spec fn grid_view(self) -> Seq<Seq<Option<Tetromino>>> {
        rows_view(self.grid@)
    }

    /// The grid has its fixed dimensions, the queue and the falling piece
    /// are well-formed, and while the match is live the falling piece sits
    /// at a legal position. Full rows are allowed here: a board handed in
    /// from outside may hold them, and a lock clears every one it finds.
    pub open spec fn coherent(self) -> bool {
        &&& grid_wf(self.grid_view())
        &&& self.next_queue.wf()
        &&& self.falling_piece.wf()
        &&& !self.has_lost ==> piece_fits(self.grid_view(), self.falling_piece)
    }

    /// `coherent`, and no full row at rest. Every lock clears all full
    /// rows, so between ticks none remain; this is what bounds a single
    /// lock's clear count by the four cells a piece has.
    pub open spec fn wf(self) -> bool {
        &&& self.coherent()
        &&& forall|y: int| 0 <= y < HEIGHT ==> !row_full(#[trigger] self.grid_view()[y])
    }

    /// An empty playfield with a fresh queue and the first piece spawned.
    pub fn new() -> (pf: Playfield)
        ensures
            pf.wf(),
            grid_clear(pf.grid_view()),
            pf.holding_piece is None,
            pf.can_swap,
            !pf.last_move_rotation,
            pf.last_drop == 0,
            pf.lock_delay == 0,
            pf.lock_delay_resets == 0,
            pf.das_press is None,
            !pf.has_lost,
            pf.falling_piece.x == INITIAL_X_POSITION,
            pf.falling_piece.y == INITIAL_Y_POSITION,
            pf.falling_piece.orientation == Orientation::Up,
            pf.next_queue.wf(),
            pf.falling_piece.tetromino == pf.next_queue.drawn()[0],
            pf.next_queue.drawn().len() == 1,
    {
        let mut next_queue = NextQueue::new();
        let first = next_queue.next_tetromino();
        let falling_piece = spawn_tetromino(first);
        let mut grid: Grid = Vec::new();
        let mut y: usize = 0;
        while y < HEIGHT
            invariant
                0 <= y <= HEIGHT,
                grid@.len() == y,
                forall|j: int| 0 <= j < y ==> (#[trigger] grid@[j])@ == empty_row(),
            decreases HEIGHT - y,
        {
            grid.push(make_empty_row());
            y = y + 1;
        }
        let pf = Playfield {
            grid,
            next_queue,
            falling_piece,
            holding_piece: None,
            can_swap: true,
            last_move_rotation: false,
            last_drop: 0,
            lock_delay: 0,
            lock_delay_resets: 0,
            das_press: None,
            has_lost: false,
        };
        proof {
            assert forall|j: int| 0 <= j < HEIGHT implies (#[trigger] pf.grid_view()[j])
                == empty_row() by {
                assert(pf.grid_view()[j] == pf.grid@[j]@);
            }
            assert(!row_full(empty_row())) by {
                assert(empty_row()[0] is None);
            }
            crate::falling_piece::lemma_oriented_cells_wf(
                pf.falling_piece.tetromino,
                pf.falling_piece.orientation,
            );
            assert forall|i: int| 0 <= i < 4 implies cell_open(
                pf.grid_view(),
                (#[trigger] pf.falling_piece.abs_cells()[i]).0,
                pf.falling_piece.abs_cells()[i].1,
            ) by {
                let c = pf.falling_piece.abs_cells()[i];
                assert(-2 <= crate::tetromino::map_cells(pf.falling_piece.map)[i].0 <= 2);
                assert(-2 <= crate::tetromino::map_cells(pf.falling_piece.map)[i].1 <= 2);
                assert(in_bounds(c.0, c.1));
            }
        }
        pf
    }

    /// The match has been lost: a piece locked entirely above the visible
    /// area, or a fresh piece could not spawn.
    pub fn has_lost(&self) -> (r: bool)
        ensures
            r == self.has_lost,
    {
        self.has_lost
    }

    /// Same reading as `has_lost`.
    pub fn lost(&self) -> (r: bool)
        ensures
            r == self.has_lost,
    {
        self.has_lost
    }

    /// Spin detection on a grid that already holds the piece's cells; see
    /// `spin_classification`.
    pub fn is_spin(piece: &FallingPiece, grid: &Grid) -> (r: Option<SpinType>)
        requires
            grid_wf(rows_view(grid@)),
        ensures
            r == spin_classification(rows_view(grid@), *piece),
    {
        if !matches!(piece.tetromino, Tetromino::T) {
            return None;
        }
        let (fa, fb): ((i8, i8), (i8, i8)) = match piece.orientation {
            Orientation::Up => ((-1, -1), (1, -1)),
            Orientation::Right => ((1, -1), (1, 1)),
            Orientation::Down => ((-1, 1), (1, 1)),
            Orientation::Left => ((-1, -1), (-1, 1)),
        };
        let (ba, bb): ((i8, i8), (i8, i8)) = match piece.orientation {
            Orientation::Up => ((-1, 1), (1, 1)),
            Orientation::Right => ((-1, -1), (-1, 1)),
            Orientation::Down => ((-1, -1), (1, -1)),
            Orientation::Left => ((1, -1), (1, 1)),
        };
        let mut front: u32 = 0;
        if corner_blocked_at(grid, piece, fa.0, fa.1) {
            front = front + 1;
        }
        if corner_blocked_at(grid, piece, fb.0, fb.1) {
            front = front + 1;
        }
        let mut back: u32 = 0;
        if corner_blocked_at(grid, piece, ba.0, ba.1) {
            back = back + 1;
        }
        if corner_blocked_at(grid, piece, bb.0, bb.1) {
            back = back + 1;
        }
        if front + back < 3 {
            None
        } else if front == 2 {
            Some(SpinType::Proper)
        } else {
            Some(SpinType::Mini)
        }
    }
}

/// A grid with none of the piece's cells written yet is the grid itself.
proof fn lemma_place_prefix_zero(g: Seq<Seq<Option<Tetromino>>>, p: FallingPiece)
    ensures
        place_prefix(g, p, 0) == g,
{
    assert forall|y: int| 0 <= y < g.len() implies place_prefix(g, p, 0)[y] == g[y] by {
        assert(place_prefix(g, p, 0)[y] =~= g[y]);
    }
    assert(place_prefix(g, p, 0) =~= g);
}

/// Writing the piece's cells one at a time builds up `place_prefix`.
proof fn lemma_place_step(g: Seq<Seq<Option<Tetromino>>>, p: FallingPiece, n: int)
    requires
        grid_wf(g),
        0 <= n < 4,
        in_bounds(p.abs_cells()[n].0, p.abs_cells()[n].1),
    ensures
        place_prefix(g, p, n + 1) == place_prefix(g, p, n).update(
            p.abs_cells()[n].1,
            place_prefix(g, p, n)[p.abs_cells()[n].1].update(
                p.abs_cells()[n].0,
                Some(p.tetromino),
            ),
        ),
{
    let c = p.abs_cells()[n];
    let a = place_prefix(g, p, n + 1);
    let b = place_prefix(g, p, n).update(
        c.1,
        place_prefix(g, p, n)[c.1].update(c.0, Some(p.tetromino)),
    );
    assert forall|y: int| 0 <= y < g.len() implies a[y] == b[y] by {
        assert forall|x: int| 0 <= x < g[y].len() implies a[y][x] == b[y][x] by {
            if covered_prefix(p, n, x, y) {
                assert(covered_prefix(p, n + 1, x, y));
            }
            if covered_prefix(p, n + 1, x, y) && !(x == c.0 && y == c.1) {
                let i = choose|i: int| 0 <= i < n + 1 && #[trigger] p.abs_cells()[i] == (x, y);
                assert(covered_prefix(p, n, x, y));
            }
        }
        assert(a[y] =~= b[y]);
    }
    assert(a =~= b);
}

/// Write one cell of the grid.
fn set_grid_cell(grid: &mut Grid, x: usize, y: usize, v: Option<Tetromino>)
    requires
        grid_wf(rows_view(old(grid)@)),
        x < WIDTH,
        y < HEIGHT,
    ensures
        rows_view(final(grid)@) == rows_view(old(grid)@).update(
            y as int,
            rows_view(old(grid)@)[y as int].update(x as int, v),
        ),
        grid_wf(rows_view(final(grid)@)),
{
    let ghost g0 = rows_view(grid@);
    proof {
        assert(g0[y as int] == grid@[y as int]@);
    }
    grid[y][x] = v;
    proof {
        assert(rows_view(grid@) =~= g0.update(y as int, g0[y as int].update(x as int, v)));
        assert(grid_wf(rows_view(grid@)));
    }
}

/// No cell of the row is occupied.
pub open spec fn row_empty(r: Seq<Option<Tetromino>>) -> bool {
    forall|x: int| 0 <= x < r.len() ==> (#[trigger] r[x]) is None
}

/// No cell of the row is occupied.
fn row_is_empty(row: &Vec<Option<Tetromino>>) -> (r: bool)
    ensures
        r == row_empty(row@),
{
    let mut x: usize = 0;
    let mut empty = true;
    while x < row.len()
        invariant
            0 <= x <= row@.len(),
            empty == forall|j: int| 0 <= j < x ==> (#[trigger] row@[j]) is None,
        decreases row@.len() - x,
    {
        empty = empty && row[x].is_none();
        x = x + 1;
    }
    empty
}

/// No cell anywhere in the grid is occupied.
fn grid_is_clear(grid: &Grid) -> (r: bool)
    ensures
        r == grid_clear(rows_view(grid@)),
{
    let ghost g = rows_view(grid@);
    let mut y: usize = 0;
    let mut clear = true;
    while y < grid.len()
        invariant
            0 <= y <= g.len(),
            g == rows_view(grid@),
            clear == forall|j: int| 0 <= j < y ==> row_empty(#[trigger] g[j]),
        decreases g.len() - y,
    {
        proof {
            assert(g[y as int] == grid@[y as int]@);
        }
        let re = row_is_empty(&grid[y]);
        clear = clear && re;
        y = y + 1;
    }
    proof {
        if forall|j: int| 0 <= j < g.len() ==> row_empty(#[trigger] g[j]) {
            assert(grid_clear(g));
        }
        if grid_clear(g) {
            assert forall|j: int| 0 <= j < g.len() implies row_empty(#[trigger] g[j]) by {
                assert forall|x: int| 0 <= x < g[j].len() implies (#[trigger] g[j][x]) is None by {
                }
            }
        }
    }
    clear
}

/// The spin a lock reports: the classification paired with the piece kind.
pub open spec fn spin_result(g: Seq<Seq<Option<Tetromino>>>, p: FallingPiece) -> Option<
    (Tetromino, SpinType),
> {
    match spin_classification(g, p) {
        Some(st) => Some((p.tetromino, st)),
        None => None,
    }
}

/// Everything a lock promises, relating the state just before the lock to
/// the state after it and to the report it returns: the piece's cells are
/// written, full rows are cleared, the clear is counted and classified,
/// the next piece is spawned from the queue, the per-piece state starts
/// over, and the match is lost exactly when the piece lay entirely in the
/// hidden buffer or the next piece cannot spawn.
#[verifier::opaque]
pub open spec fn lock_post(pre: Playfield, post: Playfield, info: UpdateInfo) -> bool {
    let g0 = pre.grid_view();
    let p = pre.falling_piece;
    let gp = place_piece(g0, p);
    &&& post.grid_view() == cleared_grid(gp)
    &&& info.cleared_lines == full_row_count(gp)
    &&& info.spin == (if pre.last_move_rotation {
        spin_result(gp, p)
    } else {
        None::<(Tetromino, SpinType)>
    })
    &&& info.is_all_clear == grid_clear(cleared_grid(gp))
    &&& post.falling_piece.tetromino == pre.next_queue.upcoming()[0]
    &&& post.falling_piece.x == INITIAL_X_POSITION
    &&& post.falling_piece.y == INITIAL_Y_POSITION
    &&& post.falling_piece.orientation == Orientation::Up
    &&& post.next_queue.drawn() == pre.next_queue.drawn().push(pre.next_queue.upcoming()[0])
    &&& post.next_queue.wf()
    &&& post.holding_piece == pre.holding_piece
    &&& post.das_press == pre.das_press
    &&& post.can_swap
    &&& !post.last_move_rotation
    &&& post.last_drop == 0
    &&& post.lock_delay == 0
    &&& post.lock_delay_resets == 0
    &&& post.has_lost == (piece_buried(p) || !piece_fits(cleared_grid(gp), post.falling_piece))
}

/// Every position on the way down to depth `d` fits the grid.
#[verifier::opaque]
pub open spec fn descent_clear(g: Seq<Seq<Option<Tetromino>>>, p: FallingPiece, d: int) -> bool {
    forall|jj: int| 1 <= jj <= d ==> piece_fits(g, #[trigger] fallen_by(p, jj))
}

/// What a hard drop promises: for the piece's actual drop distance, every
/// intermediate position fits, the next would not, and the lock happened
/// from the dropped position (a drop that moved at all is no rotation).
#[verifier::opaque]
pub open spec fn hard_drop_post(pre: Playfield, post: Playfield, info: UpdateInfo) -> bool {
    let p = pre.falling_piece;
    let g = pre.grid_view();
    exists|d: int|
        #![trigger fallen_by(p, d)]
        {
            &&& 0 <= d
            &&& descent_clear(g, p, d)
            &&& !piece_fits(g, fallen_by(p, d + 1))
            &&& lock_post(
                Playfield {
                    falling_piece: fallen_by(p, d),
                    last_move_rotation: pre.last_move_rotation && d == 0,
                    ..pre
                },
                post,
                info,
            )
        }
}

/// What the gravity stage promises when no hard drop was asked: a
/// grounded piece with its lock delay or resets spent locks now; otherwise
/// the piece falls one row when soft drop or gravity is due, and the drop
/// timer resets whenever a fall was due.
#[verifier::opaque]
pub open spec fn drop_step_post(
    pre: Playfield,
    post: Playfield,
    r: Option<UpdateInfo>,
    soft_held: bool,
    h: HandlingSettings,
) -> bool {
    let g = pre.grid_view();
    let p = pre.falling_piece;
    let soft = soft_held && pre.last_drop >= h.soft_drop;
    let grav = pre.last_drop >= h.gravity;
    let step = soft || grav;
    let can_fall = piece_fits(g, fallen_by(p, 1));
    let lock_now = !can_fall && (pre.lock_delay >= h.lock_delay || pre.lock_delay_resets
        >= h.lock_delay_resets);
    &&& (lock_now ==> {
        &&& r matches Some(info)
        &&& lock_post(pre, post, info)
    })
    &&& (!lock_now && can_fall && step ==> r is None && post == (Playfield {
        falling_piece: fallen_by(p, 1),
        last_drop: 0,
        lock_delay: 0,
        lock_delay_resets: 0,
        last_move_rotation: false,
        ..pre
    }))
    &&& (!lock_now && !(can_fall && step) ==> r is None && post == (Playfield {
        last_drop: if step {
            0
        } else {
            pre.last_drop
        },
        ..pre
    }))
}

/// A lock reads nothing of the timers, so its promise carries over to any
/// pre-state that agrees on what it does read.
proof fn lemma_lock_post_pre_fields(pre1: Playfield, pre2: Playfield, post: Playfield, info: UpdateInfo)
    requires
        lock_post(pre1, post, info),
        pre2.grid_view() == pre1.grid_view(),
        pre2.falling_piece == pre1.falling_piece,
        pre2.last_move_rotation == pre1.last_move_rotation,
        pre2.next_queue == pre1.next_queue,
        pre2.holding_piece == pre1.holding_piece,
        pre2.das_press == pre1.das_press,
    ensures
        lock_post(pre2, post, info),
{
    reveal(lock_post);
}

/// After any lock the hold is available again and the timers are reset.
proof fn lemma_lock_post_consequences(pre: Playfield, post: Playfield, info: UpdateInfo)
    requires
        lock_post(pre, post, info),
    ensures
        post.can_swap,
        post.last_drop == 0,
        post.lock_delay == 0,
        post.lock_delay_resets == 0,
{
    reveal(lock_post);
}

impl Playfield {
    /// Lock the falling piece: write its four cells into the grid, classify
    /// the spin, clear every full row (rows above a cleared row settle
    /// down), report the clear, and spawn the next piece from the queue.
    /// The match is lost if the locked piece lay entirely inside the hidden
    /// buffer or the next piece cannot spawn. The board may hold full rows
    /// already; they are cleared and counted too, so only a board with no
    /// full row at rest is guaranteed a clear of at most four.
    #[verifier::spinoff_prover]
    pub fn solidify_piece(&mut self) -> (info: UpdateInfo)
        requires
            old(self).coherent(),
            !old(self).has_lost,
        ensures
            final(self).wf(),
            lock_post(*old(self), *final(self), info),
            (forall|y: int|
                0 <= y < HEIGHT ==> !row_full(#[trigger] old(self).grid_view()[y]))
                ==> info.cleared_lines <= 4,
    {
        let ghost g0 = self.grid_view();
        let ghost p = self.falling_piece;
        let t = self.falling_piece.tetromino;
        proof {
            lemma_place_prefix_zero(g0, p);
        }
        // Write the four cells and note whether any lies in the visible area.
        let mut i: usize = 0;
        let mut topped_out = true;
        while i < 4
            invariant
                0 <= i <= 4,
                p.wf(),
                grid_wf(g0),
                piece_fits(g0, p),
                self.falling_piece == p,
                self.next_queue == old(self).next_queue,
                self.holding_piece == old(self).holding_piece,
                self.das_press == old(self).das_press,
                self.can_swap == old(self).can_swap,
                self.last_move_rotation == old(self).last_move_rotation,
                self.last_drop == old(self).last_drop,
                self.lock_delay == old(self).lock_delay,
                self.lock_delay_resets == old(self).lock_delay_resets,
                self.has_lost == old(self).has_lost,
                t == p.tetromino,
                self.grid_view() == place_prefix(g0, p, i as int),
                grid_wf(self.grid_view()),
                topped_out == (forall|j: int|
                    0 <= j < i ==> (#[trigger] p.abs_cells()[j]).1 < BUFFER_ROWS),
            decreases 4 - i,
        {
            let (cx, cy) = self.falling_piece.map[i];
            let xi = cx as i32 + self.falling_piece.x as i32;
            let yi = cy as i32 + self.falling_piece.y as i32;
            proof {
                assert(p.abs_cells()[i as int] == (xi as int, yi as int));
                assert(cell_open(g0, xi as int, yi as int));
                lemma_place_step(g0, p, i as int);
            }
            let x = xi as usize;
            let y = yi as usize;
            set_grid_cell(&mut self.grid, x, y, Some(t));
            if y >= BUFFER_ROWS {
                topped_out = false;
            }
            proof {
                assert(x as int == p.abs_cells()[i as int].0);
                assert(y as int == p.abs_cells()[i as int].1);
                assert(self.grid_view() == place_prefix(g0, p, i as int + 1));
            }
            i = i + 1;
        }
        let ghost gp = place_piece(g0, p);
        proof {
            assert(self.grid_view() == gp);
            assert(topped_out == piece_buried(p));
        }
        // Classify the spin on the grid that now holds the piece.
        let spin_type = if self.last_move_rotation {
            Self::is_spin(&self.falling_piece, &self.grid)
        } else {
            None
        };
        let spin = match spin_type {
            Some(st) => Some((t, st)),
            None => None,
        };
        // Collect the rows that survive, in order.
        let mut kept: Vec<Vec<Option<Tetromino>>> = Vec::new();
        let mut y: usize = 0;
        while y < HEIGHT
            invariant
                0 <= y <= HEIGHT,
                grid_wf(gp),
                self.grid_view() == gp,
                rows_view(kept@) == kept_rows(gp.take(y as int)),
                kept@.len() <= y,
            decreases HEIGHT - y,
        {
            proof {
                assert(gp[y as int] == self.grid@[y as int]@);
                assert(gp.take(y + 1).drop_last() =~= gp.take(y as int));
                assert(gp.take(y + 1).last() == gp[y as int]);
            }
            if !row_is_full(&self.grid[y]) {
                let row = copy_row(&self.grid[y]);
                kept.push(row);
                proof {
                    assert(rows_view(kept@) =~= kept_rows(gp.take(y + 1)));
                }
            }
            y = y + 1;
        }
        proof {
            assert(gp.take(HEIGHT as int) =~= gp);
            assert(rows_view(kept@).len() == kept@.len());
            lemma_kept_rows_len(gp);
            if forall|yy: int| 0 <= yy < HEIGHT ==> !row_full(#[trigger] g0[yy]) {
                lemma_lock_clears_at_most_four(g0, p);
            }
        }
        let cleared_count: usize = HEIGHT - kept.len();
        // Rebuild the grid: empty rows on top, surviving rows settled below.
        let mut g2: Grid = Vec::new();
        let mut k: usize = 0;
        while k < cleared_count
            invariant
                0 <= k <= cleared_count,
                g2@.len() == k,
                forall|j: int| 0 <= j < k ==> (#[trigger] g2@[j])@ == empty_row(),
            decreases cleared_count - k,
        {
            g2.push(make_empty_row());
            k = k + 1;
        }
        let mut j: usize = 0;
        while j < kept.len()
            invariant
                0 <= j <= kept@.len(),
                cleared_count + kept@.len() == HEIGHT,
                g2@.len() == cleared_count + j,
                forall|j2: int| 0 <= j2 < cleared_count ==> (#[trigger] g2@[j2])@ == empty_row(),
                forall|j2: int|
                    0 <= j2 < j ==> (#[trigger] g2@[cleared_count + j2])@ == kept@[j2]@,
            decreases kept@.len() - j,
        {
            let row = copy_row(&kept[j]);
            g2.push(row);
            j = j + 1;
        }
        self.grid = g2;
        proof {
            lemma_kept_rows_len(gp);
            assert(rows_view(kept@) == kept_rows(gp));
            assert(cleared_grid(gp).len() == HEIGHT);
            assert(self.grid_view().len() == HEIGHT);
            assert forall|r: int| 0 <= r < HEIGHT implies self.grid_view()[r] == cleared_grid(
                gp,
            )[r] by {
                assert(self.grid_view()[r] == self.grid@[r]@);
                if r < cleared_count {
                    assert(cleared_grid(gp)[r] == empty_row());
                    assert(self.grid@[r]@ == empty_row());
                } else {
                    let j2 = r - cleared_count;
                    assert(cleared_grid(gp)[r] == kept_rows(gp)[j2]);
                    assert(rows_view(kept@)[j2] == kept@[j2]@);
                    assert(self.grid@[cleared_count + j2]@ == kept@[j2]@);
                    assert(self.grid@[r]@ == kept@[j2]@);
                }
            }
            assert(self.grid_view() =~= cleared_grid(gp));
            lemma_cleared_grid_wf(gp);
        }
        let is_all_clear = grid_is_clear(&self.grid);
        let cleared_lines: u32 = cleared_count as u32;
        // Spawn the next piece and reset the per-piece state.
        let next = self.next_queue.next_tetromino();
        self.falling_piece = spawn_tetromino(next);
        self.last_drop = 0;
        self.lock_delay = 0;
        self.lock_delay_resets = 0;
        self.can_swap = true;
        self.last_move_rotation = false;
        let can_spawn = valid_position(&self.grid, &self.falling_piece);
        self.has_lost = topped_out || !can_spawn;
        proof {
            reveal(lock_post);
        }
        UpdateInfo { cleared_lines, spin, is_all_clear }
    }
}

/// The piece moved `d` columns in the given direction; left is toward
/// lower columns.
pub open spec fn shifted_by(p: FallingPiece, s: Shift, d: int) -> FallingPiece {
    FallingPiece {
        x: (if s is Left {
            p.x - d
        } else {
            p.x + d
        }) as i8,
        ..p
    }
}

/// The piece moved `d` rows down.
pub open spec fn fallen_by(p: FallingPiece, d: int) -> FallingPiece {
    FallingPiece { y: (p.y + d) as i8, ..p }
}

/// A well-formed piece that fits the grid has its pivot within two columns
/// and rows of the playing area.
pub proof fn lemma_piece_pos_bounds(g: Seq<Seq<Option<Tetromino>>>, p: FallingPiece)
    requires
        p.wf(),
        piece_fits(g, p),
    ensures
        -2 <= p.x <= WIDTH + 1,
        -2 <= p.y <= HEIGHT + 1,
{
    crate::falling_piece::lemma_oriented_cells_wf(p.tetromino, p.orientation);
    let c = p.abs_cells()[0];
    assert(in_bounds(c.0, c.1));
    assert(-2 <= crate::tetromino::map_cells(p.map)[0].0 <= 2);
    assert(-2 <= crate::tetromino::map_cells(p.map)[0].1 <= 2);
}

/// What a single tapped shift does: if the moved piece fits, it moves, the
/// lock delay starts over (counting one more reset) and the piece's last
/// action is no longer a rotation; otherwise nothing changes.
pub open spec fn tap_shift_spec(pf: Playfield, s: Shift) -> Playfield {
    let q = shifted_by(pf.falling_piece, s, 1);
    if piece_fits(pf.grid_view(), q) {
        Playfield {
            falling_piece: q,
            lock_delay: 0,
            lock_delay_resets: crate::spec_sat_inc_u32(pf.lock_delay_resets),
            last_move_rotation: false,
            ..pf
        }
    } else {
        pf
    }
}

/// The tap stage of the shift phase: a left tap wins over a right tap.
pub open spec fn tap_spec(pf: Playfield, input: InputState) -> Playfield {
    if input.left {
        tap_shift_spec(pf, Shift::Left)
    } else if input.right {
        tap_shift_spec(pf, Shift::Right)
    } else {
        pf
    }
}

/// How long the direction has been held after this tick: the running count
/// continues only if the same direction was already held.
pub open spec fn das_duration(pf: Playfield, s: Shift, dt: u64) -> u64 {
    crate::spec_sat_add_u64(
        match pf.das_press {
            Some((ps, d)) => if ps == s {
                d
            } else {
                0
            },
            None => 0,
        },
        dt,
    )
}

/// What holding a direction does, starting from the state `mid` after the
/// tap stage: the hold duration is recorded; once it reaches the auto-shift
/// interval the piece slides to the wall (or the first obstruction), and a
/// slide that moved at all restarts the lock delay, counting one reset for
/// the whole slide.
pub open spec fn das_spec_holds(
    mid: Playfield,
    fin: Playfield,
    s: Shift,
    h: HandlingSettings,
    dt: u64,
) -> bool {
    let dur = das_duration(mid, s, dt);
    let armed = Playfield { das_press: Some((s, dur)), ..mid };
    if dur < h.das {
        fin == armed
    } else {
        exists|d: int|
            #![auto]
            {
                &&& 0 <= d
                &&& (forall|j: int|
                    1 <= j <= d ==> piece_fits(
                        mid.grid_view(),
                        #[trigger] shifted_by(mid.falling_piece, s, j),
                    ))
                &&& !piece_fits(mid.grid_view(), shifted_by(mid.falling_piece, s, d + 1))
                &&& if d == 0 {
                    fin == armed
                } else {
                    fin == (Playfield {
                        falling_piece: shifted_by(mid.falling_piece, s, d),
                        lock_delay: 0,
                        lock_delay_resets: crate::spec_sat_inc_u32(mid.lock_delay_resets),
                        ..armed
                    })
                }
            }
    }
}

/// Which rotation a tick's input asks for: clockwise wins over
/// counter-clockwise, which wins over the half-turn.
pub open spec fn rotation_input(input: InputState) -> Option<RotationType> {
    if input.clockwise {
        Some(RotationType::Clockwise)
    } else if input.counter_clockwise {
        Some(RotationType::CounterClockwise)
    } else if input.one_eighty {
        Some(RotationType::OneEighty)
    } else {
        None
    }
}

/// The translations the kick search tries, in order: no offset first, then
/// for each cell the difference between its offset before and after the
/// rotation, in cell order.
#[verifier::opaque]
pub open spec fn kick_offsets(p: FallingPiece, rt: RotationType) -> Seq<(int, int)> {
    let before = crate::tetromino::map_cells(p.map);
    let after = crate::falling_piece::rotate_cells(crate::tetromino::map_cells(p.map), rt);
    seq![(0int, 0int)] + Seq::new(
        4,
        |i: int| (before[i].0 - after[i].0, before[i].1 - after[i].1),
    )
}

/// The absolute cells of the rotated piece translated by `off`.
#[verifier::opaque]
pub open spec fn rotated_abs_cells(p: FallingPiece, rt: RotationType, off: (int, int)) -> Seq<
    (int, int),
> {
    let after = crate::falling_piece::rotate_cells(crate::tetromino::map_cells(p.map), rt);
    Seq::new(4, |i: int| (after[i].0 + p.x + off.0, after[i].1 + p.y + off.1))
}

/// All listed cells lie on the grid and collide with nothing.
pub open spec fn cells_open(g: Seq<Seq<Option<Tetromino>>>, cs: Seq<(int, int)>) -> bool {
    forall|i: int| 0 <= i < cs.len() ==> cell_open(g, (#[trigger] cs[i]).0, cs[i].1)
}

/// Candidate `j` is the first whose translated rotation fits the grid.
pub open spec fn kick_accepted(
    g: Seq<Seq<Option<Tetromino>>>,
    p: FallingPiece,
    rt: RotationType,
    j: int,
) -> bool {
    &&& 0 <= j < 5
    &&& cells_open(g, rotated_abs_cells(p, rt, kick_offsets(p, rt)[j]))
    &&& forall|i: int|
        0 <= i < j ==> !cells_open(g, rotated_abs_cells(p, rt, #[trigger] kick_offsets(p, rt)[i]))
}

/// What an accepted rotation promises: if candidate `j` is the first
/// fitting kick, the piece stands rotated at that offset, the lock delay
/// has started over counting one more reset, and the piece's last action
/// is a rotation.
#[verifier::opaque]
pub open spec fn rotation_applied(pre: Playfield, post: Playfield, rt: RotationType) -> bool {
    let g = pre.grid_view();
    let p = pre.falling_piece;
    forall|j: int|
        #[trigger] kick_accepted(g, p, rt, j) ==> {
            &&& post.falling_piece.tetromino == p.tetromino
            &&& post.falling_piece.orientation == crate::falling_piece::next_orientation(
                p.orientation,
                rt,
            )
            &&& crate::tetromino::map_cells(post.falling_piece.map)
                == crate::falling_piece::rotate_cells(crate::tetromino::map_cells(p.map), rt)
            &&& post.falling_piece.x == p.x + kick_offsets(p, rt)[j].0
            &&& post.falling_piece.y == p.y + kick_offsets(p, rt)[j].1
            &&& post == (Playfield {
                falling_piece: post.falling_piece,
                lock_delay: 0,
                lock_delay_resets: crate::spec_sat_inc_u32(pre.lock_delay_resets),
                last_move_rotation: true,
                ..pre
            })
        }
}

/// When no kick offset fits, the rotation is rejected and nothing changes.
#[verifier::opaque]
pub open spec fn rotation_rejected(pre: Playfield, post: Playfield, rt: RotationType) -> bool {
    (forall|j: int|
        0 <= j < 5 ==> !cells_open(
            pre.grid_view(),
            rotated_abs_cells(pre.falling_piece, rt, #[trigger] kick_offsets(
                pre.falling_piece,
                rt,
            )[j]),
        )) ==> post == pre
}

/// What the rotation phase promises: the settled cells, the loss flag,
/// the queue, the hold and the auto-shift state never change; without a
/// rotation input nothing changes at all; with one, the kick search either
/// rejects the rotation or applies its first fitting candidate.
#[verifier::opaque]
pub open spec fn rotation_post(pre: Playfield, post: Playfield, input: InputState) -> bool {
    &&& post.grid_view() == pre.grid_view()
    &&& post.has_lost == pre.has_lost
    &&& post.next_queue == pre.next_queue
    &&& post.holding_piece == pre.holding_piece
    &&& post.can_swap == pre.can_swap
    &&& post.das_press == pre.das_press
    &&& (rotation_input(input) is None ==> post == pre)
    &&& (rotation_input(input) matches Some(rt) ==> rotation_rejected(pre, post, rt)
        && rotation_applied(pre, post, rt))
}

/// A piece's fit is the openness of its absolute cells.
proof fn lemma_fits_cells(
    g: Seq<Seq<Option<Tetromino>>>,
    q: FallingPiece,
    cs: Seq<(int, int)>,
)
    requires
        cs == q.abs_cells(),
    ensures
        piece_fits(g, q) == cells_open(g, cs),
{
    if piece_fits(g, q) {
        assert forall|i: int| 0 <= i < cs.len() implies cell_open(
            g,
            (#[trigger] cs[i]).0,
            cs[i].1,
        ) by {
            assert(cell_open(g, q.abs_cells()[i].0, q.abs_cells()[i].1));
        }
    }
    if cells_open(g, cs) {
        assert forall|i: int| 0 <= i < 4 implies cell_open(
            g,
            (#[trigger] q.abs_cells()[i]).0,
            q.abs_cells()[i].1,
        ) by {
            assert(cell_open(g, cs[i].0, cs[i].1));
        }
    }
}

/// The absolute cells of a rotated piece after a candidate translation.
proof fn lemma_translated_cells(
    p: FallingPiece,
    rotated: FallingPiece,
    rt: RotationType,
    off: (int, int),
    cand: FallingPiece,
)
    requires
        crate::tetromino::map_cells(rotated.map) == crate::falling_piece::rotate_cells(
            crate::tetromino::map_cells(p.map),
            rt,
        ),
        rotated.x == p.x,
        rotated.y == p.y,
        cand.map == rotated.map,
        cand.x == p.x + off.0,
        cand.y == p.y + off.1,
    ensures
        cand.abs_cells() == rotated_abs_cells(p, rt, off),
{
    reveal(rotated_abs_cells);
    assert(cand.abs_cells() =~= rotated_abs_cells(p, rt, off));
}

/// The kick search: try each candidate translation in order and report the
/// index of the first at which the rotated piece fits, if any.
#[verifier::spinoff_prover]
fn find_kick(
    grid: &Grid,
    rotated: &FallingPiece,
    offs: &[(i8, i8); 5],
    Ghost(p): Ghost<FallingPiece>,
    Ghost(rt): Ghost<RotationType>,
) -> (chosen: Option<usize>)
    requires
        grid_wf(rows_view(grid@)),
        rotated.x == p.x,
        rotated.y == p.y,
        crate::tetromino::map_cells(rotated.map) == crate::falling_piece::rotate_cells(
            crate::tetromino::map_cells(p.map),
            rt,
        ),
        -2 <= p.x <= 11,
        -2 <= p.y <= 41,
        forall|k: int|
            0 <= k < 5 ==> kick_offsets(p, rt)[k] == ((#[trigger] offs@[k]).0 as int,
            offs@[k].1 as int) && -4 <= offs@[k].0 <= 4 && -4 <= offs@[k].1 <= 4,
    ensures
        chosen is None ==> forall|j: int|
            0 <= j < 5 ==> !cells_open(
                rows_view(grid@),
                rotated_abs_cells(p, rt, #[trigger] kick_offsets(p, rt)[j]),
            ),
        chosen matches Some(c) ==> c < 5 && kick_accepted(rows_view(grid@), p, rt, c as int),
{
    let ghost g = rows_view(grid@);
    let mut chosen: Option<usize> = None;
    let mut j: usize = 0;
    while j < 5 && chosen.is_none()
        invariant
            0 <= j <= 5,
            g == rows_view(grid@),
            grid_wf(g),
            rotated.x == p.x,
            rotated.y == p.y,
            crate::tetromino::map_cells(rotated.map) == crate::falling_piece::rotate_cells(
                crate::tetromino::map_cells(p.map),
                rt,
            ),
            -2 <= p.x <= 11,
            -2 <= p.y <= 41,
            forall|k: int|
                0 <= k < 5 ==> kick_offsets(p, rt)[k] == ((#[trigger] offs@[k]).0 as int,
                offs@[k].1 as int) && -4 <= offs@[k].0 <= 4 && -4 <= offs@[k].1 <= 4,
            chosen is None ==> forall|i: int|
                0 <= i < j ==> !cells_open(
                    g,
                    rotated_abs_cells(p, rt, #[trigger] kick_offsets(p, rt)[i]),
                ),
            chosen matches Some(c) ==> c < 5 && kick_accepted(g, p, rt, c as int),
        decreases 5 - j,
    {
        let mut cand = *rotated;
        cand.translate(offs[j]);
        proof {
            lemma_translated_cells(p, *rotated, rt, kick_offsets(p, rt)[j as int], cand);
            lemma_fits_cells(g, cand, rotated_abs_cells(p, rt, kick_offsets(p, rt)[j as int]));
        }
        if valid_position(grid, &cand) {
            chosen = Some(j);
        }
        j = j + 1;
    }
    chosen
}

/// The candidate translations of the kick search as machine integers.
fn kick_offset_table(
    p: &FallingPiece,
    rotated: &FallingPiece,
    Ghost(rt): Ghost<RotationType>,
) -> (offs: [(i8, i8); 5])
    requires
        p.wf(),
        rotated.wf(),
        crate::tetromino::map_cells(rotated.map) == crate::falling_piece::rotate_cells(
            crate::tetromino::map_cells(p.map),
            rt,
        ),
    ensures
        forall|k: int|
            0 <= k < 5 ==> kick_offsets(*p, rt)[k] == ((#[trigger] offs@[k]).0 as int,
            offs@[k].1 as int) && -4 <= offs@[k].0 <= 4 && -4 <= offs@[k].1 <= 4,
{
    let pm = p.map;
    let rm = rotated.map;
    proof {
        crate::falling_piece::lemma_oriented_cells_wf(p.tetromino, p.orientation);
        crate::falling_piece::lemma_oriented_cells_wf(rotated.tetromino, rotated.orientation);
        assert forall|k: int| 0 <= k < 4 implies -2 <= (#[trigger] pm@[k]).0 <= 2 && -2
            <= pm@[k].1 <= 2 && -2 <= rm@[k].0 <= 2 && -2 <= rm@[k].1 <= 2 by {
            assert(crate::tetromino::map_cells(pm)[k] == (pm@[k].0 as int, pm@[k].1 as int));
            assert(crate::tetromino::map_cells(rm)[k] == (rm@[k].0 as int, rm@[k].1 as int));
            assert(crate::tetromino::cells_bounded(crate::tetromino::map_cells(pm)));
            assert(crate::tetromino::cells_bounded(crate::tetromino::map_cells(rm)));
        }
    }
    let offs: [(i8, i8); 5] = [
        (0, 0),
        (pm[0].0 - rm[0].0, pm[0].1 - rm[0].1),
        (pm[1].0 - rm[1].0, pm[1].1 - rm[1].1),
        (pm[2].0 - rm[2].0, pm[2].1 - rm[2].1),
        (pm[3].0 - rm[3].0, pm[3].1 - rm[3].1),
    ];
    proof {
        reveal(kick_offsets);
        assert forall|k: int| 0 <= k < 5 implies kick_offsets(*p, rt)[k] == ((
        #[trigger] offs@[k]).0 as int, offs@[k].1 as int) && -4 <= offs@[k].0 <= 4 && -4
            <= offs@[k].1 <= 4 by {
            if k > 0 {
                assert(kick_offsets(*p, rt)[k] == (
                    crate::tetromino::map_cells(pm)[k - 1].0 - crate::tetromino::map_cells(
                        rm,
                    )[k - 1].0,
                    crate::tetromino::map_cells(pm)[k - 1].1 - crate::tetromino::map_cells(
                        rm,
                    )[k - 1].1,
                ));
            }
        }
    }
    offs
}

/// What the hold phase promises. Without a press, or with the hold
/// already spent, nothing changes. Otherwise the falling piece's kind goes
/// to the hold slot, the replacement (the held kind, or the queue's front)
/// spawns fresh, the hold is spent, the per-piece timers restart, and the
/// match is lost exactly when the spawned piece does not fit.
#[verifier::opaque]
pub open spec fn swap_post(pre: Playfield, post: Playfield, swap_pressed: bool) -> bool {
    &&& (!(swap_pressed && pre.can_swap) ==> post == pre)
    &&& ((swap_pressed && pre.can_swap) ==> {
        &&& post.holding_piece == Some(pre.falling_piece.tetromino)
        &&& post.falling_piece.tetromino == (match pre.holding_piece {
            Some(h) => h,
            None => pre.next_queue.upcoming()[0],
        })
        &&& post.falling_piece.x == INITIAL_X_POSITION
        &&& post.falling_piece.y == INITIAL_Y_POSITION
        &&& post.falling_piece.orientation == Orientation::Up
        &&& post.grid_view() == pre.grid_view()
        &&& !post.can_swap
        &&& post.last_drop == 0
        &&& post.lock_delay == 0
        &&& post.lock_delay_resets == 0
        &&& !post.last_move_rotation
        &&& post.das_press == pre.das_press
        &&& (pre.holding_piece is Some ==> post.next_queue == pre.next_queue)
        &&& (pre.holding_piece is None ==> post.next_queue.drawn() == pre.next_queue.drawn().push(
            post.falling_piece.tetromino,
        ))
        &&& post.has_lost == !piece_fits(post.grid_view(), post.falling_piece)
    })
}

/// What the shift phase promises: the tap stage first, then auto-shift for
/// a held direction (left wins over right); with no held direction the
/// hold count is forgotten.
#[verifier::opaque]
pub open spec fn shift_post(
    pre: Playfield,
    post: Playfield,
    input: InputState,
    h: HandlingSettings,
    dt: u64,
) -> bool {
    let mid = tap_spec(pre, input);
    &&& (input.left_das ==> das_spec_holds(mid, post, Shift::Left, h, dt))
    &&& (!input.left_das && input.right_das ==> das_spec_holds(mid, post, Shift::Right, h, dt))
    &&& (!input.left_das && !input.right_das ==> post == (Playfield { das_press: None, ..mid }))
}

impl Playfield {
    /// Swap the falling piece with the held one; with nothing held yet, the
    /// queue supplies the replacement. Allowed once per piece; the timers
    /// start over. If the swapped-in piece cannot spawn legally the match
    /// is lost, as with a spawn after a lock.
    pub fn handle_swap(&mut self, swap_pressed: bool)
        requires
            old(self).wf(),
            !old(self).has_lost,
        ensures
            final(self).wf(),
            final(self).grid_view() == old(self).grid_view(),
            swap_post(*old(self), *final(self), swap_pressed),
    {
        if !swap_pressed || !self.can_swap {
            proof {
                assert(swap_post(*old(self), *self, swap_pressed)) by {
                    reveal(swap_post);
                }
            }
            return ;
        }
        let current = self.falling_piece.tetromino;
        let kind = match self.holding_piece {
            Some(h) => h,
            None => self.next_queue.next_tetromino(),
        };
        self.falling_piece = spawn_tetromino(kind);
        self.holding_piece = Some(current);
        self.can_swap = false;
        self.last_drop = 0;
        self.lock_delay = 0;
        self.lock_delay_resets = 0;
        self.last_move_rotation = false;
        let fits = valid_position(&self.grid, &self.falling_piece);
        self.has_lost = !fits;
        proof {
            assert(swap_post(*old(self), *self, swap_pressed)) by {
                reveal(swap_post);
            }
        }
    }

    /// The shift phase of a tick: first a tapped single-cell shift (left
    /// wins over right), then delayed auto-shift for a held direction; see
    /// `tap_spec` and `das_spec_holds`. Without a held direction the hold
    /// count is forgotten.
    #[verifier::rlimit(60)]
    #[verifier::spinoff_prover]
    pub fn handle_shifts(&mut self, input: &InputState, h: &HandlingSettings, dt: u64)
        requires
            old(self).wf(),
            !old(self).has_lost,
        ensures
            final(self).wf(),
            final(self).grid_view() == old(self).grid_view(),
            final(self).has_lost == old(self).has_lost,
            shift_post(*old(self), *final(self), *input, *h, dt),
    {
        let ghost pre = *self;
        // Tap stage.
        let tap: Option<Shift> = if input.left {
            Some(Shift::Left)
        } else if input.right {
            Some(Shift::Right)
        } else {
            None
        };
        if let Some(s) = tap {
            proof {
                lemma_piece_pos_bounds(self.grid_view(), self.falling_piece);
            }
            let mut q = self.falling_piece;
            q.shift(s);
            proof {
                assert(q == shifted_by(pre.falling_piece, s, 1));
            }
            if valid_position(&self.grid, &q) {
                self.falling_piece = q;
                self.lock_delay = 0;
                self.lock_delay_resets = crate::sat_inc_u32(self.lock_delay_resets);
                self.last_move_rotation = false;
            }
        }
        proof {
            assert(*self == tap_spec(pre, *input));
        }
        let ghost mid = *self;
        // Auto-shift stage.
        let held: Option<Shift> = if input.left_das {
            Some(Shift::Left)
        } else if input.right_das {
            Some(Shift::Right)
        } else {
            None
        };
        match held {
            None => {
                self.das_press = None;
            },
            Some(s) => {
                let prev: u64 = match self.das_press {
                    Some((ps, d)) => if ps == s {
                        d
                    } else {
                        0
                    },
                    None => 0,
                };
                let dur = crate::sat_add_u64(prev, dt);
                self.das_press = Some((s, dur));
                proof {
                    assert(dur == das_duration(mid, s, dt));
                    assert(*self == (Playfield { das_press: Some((s, dur)), ..mid }));
                }
                if dur >= h.das {
                    let ghost armed = *self;
                    let ghost p0 = self.falling_piece;
                    proof {
                        lemma_piece_pos_bounds(self.grid_view(), self.falling_piece);
                        assert(shifted_by(p0, s, 0) == p0);
                    }
                    let mut moved: usize = 0;
                    loop
                        invariant
                            self.wf(),
                            !self.has_lost,
                            armed == (Playfield { das_press: Some((s, dur)), ..mid }),
                            p0 == mid.falling_piece,
                            -2 <= p0.x <= 11,
                            moved <= 14,
                            self.grid_view() == mid.grid_view(),
                            *self == (Playfield {
                                falling_piece: shifted_by(p0, s, moved as int),
                                ..armed
                            }),
                            self.falling_piece.x == (if s is Left {
                                p0.x - moved
                            } else {
                                p0.x + moved
                            }),
                            forall|j: int|
                                1 <= j <= moved ==> piece_fits(
                                    mid.grid_view(),
                                    #[trigger] shifted_by(p0, s, j),
                                ),
                        ensures
                            !piece_fits(mid.grid_view(), shifted_by(p0, s, moved as int + 1)),
                        decreases 15 - moved,
                    {
                        proof {
                            lemma_piece_pos_bounds(self.grid_view(), self.falling_piece);
                        }
                        let mut q = self.falling_piece;
                        q.shift(s);
                        proof {
                            assert(q == shifted_by(p0, s, moved as int + 1));
                        }
                        if !valid_position(&self.grid, &q) {
                            break ;
                        }
                        proof {
                            assert(moved < 14);
                        }
                        self.falling_piece = q;
                        moved = moved + 1;
                        proof {
                            assert(*self == (Playfield {
                                falling_piece: shifted_by(p0, s, moved as int),
                                ..armed
                            }));
                        }
                    }
                    if moved > 0 {
                        self.lock_delay = 0;
                        self.lock_delay_resets = crate::sat_inc_u32(self.lock_delay_resets);
                    }
                    proof {
                        assert(das_spec_holds(mid, *self, s, *h, dt)) by {
                            let d = moved as int;
                            assert(0 <= d);
                            assert(!piece_fits(mid.grid_view(), shifted_by(p0, s, d + 1)));
                            if moved == 0 {
                                assert(*self == (Playfield { das_press: Some((s, dur)), ..mid }));
                            } else {
                                assert(*self == (Playfield {
                                    falling_piece: shifted_by(mid.falling_piece, s, d),
                                    lock_delay: 0,
                                    lock_delay_resets: crate::spec_sat_inc_u32(
                                        mid.lock_delay_resets,
                                    ),
                                    ..(Playfield { das_press: Some((s, dur)), ..mid })
                                }));
                            }
                        }
                    }
                }
            },
        }
        proof {
            assert(shift_post(pre, *self, *input, *h, dt)) by {
                reveal(shift_post);
            }
        }
    }

    /// The rotation phase of a tick: rotate the piece about its pivot and
    /// search the kick offsets in order for the first translation at which
    /// the rotated piece fits; on success the piece moves there, the lock
    /// delay starts over (counting one more reset) and the piece's last
    /// action is a rotation. With no fitting offset, or no rotation input,
    /// nothing changes.
    #[verifier::spinoff_prover]
    pub fn handle_rotations(&mut self, input: &InputState)
        requires
            old(self).wf(),
            !old(self).has_lost,
        ensures
            final(self).wf(),
            final(self).grid_view() == old(self).grid_view(),
            final(self).has_lost == old(self).has_lost,
            final(self).next_queue == old(self).next_queue,
            final(self).holding_piece == old(self).holding_piece,
            final(self).can_swap == old(self).can_swap,
            final(self).das_press == old(self).das_press,
            rotation_post(*old(self), *final(self), *input),
    {
        let rt_opt: Option<RotationType> = if input.clockwise {
            Some(RotationType::Clockwise)
        } else if input.counter_clockwise {
            Some(RotationType::CounterClockwise)
        } else if input.one_eighty {
            Some(RotationType::OneEighty)
        } else {
            None
        };
        if rt_opt.is_none() {
            proof {
                assert(rotation_post(*old(self), *self, *input)) by {
                    reveal(rotation_post);
                }
            }
            return ;
        }
        let rt = rt_opt.unwrap();
        let ghost g = self.grid_view();
        let ghost p = self.falling_piece;
        proof {
            lemma_piece_pos_bounds(g, p);
            crate::falling_piece::lemma_oriented_cells_wf(p.tetromino, p.orientation);
        }
        let mut rotated = self.falling_piece;
        rotated.rotate(rt);
        let offs = kick_offset_table(&self.falling_piece, &rotated, Ghost(rt));
        let chosen = find_kick(&self.grid, &rotated, &offs, Ghost(p), Ghost(rt));
        match chosen {
            None => {
                proof {
                    assert(rotation_rejected(*self, *self, rt)) by {
                        reveal(rotation_rejected);
                    }
                    assert(rotation_applied(*self, *self, rt)) by {
                        reveal(rotation_applied);
                        assert forall|j: int| !#[trigger] kick_accepted(g, p, rt, j) by {
                            if kick_accepted(g, p, rt, j) {
                                assert(!cells_open(
                                    g,
                                    rotated_abs_cells(p, rt, kick_offsets(p, rt)[j]),
                                ));
                            }
                        }
                    }
                }
            },
            Some(c) => {
                self.apply_kick(rotated, offs[c], Ghost(rt), Ghost(c as int));
            },
        }
        proof {
            assert(rotation_post(*old(self), *self, *input)) by {
                reveal(rotation_post);
            }
        }
    }

    /// Move the piece to the accepted kick candidate and do the rotation
    /// bookkeeping.
    #[verifier::spinoff_prover]
    fn apply_kick(
        &mut self,
        rotated: FallingPiece,
        off: (i8, i8),
        Ghost(rt): Ghost<RotationType>,
        Ghost(c): Ghost<int>,
    )
        requires
            old(self).wf(),
            !old(self).has_lost,
            rotated.wf(),
            rotated.tetromino == old(self).falling_piece.tetromino,
            rotated.orientation == crate::falling_piece::next_orientation(
                old(self).falling_piece.orientation,
                rt,
            ),
            crate::tetromino::map_cells(rotated.map) == crate::falling_piece::rotate_cells(
                crate::tetromino::map_cells(old(self).falling_piece.map),
                rt,
            ),
            rotated.x == old(self).falling_piece.x,
            rotated.y == old(self).falling_piece.y,
            -2 <= old(self).falling_piece.x <= 11,
            -2 <= old(self).falling_piece.y <= 41,
            kick_accepted(old(self).grid_view(), old(self).falling_piece, rt, c),
            kick_offsets(old(self).falling_piece, rt)[c] == (off.0 as int, off.1 as int),
            -4 <= off.0 <= 4,
            -4 <= off.1 <= 4,
        ensures
            final(self).wf(),
            final(self).grid_view() == old(self).grid_view(),
            final(self).has_lost == old(self).has_lost,
            final(self).next_queue == old(self).next_queue,
            final(self).holding_piece == old(self).holding_piece,
            final(self).can_swap == old(self).can_swap,
            final(self).das_press == old(self).das_press,
            rotation_applied(*old(self), *final(self), rt),
            rotation_rejected(*old(self), *final(self), rt),
    {
        let ghost g = self.grid_view();
        let ghost p = self.falling_piece;
        let mut moved = rotated;
        moved.translate(off);
        proof {
            lemma_translated_cells(p, rotated, rt, kick_offsets(p, rt)[c], moved);
            lemma_fits_cells(g, moved, rotated_abs_cells(p, rt, kick_offsets(p, rt)[c]));
        }
        self.falling_piece = moved;
        self.lock_delay = 0;
        self.lock_delay_resets = crate::sat_inc_u32(self.lock_delay_resets);
        self.last_move_rotation = true;
        proof {
            assert forall|jj: int| #[trigger] kick_accepted(g, p, rt, jj) implies jj == c by {
                if jj < c {
                    assert(!cells_open(g, rotated_abs_cells(p, rt, kick_offsets(p, rt)[jj])));
                }
                if c < jj {
                    assert(!cells_open(g, rotated_abs_cells(p, rt, kick_offsets(p, rt)[c])));
                }
            }
            assert(rotation_applied(*old(self), *self, rt)) by {
                reveal(rotation_applied);
            }
            assert(rotation_rejected(*old(self), *self, rt)) by {
                reveal(rotation_rejected);
                assert(cells_open(g, rotated_abs_cells(p, rt, kick_offsets(p, rt)[c])));
            }
        }
    }


    /// Send the piece straight down to its resting position and lock it.
    #[verifier::spinoff_prover]
    fn hard_drop_lock(&mut self) -> (info: UpdateInfo)
        requires
            old(self).wf(),
            !old(self).has_lost,
        ensures
            final(self).wf(),
            hard_drop_post(*old(self), *final(self), info),
            final(self).can_swap,
            final(self).last_drop == 0,
            final(self).lock_delay == 0,
            final(self).lock_delay_resets == 0,
            info.cleared_lines <= 4,
    {
        let ghost pre = *self;
        let ghost p = self.falling_piece;
        proof {
            lemma_piece_pos_bounds(self.grid_view(), self.falling_piece);
            assert(fallen_by(p, 0) == p);
        }
        let mut dropped: usize = 0;
        loop
            invariant
                self.wf(),
                !self.has_lost,
                p == pre.falling_piece,
                -2 <= p.y <= 41,
                dropped <= 44,
                self.grid_view() == pre.grid_view(),
                *self == (Playfield {
                    falling_piece: fallen_by(p, dropped as int),
                    last_move_rotation: pre.last_move_rotation && dropped == 0,
                    ..pre
                }),
                self.falling_piece.y == p.y + dropped,
                forall|jj: int|
                    1 <= jj <= dropped ==> piece_fits(
                        pre.grid_view(),
                        #[trigger] fallen_by(p, jj),
                    ),
            ensures
                !piece_fits(pre.grid_view(), fallen_by(p, dropped as int + 1)),
            decreases 45 - dropped,
        {
            proof {
                lemma_piece_pos_bounds(self.grid_view(), self.falling_piece);
            }
            let mut q = self.falling_piece;
            q.fall();
            proof {
                assert(q == fallen_by(p, dropped as int + 1));
            }
            if !valid_position(&self.grid, &q) {
                break ;
            }
            proof {
                assert(dropped < 44);
            }
            self.falling_piece = q;
            self.last_move_rotation = false;
            dropped = dropped + 1;
            proof {
                assert(*self == (Playfield {
                    falling_piece: fallen_by(p, dropped as int),
                    last_move_rotation: pre.last_move_rotation && dropped == 0,
                    ..pre
                }));
            }
        }
        let ghost mid = *self;
        let ghost dropped_g = dropped as int;
        let info = self.solidify_piece();
        proof {
            assert(descent_clear(pre.grid_view(), p, dropped_g)) by {
                reveal(descent_clear);
            }
            assert(hard_drop_post(pre, *self, info)) by {
                reveal(hard_drop_post);
                assert(lock_post(mid, *self, info));
                assert(fallen_by(p, dropped_g) == mid.falling_piece);
            }
            lemma_lock_post_consequences(mid, *self, info);
        }
        info
    }

    /// The drop phase of a tick. A hard drop sends the piece straight to
    /// its resting position and locks it. Otherwise the piece falls one row
    /// when soft drop or gravity says so; a grounded piece whose lock delay
    /// has run out, or whose delay resets are spent, locks now.
    #[verifier::spinoff_prover]
    pub fn handle_drops(&mut self, input: &InputState, h: &HandlingSettings) -> (r: Option<
        UpdateInfo,
    >)
        requires
            old(self).wf(),
            !old(self).has_lost,
        ensures
            final(self).wf(),
            input.hard_drop ==> {
                &&& r matches Some(info)
                &&& hard_drop_post(*old(self), *final(self), info)
            },
            !input.hard_drop ==> drop_step_post(
                *old(self),
                *final(self),
                r,
                input.soft_drop,
                *h,
            ),
            r is Some ==> final(self).can_swap && final(self).last_drop == 0,
            r is Some ==> final(self).lock_delay == 0 && final(self).lock_delay_resets == 0,
            r matches Some(info) ==> info.cleared_lines <= 4,
            r is None ==> final(self).grid_view() == old(self).grid_view(),
    {
        let ghost pre = *self;
        let ghost p = self.falling_piece;
        if input.hard_drop {
            let info = self.hard_drop_lock();
            return Some(info);
        }
        let soft = input.soft_drop && self.last_drop >= h.soft_drop;
        let grav = self.last_drop >= h.gravity;
        let step = soft || grav;
        if step {
            self.last_drop = 0;
        }
        proof {
            lemma_piece_pos_bounds(self.grid_view(), self.falling_piece);
        }
        let mut q = self.falling_piece;
        q.fall();
        proof {
            assert(q == fallen_by(p, 1));
        }
        let can_fall = valid_position(&self.grid, &q);
        let can_wait = self.lock_delay < h.lock_delay;
        let can_reset = self.lock_delay_resets < h.lock_delay_resets;
        if !can_fall && (!can_wait || !can_reset) {
            let ghost mid = *self;
            let info = self.solidify_piece();
            proof {
                lemma_lock_post_pre_fields(mid, pre, *self, info);
                lemma_lock_post_consequences(pre, *self, info);
                assert(drop_step_post(pre, *self, Some(info), input.soft_drop, *h)) by {
                    reveal(drop_step_post);
                }
            }
            return Some(info);
        }
        if can_fall && step {
            self.last_move_rotation = false;
            self.falling_piece = q;
            self.lock_delay = 0;
            self.lock_delay_resets = 0;
        }
        proof {
            assert(drop_step_post(pre, *self, None::<UpdateInfo>, input.soft_drop, *h)) by {
                reveal(drop_step_post);
            }
        }
        None
    }

}

/// The per-piece timers raised by `dt` milliseconds, stopping at the top
/// of the range.
pub open spec fn tick_timers(pre: Playfield, dt: u64) -> Playfield {
    Playfield {
        last_drop: crate::spec_sat_add_u64(pre.last_drop, dt),
        lock_delay: crate::spec_sat_add_u64(pre.lock_delay, dt),
        ..pre
    }
}

/// Everything one tick promises. After a loss nothing happens. Otherwise
/// the per-piece timers rise by `dt` and the hold, shift, rotation and
/// drop phases run in that fixed order, each step pinned by its phase's
/// own promise; `s1`, `s2` and `s3` are the states between the phases.
/// A loss on the hold phase's spawn freezes the tick there. The result is
/// exactly the drop phase's report: `Some` if and only if a piece locked.
#[verifier::opaque]
pub open spec fn tick_post(
    pre: Playfield,
    post: Playfield,
    r: Option<UpdateInfo>,
    input: InputState,
    h: HandlingSettings,
    dt: u64,
) -> bool {
    &&& (pre.has_lost ==> post == pre && r is None)
    &&& (!pre.has_lost ==> exists|s1: Playfield, s2: Playfield, s3: Playfield|
        #![trigger swap_post(tick_timers(pre, dt), s1, input.swap), shift_post(s1, s2, input, h, dt), rotation_post(s2, s3, input)]
        {
            &&& swap_post(tick_timers(pre, dt), s1, input.swap)
            &&& (s1.has_lost ==> post == s1 && r is None)
            &&& (!s1.has_lost ==> {
                &&& shift_post(s1, s2, input, h, dt)
                &&& rotation_post(s2, s3, input)
                &&& (input.hard_drop ==> {
                    &&& r matches Some(info)
                    &&& hard_drop_post(s3, post, info)
                })
                &&& (!input.hard_drop ==> drop_step_post(s3, post, r, input.soft_drop, h))
            })
        })
}

impl Playfield {
    /// One tick of the match: the timers advance by `dt` milliseconds, then
    /// the hold, shift, rotation and drop phases run in order; `tick_post`
    /// states the whole composition. After a loss the state is frozen and
    /// nothing happens. The result reports the lock that happened this
    /// tick, if any; the grid only ever changes through a lock.
    #[verifier::spinoff_prover]
    pub fn update(&mut self, input: &InputState, h: &HandlingSettings, dt: u64) -> (r: Option<
        UpdateInfo,
    >)
        requires
            old(self).wf(),
        ensures
            final(self).wf(),
            tick_post(*old(self), *final(self), r, *input, *h, dt),
            old(self).has_lost ==> *final(self) == *old(self) && r is None,
            r is None ==> final(self).grid_view() == old(self).grid_view(),
            r matches Some(info) ==> {
                &&& info.cleared_lines <= 4
                &&& final(self).can_swap
                &&& final(self).last_drop == 0
                &&& final(self).lock_delay == 0
                &&& final(self).lock_delay_resets == 0
            },
    {
        if self.has_lost {
            proof {
                assert(tick_post(*old(self), *self, None::<UpdateInfo>, *input, *h, dt)) by {
                    reveal(tick_post);
                }
            }
            return None;
        }
        self.last_drop = crate::sat_add_u64(self.last_drop, dt);
        self.lock_delay = crate::sat_add_u64(self.lock_delay, dt);
        proof {
            assert(*self == tick_timers(*old(self), dt));
        }
        self.handle_swap(input.swap);
        let ghost s1 = *self;
        if self.has_lost {
            proof {
                assert(tick_post(*old(self), *self, None::<UpdateInfo>, *input, *h, dt)) by {
                    reveal(tick_post);
                    assert(swap_post(tick_timers(*old(self), dt), s1, input.swap));
                    let trig_shift = shift_post(s1, s1, *input, *h, dt);
                    let trig_rot = rotation_post(s1, s1, *input);
                    assert(s1.has_lost);
                }
            }
            return None;
        }
        self.handle_shifts(input, h, dt);
        let ghost s2 = *self;
        self.handle_rotations(input);
        let ghost s3 = *self;
        let r = self.handle_drops(input, h);
        proof {
            assert(tick_post(*old(self), *self, r, *input, *h, dt)) by {
                reveal(tick_post);
                assert(swap_post(tick_timers(*old(self), dt), s1, input.swap));
                assert(shift_post(s1, s2, *input, *h, dt));
                assert(rotation_post(s2, s3, *input));
            }
        }
        r
    }

    /// Where the falling piece would come to rest if dropped now: the piece
    /// moved down as far as it fits. Recomputed for the renderer each
    /// frame; the match state does not change.
    pub fn ghost_piece(&self) -> (gp: FallingPiece)
        requires
            self.wf(),
            !self.has_lost,
        ensures
            piece_fits(self.grid_view(), gp),
            exists|d: int|
                #![trigger fallen_by(self.falling_piece, d)]
                {
                    &&& 0 <= d
                    &&& gp == fallen_by(self.falling_piece, d)
                    &&& (forall|jj: int|
                        1 <= jj <= d ==> piece_fits(
                            self.grid_view(),
                            #[trigger] fallen_by(self.falling_piece, jj),
                        ))
                    &&& !piece_fits(self.grid_view(), fallen_by(self.falling_piece, d + 1))
                },
    {
        let ghost p = self.falling_piece;
        proof {
            lemma_piece_pos_bounds(self.grid_view(), self.falling_piece);
            assert(fallen_by(p, 0) == p);
        }
        let mut gp = self.falling_piece;
        let mut dropped: usize = 0;
        loop
            invariant
                self.wf(),
                !self.has_lost,
                p == self.falling_piece,
                -2 <= p.y <= 41,
                dropped <= 44,
                gp == fallen_by(p, dropped as int),
                gp.y == p.y + dropped,
                piece_fits(self.grid_view(), gp),
                gp.wf(),
                forall|jj: int|
                    1 <= jj <= dropped ==> piece_fits(
                        self.grid_view(),
                        #[trigger] fallen_by(p, jj),
                    ),
            ensures
                !piece_fits(self.grid_view(), fallen_by(p, dropped as int + 1)),
                gp == fallen_by(p, dropped as int),
                piece_fits(self.grid_view(), gp),
            decreases 45 - dropped,
        {
            proof {
                lemma_piece_pos_bounds(self.grid_view(), gp);
            }
            let mut q = gp;
            q.fall();
            proof {
                assert(q == fallen_by(p, dropped as int + 1));
            }
            if !valid_position(&self.grid, &q) {
                break ;
            }
            proof {
                assert(dropped < 44);
            }
            gp = q;
            dropped = dropped + 1;
        }
        gp
    }

    /// Start the match over: an empty playfield with a fresh queue.
    pub fn restart(&mut self)
        ensures
            final(self).wf(),
            grid_clear(final(self).grid_view()),
            final(self).holding_piece is None,
            final(self).can_swap,
            !final(self).last_move_rotation,
            final(self).last_drop == 0,
            final(self).lock_delay == 0,
            final(self).lock_delay_resets == 0,
            final(self).das_press is None,
            !final(self).has_lost,
            final(self).falling_piece.x == INITIAL_X_POSITION,
            final(self).falling_piece.y == INITIAL_Y_POSITION,
            final(self).falling_piece.orientation == Orientation::Up,
    {
        *self = Playfield::new();
    }
}

} // verus!
