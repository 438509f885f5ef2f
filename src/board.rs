use vstd::prelude::*;

verus! {

/// Number of columns of the board.
pub const ARENA_WIDTH: i32 = 10;

/// Number of rows of the board.
pub const ARENA_HEIGHT: i32 = 10;

/// A cell of the board, or a cell just off it while a move is classified.
#[derive(Clone, Copy, Debug, PartialEq, Eq, Structural)]
pub struct Position {
    pub x: i32,
    pub y: i32,
}

/// The cell lies on the board.
pub open spec fn on_board(p: Position) -> bool {
    0 <= p.x < ARENA_WIDTH && 0 <= p.y < ARENA_HEIGHT
}

/// The rank of a cell in the enumeration order of the board: by `x`, then by `y`.
pub open spec fn cell_index(p: Position) -> int {
    p.x * ARENA_HEIGHT + p.y
}

/// The cell of rank `k` in the enumeration order of the board.
pub open spec fn cell_at(k: int) -> Position {
    Position { x: (k / ARENA_HEIGHT as int) as i32, y: (k % ARENA_HEIGHT as int) as i32 }
}

/// Number of cells of the board.
pub open spec fn cell_count() -> int {
    ARENA_WIDTH * ARENA_HEIGHT
}

/// The two cells are one unit apart along exactly one axis.
pub open spec fn adjacent(a: Position, b: Position) -> bool {
    ||| (a.x == b.x && (a.y - b.y == 1 || b.y - a.y == 1))
    ||| (a.y == b.y && (a.x - b.x == 1 || b.x - a.x == 1))
}

/// Manhattan distance between two cells.
pub open spec fn manhattan(a: Position, b: Position) -> int {
    let dx = a.x - b.x;
    let dy = a.y - b.y;
    (if dx >= 0 { dx } else { -dx }) + (if dy >= 0 { dy } else { -dy })
}

/// Cells one unit apart along one axis are at Manhattan distance 1, and conversely.
pub proof fn lemma_adjacent_is_unit_distance(a: Position, b: Position)
    ensures
        adjacent(a, b) <==> manhattan(a, b) == 1,
{
}

/// Enumerating ranks `0 .. cell_count()` visits every cell of the board once.
pub proof fn lemma_cell_at_index(p: Position)
    requires
        on_board(p),
    ensures
        0 <= cell_index(p) < cell_count(),
        cell_at(cell_index(p)) == p,
{
}

/// Every rank `0 .. cell_count()` names a cell of the board with that rank.
pub proof fn lemma_index_cell(k: int)
    requires
        0 <= k < cell_count(),
    ensures
        on_board(cell_at(k)),
        cell_index(cell_at(k)) == k,
{
    let q = k / ARENA_HEIGHT as int;
    let m = k % ARENA_HEIGHT as int;
    assert(k == q * 10 + m && 0 <= m < 10) by (nonlinear_arith)
        requires
            q == k / 10,
            m == k % 10,
            0 <= k,
    ;
    assert(0 <= q < 10) by (nonlinear_arith)
        requires
            k == q * 10 + m,
            0 <= m < 10,
            0 <= k < 100,
    ;
}

impl Position {
    /// Whether the cell lies on the board.
    pub fn is_on_board(&self) -> (r: bool)
        ensures
            r == on_board(*self),
    {
        0 <= self.x && self.x < ARENA_WIDTH && 0 <= self.y && self.y < ARENA_HEIGHT
    }
}

} // verus!
