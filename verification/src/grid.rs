//! The mathematical model of the playing grid.
//!
//! A grid is a sequence of columns, left to right. A column is a sequence of
//! cells indexed from the top: row `0` is the topmost cell of a column and
//! row `len - 1` its bottom cell. Everything here is specification: the
//! executable board states its contracts over these functions.

use vstd::prelude::*;

verus! {

/// One cell of the grid.
#[derive(Clone, Copy, Debug, PartialEq, Eq, Structural)]
pub enum Cell {
    /// No token lies here.
    Vacant,
    /// A token of the participant with this 1-based id lies here.
    Owned(u32),
}

/// One of the four line directions along which a run is measured.
///
/// Walking an axis forward adds `(dx, dy)` to a position, walking it
/// backward subtracts it.
#[derive(Clone, Copy, Debug, PartialEq, Eq, Structural)]
pub enum Axis {
    /// `(dx, dy) = (1, 0)`: along a row.
    Horizontal,
    /// `(dx, dy) = (0, 1)`: along a column.
    Vertical,
    /// `(dx, dy) = (1, 1)`: the diagonal that descends to the right.
    Falling,
    /// `(dx, dy) = (1, -1)`: the diagonal that ascends to the right.
    Rising,
}

impl Axis {
    /// The column step of one forward move along the axis.
    pub open spec fn dx(self) -> int {
        match self {
            Axis::Vertical => 0,
            _ => 1,
        }
    }

    /// The row step of one forward move along the axis.
    pub open spec fn dy(self) -> int {
        match self {
            Axis::Horizontal => 0,
            Axis::Vertical => 1,
            Axis::Falling => 1,
            Axis::Rising => -1,
        }
    }

    /// The column reached from column `x` after `i` moves (negative: backward).
    pub open spec fn col_at(self, x: int, i: int) -> int {
        match self {
            Axis::Vertical => x,
            _ => x + i,
        }
    }

    /// The row reached from row `y` after `i` moves (negative: backward).
    pub open spec fn row_at(self, y: int, i: int) -> int {
        match self {
            Axis::Horizontal => y,
            Axis::Vertical => y + i,
            Axis::Falling => y + i,
            Axis::Rising => y - i,
        }
    }
}

/// The grid has `width` columns of `height` cells each.
pub open spec fn is_grid(g: Seq<Seq<Cell>>, width: int, height: int) -> bool {
    &&& g.len() == width
    &&& forall|x: int| 0 <= x < g.len() ==> (#[trigger] g[x]).len() == height
}

/// The all-vacant grid of the given dimensions.
pub open spec fn empty_grid(width: nat, height: nat) -> Seq<Seq<Cell>> {
    Seq::new(width, |x: int| Seq::new(height, |y: int| Cell::Vacant))
}

/// `(x, y)` names a cell of the grid.
pub open spec fn on_board(g: Seq<Seq<Cell>>, x: int, y: int) -> bool {
    0 <= x < g.len() && 0 <= y < g[x].len()
}

/// `(x, y)` names a cell of the grid that holds a token of `player`.
pub open spec fn owned_by(g: Seq<Seq<Cell>>, x: int, y: int, player: u32) -> bool {
    on_board(g, x, y) && g[x][y] == Cell::Owned(player)
}

/// Every token on the grid belongs to a participant in `1..=players`.
pub open spec fn owners_within(g: Seq<Seq<Cell>>, players: int) -> bool {
    forall|x: int, y: int|
        on_board(g, x, y) ==> match #[trigger] g[x][y] {
            Cell::Vacant => true,
            Cell::Owned(p) => 1 <= p <= players,
        }
}

// ---------------------------------------------------------------------------
// Columns and gravity
// ---------------------------------------------------------------------------

/// The number of tokens in a column.
pub open spec fn token_count(column: Seq<Cell>) -> nat
    decreases column.len(),
{
    if column.len() == 0 {
        0
    } else {
        token_count(column.drop_last()) + if column.last() is Owned {
            1nat
        } else {
            0nat
        }
    }
}

/// Gravity: no token lies above a vacant cell of its column.
pub open spec fn settled(column: Seq<Cell>) -> bool {
    forall|upper: int, lower: int|
        0 <= upper < lower < column.len() && #[trigger] column[upper] is Owned
            ==> #[trigger] column[lower] is Owned
}

/// The column has no vacant cell.
pub open spec fn column_full(column: Seq<Cell>) -> bool {
    forall|y: int| 0 <= y < column.len() ==> #[trigger] column[y] is Owned
}

/// The row in which the next token dropped into the column comes to rest:
/// with `k` tokens in a column of height `h`, row `h - 1 - k`.
pub open spec fn landing_row(column: Seq<Cell>) -> int {
    column.len() - 1 - token_count(column)
}

/// Every column obeys gravity.
pub open spec fn all_settled(g: Seq<Seq<Cell>>) -> bool {
    forall|x: int| 0 <= x < g.len() ==> settled(#[trigger] g[x])
}

/// No column has a vacant cell.
pub open spec fn board_full(g: Seq<Seq<Cell>>) -> bool {
    forall|x: int| 0 <= x < g.len() ==> column_full(#[trigger] g[x])
}

/// The grid with a token of `player` put into cell `(x, y)`.
pub open spec fn place(g: Seq<Seq<Cell>>, x: int, y: int, player: u32) -> Seq<Seq<Cell>> {
    g.update(x, g[x].update(y, Cell::Owned(player)))
}

/// The grid after `player` drops a token into column `x`.
pub open spec fn drop_into(g: Seq<Seq<Cell>>, x: int, player: u32) -> Seq<Seq<Cell>> {
    place(g, x, landing_row(g[x]), player)
}

// ---------------------------------------------------------------------------
// Runs and lines
// ---------------------------------------------------------------------------

/// The cell `i` moves along `axis` from `(x, y)` holds a token of `player`.
pub open spec fn owned_along(
    g: Seq<Seq<Cell>>,
    axis: Axis,
    x: int,
    y: int,
    i: int,
    player: u32,
) -> bool {
    owned_by(g, axis.col_at(x, i), axis.row_at(y, i), player)
}

/// An upper bound on the number of cells that lie `i` or more moves away
/// from `(x, y)` in one direction of `axis`; it is what makes
/// [`reach_from`] terminate.
pub open spec fn room(g: Seq<Seq<Cell>>, axis: Axis, x: int, y: int, forward: bool, i: int) -> int {
    match (axis, forward) {
        (Axis::Vertical, true) => (if 0 <= x < g.len() {
            g[x].len() as int
        } else {
            0
        }) - y - i,
        (Axis::Vertical, false) => y - i + 1,
        (_, true) => g.len() - x - i,
        (_, false) => x - i + 1,
    }
}

/// The number of consecutive cells of `player` met when walking from
/// `(x, y)` in one direction of `axis`, starting with the cell `i` moves
/// away; the walk ends at the first cell that is off the board, vacant or
/// owned by someone else.
pub open spec fn reach_from(
    g: Seq<Seq<Cell>>,
    axis: Axis,
    x: int,
    y: int,
    player: u32,
    forward: bool,
    i: int,
) -> nat
    decreases room(g, axis, x, y, forward, i),
{
    if i >= 1 && owned_along(g, axis, x, y, if forward { i } else { -i }, player) {
        1 + reach_from(g, axis, x, y, player, forward, i + 1)
    } else {
        0
    }
}

/// The number of consecutive cells of `player` next to `(x, y)` in one
/// direction of `axis`, the cell `(x, y)` itself not counted.
pub open spec fn reach(
    g: Seq<Seq<Cell>>,
    axis: Axis,
    x: int,
    y: int,
    player: u32,
    forward: bool,
) -> nat {
    reach_from(g, axis, x, y, player, forward, 1)
}

/// The length of the run of `player` through `(x, y)` along `axis`: the
/// cell itself plus the reach in both directions.
pub open spec fn run_length(g: Seq<Seq<Cell>>, axis: Axis, x: int, y: int, player: u32) -> nat {
    1 + reach(g, axis, x, y, player, true) + reach(g, axis, x, y, player, false)
}

/// A token of `player` at `(x, y)` completes a run of at least
/// `win_length` along one of the four axes.
pub open spec fn wins_at(g: Seq<Seq<Cell>>, x: int, y: int, player: u32, win_length: int) -> bool {
    ||| run_length(g, Axis::Horizontal, x, y, player) >= win_length
    ||| run_length(g, Axis::Vertical, x, y, player) >= win_length
    ||| run_length(g, Axis::Falling, x, y, player) >= win_length
    ||| run_length(g, Axis::Rising, x, y, player) >= win_length
}

/// The `len` cells that start at `(x, y)` and follow `axis` forward all
/// hold tokens of `player`.
pub open spec fn line_at(
    g: Seq<Seq<Cell>>,
    axis: Axis,
    x: int,
    y: int,
    player: u32,
    len: int,
) -> bool {
    forall|i: int| 0 <= i < len ==> owned_along(g, axis, x, y, i, player)
}

/// Somewhere on the grid `player` owns `len` consecutive cells along an axis.
pub open spec fn has_line(g: Seq<Seq<Cell>>, player: u32, len: int) -> bool {
    exists|axis: Axis, x: int, y: int| line_at(g, axis, x, y, player, len)
}

/// No participant owns `len` consecutive cells along any axis.
pub open spec fn no_lines(g: Seq<Seq<Cell>>, len: int) -> bool {
    forall|player: u32| !has_line(g, player, len)
}

} // verus!
