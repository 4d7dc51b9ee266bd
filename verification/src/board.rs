//! The executable board: a fixed grid of cells, stored column by column,
//! that tokens are dropped into.

use vstd::prelude::*;
use crate::gravity::{law_drop_keeps_gravity, law_full_iff_top_owned, lemma_settled_split};
use crate::grid;
use crate::grid::{
    Axis, Cell, all_settled, board_full, column_full, drop_into, empty_grid, is_grid, on_board,
    reach_from, wins_at,
};
use crate::lines::signed;

verus! {

impl Axis {
    /// The column and row steps of one forward move along the axis.
    pub fn step(self) -> (d: (i8, i8))
        ensures
            d.0 == self.dx(),
            d.1 == self.dy(),
    {
        match self {
            Axis::Horizontal => (1, 0),
            Axis::Vertical => (0, 1),
            Axis::Falling => (1, 1),
            Axis::Rising => (1, -1),
        }
    }
}

/// Moves a coordinate by one step of `-1`, `0` or `1` and keeps it only if
/// it stays below `limit`.
fn shift(c: usize, d: i8, limit: usize) -> (moved: Option<usize>)
    requires
        -1 <= d <= 1,
    ensures
        moved is Some <==> 0 <= c + d < limit,
        moved matches Some(m) ==> m == c + d,
{
    if d == 0 {
        if c < limit {
            Some(c)
        } else {
            None
        }
    } else if d > 0 {
        if c < limit && c + 1 < limit {
            Some(c + 1)
        } else {
            None
        }
    } else {
        if c > 0 && c - 1 < limit {
            Some(c - 1)
        } else {
            None
        }
    }
}

/// A grid of `width` columns and `height` rows. Row `0` is the top row.
#[derive(Clone, Debug)]
pub struct Board {
    width: usize,
    height: usize,
    /// `cells[x][y]` is the cell in column `x`, row `y`.
    cells: Vec<Vec<Cell>>,
}

impl View for Board {
    type V = Seq<Seq<Cell>>;

    /// The grid as a sequence of columns, each a sequence of cells from the
    /// top row down.
    closed spec fn view(&self) -> Seq<Seq<Cell>> {
        Seq::new(self.cells@.len(), |x: int| self.cells@[x]@)
    }
}

impl Board {
    /// The number of columns.
    pub closed spec fn spec_width(&self) -> usize {
        self.width
    }

    /// The number of rows.
    pub closed spec fn spec_height(&self) -> usize {
        self.height
    }

    /// The board is a grid of its stated dimensions and every column obeys
    /// gravity.
    pub open spec fn wf(&self) -> bool {
        &&& is_grid(self@, self.spec_width() as int, self.spec_height() as int)
        &&& all_settled(self@)
    }

    /// The number of columns.
    #[verifier::when_used_as_spec(spec_width)]
    pub fn width(&self) -> (w: usize)
        ensures
            w == self.spec_width(),
    {
        self.width
    }

    /// The number of rows.
    #[verifier::when_used_as_spec(spec_height)]
    pub fn height(&self) -> (h: usize)
        ensures
            h == self.spec_height(),
    {
        self.height
    }

    /// An all-vacant board of the given dimensions.
    pub fn new(width: usize, height: usize) -> (board: Board)
        ensures
            board.wf(),
            board.width() == width,
            board.height() == height,
            board@ == empty_grid(width as nat, height as nat),
    {
        let mut cells: Vec<Vec<Cell>> = Vec::new();
        let mut x: usize = 0;
        while x < width
            invariant
                x <= width,
                cells@.len() == x,
                forall|i: int|
                    0 <= i < x ==> (#[trigger] cells@[i])@ == Seq::new(
                        height as nat,
                        |y: int| Cell::Vacant,
                    ),
            decreases width - x,
        {
            let mut column: Vec<Cell> = Vec::new();
            let mut y: usize = 0;
            while y < height
                invariant
                    y <= height,
                    column@.len() == y,
                    forall|j: int| 0 <= j < y ==> #[trigger] column@[j] == Cell::Vacant,
                decreases height - y,
            {
                column.push(Cell::Vacant);
                y += 1;
            }
            assert(column@ =~= Seq::new(height as nat, |y: int| Cell::Vacant));
            cells.push(column);
            x += 1;
        }
        let board = Board { width, height, cells };
        assert(board@ =~= empty_grid(width as nat, height as nat));
        board
    }

    /// The cell in column `x`, row `y`, or `None` if the board has no such
    /// cell.
    pub fn get(&self, x: usize, y: usize) -> (cell: Option<Cell>)
        ensures
            cell is Some <==> on_board(self@, x as int, y as int),
            cell matches Some(c) ==> c == self@[x as int][y as int],
    {
        if x < self.cells.len() && y < self.cells[x].len() {
            Some(self.cells[x][y])
        } else {
            None
        }
    }

    /// The cells of the board, column by column: a copy for display.
    pub fn cells(&self) -> (copy: Vec<Vec<Cell>>)
        ensures
            copy@.len() == self@.len(),
            forall|x: int| 0 <= x < copy@.len() ==> (#[trigger] copy@[x])@ == self@[x],
    {
        let mut copy: Vec<Vec<Cell>> = Vec::new();
        let mut x: usize = 0;
        while x < self.cells.len()
            invariant
                x <= self.cells@.len(),
                copy@.len() == x,
                forall|i: int| 0 <= i < x ==> (#[trigger] copy@[i])@ == self.cells@[i]@,
            decreases self.cells@.len() - x,
        {
            let mut column: Vec<Cell> = Vec::new();
            let mut y: usize = 0;
            while y < self.cells[x].len()
                invariant
                    x < self.cells@.len(),
                    y <= self.cells@[x as int]@.len(),
                    column@.len() == y,
                    forall|j: int| 0 <= j < y ==> #[trigger] column@[j] == self.cells@[x as int]@[j],
                decreases self.cells@[x as int]@.len() - y,
            {
                column.push(self.cells[x][y]);
                y += 1;
            }
            assert(column@ =~= self.cells@[x as int]@);
            copy.push(column);
            x += 1;
        }
        copy
    }

    /// Whether column `x` has no vacant cell. Looks at the topmost cell
    /// only; a column without cells is full.
    pub fn column_is_full(&self, x: usize) -> (full: bool)
        requires
            self.wf(),
            x < self.width(),
        ensures
            full == column_full(self@[x as int]),
    {
        proof {
            law_full_iff_top_owned(self@[x as int]);
        }
        if self.height == 0 {
            true
        } else {
            match self.cells[x][0] {
                Cell::Vacant => false,
                Cell::Owned(_) => true,
            }
        }
    }

    /// Whether no column has a vacant cell.
    pub fn is_full(&self) -> (full: bool)
        requires
            self.wf(),
        ensures
            full == board_full(self@),
    {
        let mut x: usize = 0;
        while x < self.width
            invariant
                self.wf(),
                x <= self.width,
                forall|i: int| 0 <= i < x ==> column_full(#[trigger] self@[i]),
            decreases self.width - x,
        {
            if !self.column_is_full(x) {
                return false;
            }
            x += 1;
        }
        true
    }

    /// The columns that still have a vacant cell, from left to right.
    pub fn open_columns(&self) -> (columns: Vec<usize>)
        requires
            self.wf(),
        ensures
            forall|i: int, j: int|
                0 <= i < j < columns@.len() ==> #[trigger] columns@[i] < #[trigger] columns@[j],
            forall|c: usize|
                columns@.contains(c) <==> (c < self.width() && !column_full(self@[c as int])),
    {
        let mut columns: Vec<usize> = Vec::new();
        let mut x: usize = 0;
        while x < self.width
            invariant
                self.wf(),
                x <= self.width,
                forall|i: int, j: int|
                    0 <= i < j < columns@.len() ==> #[trigger] columns@[i] < #[trigger] columns@[j],
                forall|i: int| 0 <= i < columns@.len() ==> #[trigger] columns@[i] < x,
                forall|c: usize|
                    columns@.contains(c) <==> (c < x && !column_full(self@[c as int])),
            decreases self.width - x,
        {
            if !self.column_is_full(x) {
                let ghost before = columns@;
                columns.push(x);
                assert forall|c: usize| columns@.contains(c) <==> (c < x + 1 && !column_full(
                    self@[c as int],
                )) by {
                    if columns@.contains(c) {
                        let i = choose|i: int| 0 <= i < columns@.len() && columns@[i] == c;
                        if i < before.len() {
                            assert(before[i] == c);
                            assert(before.contains(c));
                        }
                    }
                    if c < x + 1 && !column_full(self@[c as int]) {
                        if c == x {
                            assert(columns@[before.len() as int] == c);
                        } else {
                            assert(before.contains(c));
                            let i = choose|i: int| 0 <= i < before.len() && before[i] == c;
                            assert(columns@[i] == c);
                        }
                    }
                }
            }
            x += 1;
        }
        columns
    }

    /// The row in which a token dropped into column `x` would come to
    /// rest, found by scanning the column from the bottom for its first
    /// vacant cell; `None` if the column is full.
    pub fn lowest_vacant(&self, x: usize) -> (row: Option<usize>)
        requires
            self.wf(),
            x < self.width(),
        ensures
            row is None <==> column_full(self@[x as int]),
            row matches Some(y) ==> y == grid::landing_row(self@[x as int]),
    {
        let mut y: usize = self.height;
        while y > 0
            invariant
                self.wf(),
                x < self.width,
                y <= self.height,
                forall|j: int| y <= j < self.height ==> (#[trigger] self@[x as int][j]) is Owned,
            decreases y,
        {
            y -= 1;
            match self.cells[x][y] {
                Cell::Vacant => {
                    proof {
                        let column = self@[x as int];
                        lemma_settled_split(column);
                        assert(column[y as int] is Vacant);
                        if y + 1 < self.height {
                            assert(column[y + 1] is Owned);
                        }
                    }
                    return Some(y);
                },
                Cell::Owned(_) => {},
            }
        }
        None
    }

    /// Drops a token of `player` into column `x`: it comes to rest in the
    /// lowest vacant cell, whose row is returned. A full column takes no
    /// token: the board stays as it is and `None` is returned.
    pub fn drop_token(&mut self, x: usize, player: u32) -> (row: Option<usize>)
        requires
            old(self).wf(),
            x < old(self).width(),
        ensures
            final(self).wf(),
            final(self).width() == old(self).width(),
            final(self).height() == old(self).height(),
            match row {
                None => column_full(old(self)@[x as int]) && *final(self) == *old(self),
                Some(y) => {
                    &&& !column_full(old(self)@[x as int])
                    &&& y == grid::landing_row(old(self)@[x as int])
                    &&& final(self)@ == drop_into(old(self)@, x as int, player)
                },
            },
    {
        match self.lowest_vacant(x) {
            None => None,
            Some(y) => {
                self.cells[x][y] = Cell::Owned(player);
                proof {
                    let before = old(self)@;
                    let after = self@;
                    assert(after =~= drop_into(before, x as int, player));
                    law_drop_keeps_gravity(before[x as int], player);
                    assert forall|i: int| 0 <= i < after.len() implies grid::settled(
                        #[trigger] after[i],
                    ) by {
                        if i != x {
                            assert(after[i] == before[i]);
                        }
                    }
                }
                Some(y)
            },
        }
    }

    /// The cell one step along `axis` from `(x, y)`, forward or backward,
    /// if the board has such a cell.
    fn neighbor(&self, x: usize, y: usize, axis: Axis, forward: bool) -> (next: Option<
        (usize, usize),
    >)
        requires
            self.wf(),
            on_board(self@, x as int, y as int),
        ensures
            next is Some <==> on_board(
                self@,
                axis.col_at(x as int, signed(forward, 1)),
                axis.row_at(y as int, signed(forward, 1)),
            ),
            next matches Some(n) ==> n.0 == axis.col_at(x as int, signed(forward, 1)) && n.1
                == axis.row_at(y as int, signed(forward, 1)),
    {
        let (dx, dy) = axis.step();
        let (sx, sy): (i8, i8) = if forward {
            (dx, dy)
        } else {
            (-dx, -dy)
        };
        match shift(x, sx, self.width) {
            None => None,
            Some(nx) => match shift(y, sy, self.height) {
                None => None,
                Some(ny) => Some((nx, ny)),
            },
        }
    }

    /// Whether cell `(x, y)` holds a token of `player`.
    fn holds(&self, x: usize, y: usize, player: u32) -> (owned: bool)
        requires
            on_board(self@, x as int, y as int),
        ensures
            owned == grid::owned_by(self@, x as int, y as int, player),
    {
        match self.cells[x][y] {
            Cell::Vacant => false,
            Cell::Owned(owner) => owner == player,
        }
    }

    /// Walks from `(x, y)` in one direction of `axis` and counts the
    /// consecutive cells of `player`, until the board ends or a cell is
    /// vacant or owned by someone else. The last cell counted is on the
    /// board.
    pub fn reach(&self, x: usize, y: usize, axis: Axis, forward: bool, player: u32) -> (count:
        usize)
        requires
            self.wf(),
            on_board(self@, x as int, y as int),
        ensures
            count == grid::reach(self@, axis, x as int, y as int, player, forward),
            on_board(
                self@,
                axis.col_at(x as int, signed(forward, count as int)),
                axis.row_at(y as int, signed(forward, count as int)),
            ),
    {
        let mut count: usize = 0;
        let mut cx: usize = x;
        let mut cy: usize = y;
        loop
            invariant
                self.wf(),
                on_board(self@, x as int, y as int),
                on_board(self@, cx as int, cy as int),
                cx == axis.col_at(x as int, signed(forward, count as int)),
                cy == axis.row_at(y as int, signed(forward, count as int)),
                count + reach_from(self@, axis, x as int, y as int, player, forward, count + 1)
                    == grid::reach(self@, axis, x as int, y as int, player, forward),
            decreases reach_from(self@, axis, x as int, y as int, player, forward, count + 1),
        {
            match self.neighbor(cx, cy, axis, forward) {
                None => {
                    return count;
                },
                Some((nx, ny)) => {
                    if !self.holds(nx, ny, player) {
                        return count;
                    }
                    assert(grid::owned_along(
                        self@,
                        axis,
                        x as int,
                        y as int,
                        signed(forward, count + 1),
                        player,
                    ));
                    count += 1;
                    cx = nx;
                    cy = ny;
                },
            }
        }
    }

    /// The length of the run of `player` through `(x, y)` along `axis`:
    /// the cell itself plus the reach in both directions.
    pub fn run_length(&self, x: usize, y: usize, axis: Axis, player: u32) -> (length: usize)
        requires
            self.wf(),
            on_board(self@, x as int, y as int),
        ensures
            length == grid::run_length(self@, axis, x as int, y as int, player),
    {
        let ahead = self.reach(x, y, axis, true, player);
        let behind = self.reach(x, y, axis, false, player);
        1 + ahead + behind
    }

    /// Win detection centred on cell `(x, y)`: whether the run of `player`
    /// through it reaches `win_length` along the horizontal, the vertical
    /// or either diagonal.
    pub fn check_win(&self, x: usize, y: usize, player: u32, win_length: usize) -> (won: bool)
        requires
            self.wf(),
            on_board(self@, x as int, y as int),
        ensures
            won == wins_at(self@, x as int, y as int, player, win_length as int),
    {
        self.run_length(x, y, Axis::Horizontal, player) >= win_length || self.run_length(
            x,
            y,
            Axis::Vertical,
            player,
        ) >= win_length || self.run_length(x, y, Axis::Falling, player) >= win_length
            || self.run_length(x, y, Axis::Rising, player) >= win_length
    }
}

} // verus!
