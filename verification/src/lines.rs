//! Runs and lines: what the reach in one direction is, and why looking at
//! the runs through the cell just filled is enough to find every line.

use vstd::prelude::*;
use crate::grid::{
    Axis, Cell, has_line, line_at, no_lines, on_board, owned_along, owned_by, place, reach,
    reach_from, run_length, wins_at,
};

verus! {

/// The signed number of moves that `i` steps in one direction amount to.
pub open spec fn signed(forward: bool, i: int) -> int {
    if forward {
        i
    } else {
        -i
    }
}

/// Every cell counted by `reach_from` holds a token of `player`.
pub proof fn lemma_reach_from_covers(
    g: Seq<Seq<Cell>>,
    axis: Axis,
    x: int,
    y: int,
    player: u32,
    forward: bool,
    i: int,
    j: int,
)
    requires
        1 <= i <= j < i + reach_from(g, axis, x, y, player, forward, i),
    ensures
        owned_along(g, axis, x, y, signed(forward, j), player),
    decreases j - i,
{
    if j > i {
        lemma_reach_from_covers(g, axis, x, y, player, forward, i + 1, j);
    }
}

/// The cell right after those counted by `reach_from` holds no token of
/// `player`.
pub proof fn lemma_reach_from_stops(
    g: Seq<Seq<Cell>>,
    axis: Axis,
    x: int,
    y: int,
    player: u32,
    forward: bool,
    i: int,
)
    requires
        1 <= i,
    ensures
        !owned_along(
            g,
            axis,
            x,
            y,
            signed(forward, i + reach_from(g, axis, x, y, player, forward, i)),
            player,
        ),
    decreases reach_from(g, axis, x, y, player, forward, i),
{
    if owned_along(g, axis, x, y, signed(forward, i), player) {
        lemma_reach_from_stops(g, axis, x, y, player, forward, i + 1);
    }
}

/// If the `m` cells from the `i`-th on all hold tokens of `player`, the
/// walk counts at least `m` of them.
pub proof fn lemma_reach_from_at_least(
    g: Seq<Seq<Cell>>,
    axis: Axis,
    x: int,
    y: int,
    player: u32,
    forward: bool,
    i: int,
    m: int,
)
    requires
        1 <= i,
        0 <= m,
        forall|j: int| i <= j < i + m ==> owned_along(g, axis, x, y, signed(forward, j), player),
    ensures
        reach_from(g, axis, x, y, player, forward, i) >= m,
    decreases m,
{
    if m > 0 {
        assert(owned_along(g, axis, x, y, signed(forward, i), player));
        lemma_reach_from_at_least(g, axis, x, y, player, forward, i + 1, m - 1);
    }
}

/// The reach is the length of the maximal stretch of cells of `player`
/// next to `(x, y)` in the given direction: the first `n` cells hold
/// tokens of `player`, the one after them does not.
pub proof fn law_reach_is_maximal(
    g: Seq<Seq<Cell>>,
    axis: Axis,
    x: int,
    y: int,
    player: u32,
    forward: bool,
)
    ensures
        forall|j: int|
            1 <= j <= reach(g, axis, x, y, player, forward) ==> owned_along(
                g,
                axis,
                x,
                y,
                signed(forward, j),
                player,
            ),
        !owned_along(
            g,
            axis,
            x,
            y,
            signed(forward, reach(g, axis, x, y, player, forward) as int + 1),
            player,
        ),
{
    assert forall|j: int| 1 <= j <= reach(g, axis, x, y, player, forward) implies owned_along(
        g,
        axis,
        x,
        y,
        signed(forward, j),
        player,
    ) by {
        lemma_reach_from_covers(g, axis, x, y, player, forward, 1, j);
    }
    lemma_reach_from_stops(g, axis, x, y, player, forward, 1);
}

/// What the walk from `(x, y)` counts does not depend on what `(x, y)`
/// itself holds.
pub proof fn lemma_reach_ignores_own_cell(
    g: Seq<Seq<Cell>>,
    axis: Axis,
    x: int,
    y: int,
    player: u32,
    forward: bool,
    i: int,
    owner: u32,
)
    requires
        on_board(g, x, y),
        1 <= i,
    ensures
        reach_from(place(g, x, y, owner), axis, x, y, player, forward, i) == reach_from(
            g,
            axis,
            x,
            y,
            player,
            forward,
            i,
        ),
    decreases reach_from(g, axis, x, y, player, forward, i),
{
    let after = place(g, x, y, owner);
    let cx = axis.col_at(x, signed(forward, i));
    let cy = axis.row_at(y, signed(forward, i));
    assert(!(cx == x && cy == y));
    assert(on_board(after, cx, cy) == on_board(g, cx, cy));
    if on_board(g, cx, cy) {
        assert(after[cx][cy] == g[cx][cy]);
    }
    if owned_along(g, axis, x, y, signed(forward, i), player) {
        lemma_reach_ignores_own_cell(g, axis, x, y, player, forward, i + 1, owner);
    }
}

/// A run through `(x, y)` is measured as if the cell held a token of
/// `player`: putting one there changes neither the length of the run nor
/// whether it wins.
pub proof fn law_run_counts_its_own_cell(
    g: Seq<Seq<Cell>>,
    x: int,
    y: int,
    player: u32,
    win_length: int,
)
    requires
        on_board(g, x, y),
    ensures
        forall|axis: Axis|
            run_length(place(g, x, y, player), axis, x, y, player) == #[trigger] run_length(
                g,
                axis,
                x,
                y,
                player,
            ),
        wins_at(place(g, x, y, player), x, y, player, win_length) == wins_at(
            g,
            x,
            y,
            player,
            win_length,
        ),
{
    assert forall|axis: Axis|
        run_length(place(g, x, y, player), axis, x, y, player) == #[trigger] run_length(
            g,
            axis,
            x,
            y,
            player,
        ) by {
        lemma_reach_ignores_own_cell(g, axis, x, y, player, true, 1, player);
        lemma_reach_ignores_own_cell(g, axis, x, y, player, false, 1, player);
    }
}

/// A line of `len` cells of `player` along `axis` that passes through
/// `(x, y)` as its `k`-th cell makes the run through `(x, y)` at least
/// `len` long.
pub proof fn lemma_line_bounds_run(
    g: Seq<Seq<Cell>>,
    axis: Axis,
    x: int,
    y: int,
    player: u32,
    len: int,
    k: int,
)
    requires
        0 <= k < len,
        line_at(g, axis, axis.col_at(x, -k), axis.row_at(y, -k), player, len),
    ensures
        run_length(g, axis, x, y, player) >= len,
{
    let x0 = axis.col_at(x, -k);
    let y0 = axis.row_at(y, -k);
    assert forall|j: int| 1 <= j < 1 + (len - 1 - k) implies owned_along(
        g,
        axis,
        x,
        y,
        signed(true, j),
        player,
    ) by {
        assert(owned_along(g, axis, x0, y0, k + j, player));
    }
    lemma_reach_from_at_least(g, axis, x, y, player, true, 1, len - 1 - k);
    assert forall|j: int| 1 <= j < 1 + k implies owned_along(
        g,
        axis,
        x,
        y,
        signed(false, j),
        player,
    ) by {
        assert(owned_along(g, axis, x0, y0, k - j, player));
    }
    lemma_reach_from_at_least(g, axis, x, y, player, false, 1, k);
}

/// A run of at least `len` through a cell of `player` holds a line of
/// `len` cells that passes through that cell.
pub proof fn lemma_run_holds_line(
    g: Seq<Seq<Cell>>,
    axis: Axis,
    x: int,
    y: int,
    player: u32,
    len: int,
) -> (k: int)
    requires
        1 <= len <= run_length(g, axis, x, y, player),
        owned_by(g, x, y, player),
    ensures
        0 <= k < len,
        line_at(g, axis, axis.col_at(x, -k), axis.row_at(y, -k), player, len),
{
    let back = reach(g, axis, x, y, player, false) as int;
    let k = if back < len - 1 {
        back
    } else {
        len - 1
    };
    let x0 = axis.col_at(x, -k);
    let y0 = axis.row_at(y, -k);
    assert forall|i: int| 0 <= i < len implies owned_along(g, axis, x0, y0, i, player) by {
        if i < k {
            lemma_reach_from_covers(g, axis, x, y, player, false, 1, k - i);
            assert(owned_along(g, axis, x, y, signed(false, k - i), player));
        } else if i == k {
            assert(owned_along(g, axis, x, y, 0, player));
        } else {
            lemma_reach_from_covers(g, axis, x, y, player, true, 1, i - k);
            assert(owned_along(g, axis, x, y, signed(true, i - k), player));
        }
    }
    k
}

/// A line of `len` cells of `player` passes through `(x, y)` along `axis`.
pub open spec fn line_through(
    g: Seq<Seq<Cell>>,
    axis: Axis,
    x: int,
    y: int,
    player: u32,
    len: int,
) -> bool {
    exists|k: int|
        0 <= k < len && #[trigger] line_at(
            g,
            axis,
            axis.col_at(x, -k),
            axis.row_at(y, -k),
            player,
            len,
        )
}

/// Win detection centred on one cell finds exactly the lines through it:
/// a cell of `player` lies on a run of at least `win_length` along some
/// axis if and only if a line of `win_length` cells of `player` passes
/// through it along some axis.
pub proof fn law_win_iff_line_through(
    g: Seq<Seq<Cell>>,
    x: int,
    y: int,
    player: u32,
    win_length: int,
)
    requires
        1 <= win_length,
        owned_by(g, x, y, player),
    ensures
        wins_at(g, x, y, player, win_length) <==> exists|axis: Axis| #[trigger]
            line_through(g, axis, x, y, player, win_length),
{
    if wins_at(g, x, y, player, win_length) {
        let axis = if run_length(g, Axis::Horizontal, x, y, player) >= win_length {
            Axis::Horizontal
        } else if run_length(g, Axis::Vertical, x, y, player) >= win_length {
            Axis::Vertical
        } else if run_length(g, Axis::Falling, x, y, player) >= win_length {
            Axis::Falling
        } else {
            Axis::Rising
        };
        let k = lemma_run_holds_line(g, axis, x, y, player, win_length);
        assert(line_through(g, axis, x, y, player, win_length));
    }
    if exists|axis: Axis| #[trigger] line_through(g, axis, x, y, player, win_length) {
        let axis = choose|axis: Axis| #[trigger] line_through(g, axis, x, y, player, win_length);
        let k = choose|k: int|
            0 <= k < win_length && #[trigger] line_at(
                g,
                axis,
                axis.col_at(x, -k),
                axis.row_at(y, -k),
                player,
                win_length,
            );
        lemma_line_bounds_run(g, axis, x, y, player, win_length, k);
    }
}

/// A winning run through a cell of `player` shows a line of `player`.
pub proof fn lemma_win_shows_line(
    g: Seq<Seq<Cell>>,
    x: int,
    y: int,
    player: u32,
    win_length: int,
)
    requires
        1 <= win_length,
        owned_by(g, x, y, player),
        wins_at(g, x, y, player, win_length),
    ensures
        has_line(g, player, win_length),
{
    law_win_iff_line_through(g, x, y, player, win_length);
    let axis = choose|axis: Axis| #[trigger] line_through(g, axis, x, y, player, win_length);
    let k = choose|k: int|
        0 <= k < win_length && #[trigger] line_at(
            g,
            axis,
            axis.col_at(x, -k),
            axis.row_at(y, -k),
            player,
            win_length,
        );
    assert(line_at(g, axis, axis.col_at(x, -k), axis.row_at(y, -k), player, win_length));
}

/// Only the token just placed can complete a line: on a grid without
/// lines, after a token of `player` is put into the vacant cell `(x, y)`,
/// a participant owns a line if and only if it is `player` and the run
/// through `(x, y)` reaches `win_length` along some axis.
pub proof fn law_placement_decides(
    g: Seq<Seq<Cell>>,
    x: int,
    y: int,
    player: u32,
    win_length: int,
    other: u32,
)
    requires
        1 <= win_length,
        on_board(g, x, y),
        g[x][y] is Vacant,
        no_lines(g, win_length),
    ensures
        has_line(place(g, x, y, player), other, win_length) <==> (other == player && wins_at(
            place(g, x, y, player),
            x,
            y,
            player,
            win_length,
        )),
{
    let after = place(g, x, y, player);
    assert(owned_by(after, x, y, player));
    if has_line(after, other, win_length) {
        let (axis, x0, y0) = choose|axis: Axis, x0: int, y0: int|
            line_at(after, axis, x0, y0, other, win_length);
        if exists|k: int|
            0 <= k < win_length && axis.col_at(x0, k) == x && axis.row_at(y0, k) == y {
            let k = choose|k: int|
                0 <= k < win_length && axis.col_at(x0, k) == x && axis.row_at(y0, k) == y;
            assert(owned_along(after, axis, x0, y0, k, other));
            assert(other == player);
            assert(axis.col_at(x, -k) == x0 && axis.row_at(y, -k) == y0);
            lemma_line_bounds_run(after, axis, x, y, player, win_length, k);
        } else {
            assert forall|i: int| 0 <= i < win_length implies owned_along(
                g,
                axis,
                x0,
                y0,
                i,
                other,
            ) by {
                assert(owned_along(after, axis, x0, y0, i, other));
                let cx = axis.col_at(x0, i);
                let cy = axis.row_at(y0, i);
                assert(!(cx == x && cy == y));
                if cx != x {
                    assert(after[cx] == g[cx]);
                } else {
                    assert(after[cx][cy] == g[cx][cy]);
                }
            }
            assert(line_at(g, axis, x0, y0, other, win_length));
            assert(has_line(g, other, win_length));
            assert(false);
        }
    }
    if other == player && wins_at(after, x, y, player, win_length) {
        lemma_win_shows_line(after, x, y, player, win_length);
    }
}

} // verus!
