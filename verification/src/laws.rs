//! What holds of every game: the state invariant and the behaviour of
//! moves, proved of the state machine that the engine implements.

use vstd::prelude::*;
use crate::gravity::{law_drop_keeps_gravity, law_landing_row_is_lowest_vacant};
use crate::grid::{
    Axis, Cell, all_settled, board_full, column_full, empty_grid, has_line, is_grid, landing_row,
    line_at, no_lines, on_board, owned_along, owners_within, place, settled, token_count, wins_at,
};
use crate::lines::{law_placement_decides, lemma_win_shows_line};
use crate::model::{EngineConfig, GameModel, MoveResult, Outcome, next_player};

verus! {

/// Nobody owns a line on an all-vacant grid.
pub proof fn lemma_empty_grid_has_no_lines(width: nat, height: nat, len: int)
    requires
        1 <= len,
    ensures
        no_lines(empty_grid(width, height), len),
{
    let g = empty_grid(width, height);
    assert forall|player: u32| !has_line(g, player, len) by {
        if has_line(g, player, len) {
            let (axis, x, y) = choose|axis: Axis, x: int, y: int|
                line_at(g, axis, x, y, player, len);
            assert(owned_along(g, axis, x, y, 0, player));
            assert(g[x][y] == Cell::Vacant);
        }
    }
}

/// A game starts in a state that satisfies the invariant.
pub proof fn law_initial_state_is_valid(config: EngineConfig)
    requires
        config.valid(),
    ensures
        GameModel::initial(config).inv(),
{
    let m = GameModel::initial(config);
    let g = m.cells;
    lemma_empty_grid_has_no_lines(config.width as nat, config.height as nat, config.win_length as int);
    assert(is_grid(g, config.width as int, config.height as int));
    assert forall|x: int| 0 <= x < g.len() implies settled(#[trigger] g[x]) by {
        assert forall|upper: int, lower: int|
            0 <= upper < lower < g[x].len() && #[trigger] g[x][upper] is Owned implies #[trigger] g[x][lower] is Owned by {
            assert(g[x][upper] == Cell::Vacant);
        }
    }
    assert(owners_within(g, config.player_count as int));
    if board_full(g) && config.width > 0 && config.height > 0 {
        assert(column_full(g[0]));
        assert(g[0][0] is Owned);
        assert(g[0][0] == Cell::Vacant);
    }
}

/// The participant who moves next is again one of the `1..=N`.
pub proof fn law_rotation_stays_in_range(active: u32, players: u32)
    requires
        1 <= active <= players,
    ensures
        1 <= next_player(active, players) <= players,
        active < players ==> next_player(active, players) == active + 1,
        active == players ==> next_player(active, players) == 1,
{
    if active < players {
        assert(active as int % players as int == active) by (nonlinear_arith)
            requires
                0 <= active < players,
        ;
    } else {
        assert(active as int % players as int == 0) by (nonlinear_arith)
            requires
                0 < active == players,
        ;
    }
}

/// A move that is accepted puts one token of the active participant into
/// the landing row of the chosen column, row `H - 1 - k` of a column that
/// held `k` tokens, and changes no other cell; the column then holds
/// `k + 1` tokens and still obeys gravity.
pub proof fn law_token_lands_on_the_stack(m: GameModel, column: int)
    requires
        m.inv(),
        !m.step(column).1.is_rejection(),
    ensures
        m.has_room(column),
        m.outcome is InProgress,
        ({
            let after = m.step(column).0.cells;
            let row = m.config.height - 1 - token_count(m.cells[column]);
            &&& 0 <= row < m.config.height
            &&& m.cells[column][row] is Vacant
            &&& after[column][row] == Cell::Owned(m.active_player)
            &&& forall|x: int, y: int|
                on_board(m.cells, x, y) && !(x == column && y == row) ==> after[x][y]
                    == m.cells[x][y]
            &&& is_grid(after, m.config.width as int, m.config.height as int)
            &&& token_count(after[column]) == token_count(m.cells[column]) + 1
            &&& all_settled(after)
        }),
{
    let before = m.cells;
    let col = before[column];
    assert(settled(col));
    law_landing_row_is_lowest_vacant(col);
    law_drop_keeps_gravity(col, m.active_player);
    let row = landing_row(col);
    let after = place(before, column, row, m.active_player);
    assert(m.step(column).0.cells == after);
    assert forall|x: int| 0 <= x < after.len() implies settled(#[trigger] after[x]) by {
        if x != column {
            assert(after[x] == before[x]);
        }
    }
}

/// Every move, accepted or rejected, leads from a valid state to a valid
/// state: the dimensions and the rules stay, the columns obey gravity, the
/// active participant is one of the `1..=N`, and the outcome classifies the
/// grid.
pub proof fn law_step_keeps_invariant(m: GameModel, column: int)
    requires
        m.inv(),
    ensures
        m.step(column).0.inv(),
        m.step(column).0.config == m.config,
{
    let (next, result) = m.step(column);
    if !result.is_rejection() {
        law_token_lands_on_the_stack(m, column);
        let before = m.cells;
        let player = m.active_player;
        let row = landing_row(before[column]);
        let after = next.cells;
        let len = m.config.win_length as int;
        assert(after == place(before, column, row, player));
        assert(owners_within(after, m.config.player_count as int)) by {
            assert forall|x: int, y: int| on_board(after, x, y) implies match #[trigger] after[x][y] {
                Cell::Vacant => true,
                Cell::Owned(p) => 1 <= p <= m.config.player_count,
            } by {
                if !(x == column && y == row) {
                    assert(on_board(before, x, y));
                    assert(after[x][y] == before[x][y]);
                }
            }
        }
        assert forall|other: u32| has_line(after, other, len) <==> (other == player && wins_at(
            after,
            column,
            row,
            player,
            len,
        )) by {
            law_placement_decides(before, column, row, player, len, other);
        }
        law_rotation_stays_in_range(player, m.config.player_count);
        if wins_at(after, column, row, player, len) {
            assert(has_line(after, player, len));
        }
    }
}

/// Whatever moves are asked for, in whatever order, a game that started
/// in a valid state is in a valid state after them.
pub proof fn law_play_keeps_invariant(m: GameModel, columns: Seq<int>)
    requires
        m.inv(),
    ensures
        m.play(columns).inv(),
        m.play(columns).config == m.config,
    decreases columns.len(),
{
    if columns.len() > 0 {
        law_play_keeps_invariant(m, columns.drop_last());
        law_step_keeps_invariant(m.play(columns.drop_last()), columns.last());
    }
}

/// A column that has room has a vacant run of positive length on top of
/// its tokens: the rows `0..=landing_row` are vacant and the rows below
/// hold tokens.
pub proof fn law_open_column_has_vacant_top(m: GameModel, column: int)
    requires
        m.inv(),
        m.has_room(column),
    ensures
        0 <= landing_row(m.cells[column]) < m.config.height,
        forall|y: int|
            0 <= y <= landing_row(m.cells[column]) ==> (#[trigger] m.cells[column][y]) is Vacant,
        forall|y: int|
            landing_row(m.cells[column]) < y < m.config.height ==> (#[trigger] m.cells[column][y])
                is Owned,
{
    assert(settled(m.cells[column]));
    law_landing_row_is_lowest_vacant(m.cells[column]);
}

/// While the game is in progress, a move into a full column is reported
/// as `ColumnFull` and changes nothing.
pub proof fn law_full_column_is_rejected(m: GameModel, column: int)
    requires
        m.outcome is InProgress,
        0 <= column < m.config.width,
        column_full(m.cells[column]),
    ensures
        m.step(column) == (m, MoveResult::ColumnFull),
{
}

/// Once the game has ended, every move is reported as `GameOver` and
/// changes nothing, the active participant included.
pub proof fn law_ended_game_takes_no_move(m: GameModel, column: int)
    requires
        !(m.outcome is InProgress),
    ensures
        m.step(column) == (m, MoveResult::GameOver),
{
}

/// A rejected move leaves the state as it was, so a snapshot taken after
/// it equals one taken before it.
pub proof fn law_rejection_changes_nothing(m: GameModel, column: int)
    requires
        m.step(column).1.is_rejection(),
    ensures
        m.step(column).0 == m,
        m.step(column).0.snapshot() == m.snapshot(),
{
}

/// Which report a move gets is decided by the state alone: `GameOver`
/// exactly when the game has ended; else `InvalidColumn` exactly when the
/// column does not exist; else `ColumnFull` exactly when it has no vacant
/// cell; and a move is accepted exactly when the game is in progress and
/// the column has room.
pub proof fn law_reports_are_exact(m: GameModel, column: int)
    ensures
        m.step(column).1 is GameOver <==> !(m.outcome is InProgress),
        m.step(column).1 is InvalidColumn <==> m.outcome is InProgress && !(0 <= column
            < m.config.width),
        m.step(column).1 is ColumnFull <==> m.outcome is InProgress && 0 <= column
            < m.config.width && column_full(m.cells[column]),
        !m.step(column).1.is_rejection() <==> m.outcome is InProgress && m.has_room(column),
{
}

/// An accepted move is reported by what it leaves behind: `Win` of the
/// mover exactly when the mover owns a winning line afterwards, `Draw`
/// exactly when nobody does and the board is full, `Continue` otherwise;
/// and the turn passes on only with `Continue`.
pub proof fn law_result_classifies_grid(m: GameModel, column: int)
    requires
        m.inv(),
        !m.step(column).1.is_rejection(),
    ensures
        ({
            let (next, result) = m.step(column);
            let len = m.config.win_length as int;
            &&& result == MoveResult::Win(m.active_player) <==> has_line(
                next.cells,
                m.active_player,
                len,
            )
            &&& result is Win ==> result == MoveResult::Win(m.active_player) && next.outcome
                == Outcome::Win(m.active_player) && next.active_player == m.active_player
            &&& result is Draw <==> no_lines(next.cells, len) && board_full(next.cells)
            &&& result is Draw ==> next.outcome is Draw
            &&& result is Continue <==> no_lines(next.cells, len) && !board_full(next.cells)
            &&& result is Continue ==> next.outcome is InProgress && next.active_player
                == next_player(m.active_player, m.config.player_count)
        }),
{
    law_step_keeps_invariant(m, column);
    law_token_lands_on_the_stack(m, column);
    let (next, result) = m.step(column);
    let len = m.config.win_length as int;
    let row = landing_row(m.cells[column]);
    assert forall|other: u32| has_line(next.cells, other, len) <==> (other == m.active_player
        && wins_at(next.cells, column, row, m.active_player, len)) by {
        law_placement_decides(m.cells, column, row, m.active_player, len, other);
    }
    if wins_at(next.cells, column, row, m.active_player, len) {
        lemma_win_shows_line(next.cells, column, row, m.active_player, len);
    }
}

} // verus!
