//! The game as a mathematical state machine: the rules parameters, the
//! state, and the transition that one move makes.

use vstd::prelude::*;
use crate::grid::{
    Cell, all_settled, board_full, column_full, empty_grid, has_line, is_grid, landing_row,
    no_lines, owners_within, place, wins_at,
};

verus! {

/// The rules parameters, fixed when a game is set up.
#[derive(Clone, Copy, Debug, PartialEq, Eq, Structural)]
pub struct EngineConfig {
    /// The number of columns.
    pub width: usize,
    /// The number of rows.
    pub height: usize,
    /// The number of participants, who move in rotation.
    pub player_count: u32,
    /// The length of the run that wins the game.
    pub win_length: usize,
}

/// How the game stands.
#[derive(Clone, Copy, Debug, PartialEq, Eq, Structural)]
pub enum Outcome {
    /// Moves are still accepted.
    InProgress,
    /// The participant with this id completed a winning run.
    Win(u32),
    /// The board filled up without a winning run.
    Draw,
}

/// What a call to apply a move reports.
#[derive(Clone, Copy, Debug, PartialEq, Eq, Structural)]
pub enum MoveResult {
    /// The token was placed and the next participant is to move.
    Continue,
    /// The token was placed and completed a winning run for this participant.
    Win(u32),
    /// The token was placed and filled the board without a winning run.
    Draw,
    /// Rejected: the board has no column of that index.
    InvalidColumn,
    /// Rejected: the column has no vacant cell.
    ColumnFull,
    /// Rejected: the game has already ended.
    GameOver,
}

impl MoveResult {
    /// The move was turned down and nothing was placed.
    pub open spec fn is_rejection(self) -> bool {
        self is InvalidColumn || self is ColumnFull || self is GameOver
    }
}

/// The participant who moves after `active` in a rotation of `players`.
pub open spec fn next_player(active: u32, players: u32) -> u32 {
    ((active % players) + 1) as u32
}

impl EngineConfig {
    /// At least two participants, a winning run of at least two, and a
    /// board on which such a run fits along at least one dimension.
    pub open spec fn valid(self) -> bool {
        &&& self.player_count >= 2
        &&& self.win_length >= 2
        &&& !(self.win_length > self.width && self.win_length > self.height)
    }
}

/// The state of a game: the rules, the grid, whose turn it is, and how the
/// game stands.
pub struct GameModel {
    /// The rules parameters.
    pub config: EngineConfig,
    /// The grid, column by column, each column from the top row down.
    pub cells: Seq<Seq<Cell>>,
    /// The participant to move; after a win, the winner.
    pub active_player: u32,
    /// How the game stands.
    pub outcome: Outcome,
}

/// What a renderer is shown of a state.
pub struct StateView {
    /// The grid, column by column, each column from the top row down.
    pub cells: Seq<Seq<Cell>>,
    /// The participant to move; after a win, the winner.
    pub active_player: u32,
    /// How the game stands.
    pub outcome: Outcome,
}

impl GameModel {
    /// The state in which a game with the given rules starts: an
    /// all-vacant grid, participant 1 to move.
    pub open spec fn initial(config: EngineConfig) -> GameModel {
        GameModel {
            config,
            cells: empty_grid(config.width as nat, config.height as nat),
            active_player: 1,
            outcome: Outcome::InProgress,
        }
    }

    /// What holds of every state that a game can reach.
    ///
    /// The grid has the configured dimensions, every column obeys gravity,
    /// every token and the active participant are within `1..=N`, and the
    /// outcome classifies the grid: while the game is in progress nobody
    /// owns a winning line and a vacant cell is left (unless the board has
    /// no cells at all); after a win the winner, who stays the active
    /// participant, and nobody else owns one; after a draw the board is
    /// full and nobody owns one.
    pub open spec fn inv(self) -> bool {
        &&& self.config.valid()
        &&& is_grid(self.cells, self.config.width as int, self.config.height as int)
        &&& all_settled(self.cells)
        &&& owners_within(self.cells, self.config.player_count as int)
        &&& 1 <= self.active_player <= self.config.player_count
        &&& match self.outcome {
            Outcome::InProgress => {
                &&& no_lines(self.cells, self.config.win_length as int)
                &&& board_full(self.cells) ==> self.config.width == 0 || self.config.height == 0
            },
            Outcome::Win(winner) => {
                &&& winner == self.active_player
                &&& has_line(self.cells, winner, self.config.win_length as int)
                &&& forall|other: u32|
                    has_line(self.cells, other, self.config.win_length as int) ==> other == winner
            },
            Outcome::Draw => {
                &&& board_full(self.cells)
                &&& no_lines(self.cells, self.config.win_length as int)
            },
        }
    }

    /// The board has a column `column` and it has a vacant cell.
    pub open spec fn has_room(self, column: int) -> bool {
        0 <= column < self.config.width && !column_full(self.cells[column])
    }

    /// One move: the state after the active participant asks to drop a
    /// token into `column`, and what is reported.
    ///
    /// The checks come in this order: a game that has ended takes no move;
    /// the column must exist; the column must have a vacant cell. Then the
    /// token comes to rest in the landing row of the column. If the run
    /// through it reaches the winning length, the active participant wins
    /// and stays active. Else, if the board is now full, the game is drawn.
    /// Else the turn passes to the next participant.
    pub open spec fn step(self, column: int) -> (GameModel, MoveResult) {
        if !(self.outcome is InProgress) {
            (self, MoveResult::GameOver)
        } else if !(0 <= column < self.config.width) {
            (self, MoveResult::InvalidColumn)
        } else if column_full(self.cells[column]) {
            (self, MoveResult::ColumnFull)
        } else {
            let player = self.active_player;
            let row = landing_row(self.cells[column]);
            let cells = place(self.cells, column, row, player);
            if wins_at(cells, column, row, player, self.config.win_length as int) {
                (
                    GameModel {
                        config: self.config,
                        cells,
                        active_player: player,
                        outcome: Outcome::Win(player),
                    },
                    MoveResult::Win(player),
                )
            } else if board_full(cells) {
                (
                    GameModel {
                        config: self.config,
                        cells,
                        active_player: player,
                        outcome: Outcome::Draw,
                    },
                    MoveResult::Draw,
                )
            } else {
                (
                    GameModel {
                        config: self.config,
                        cells,
                        active_player: next_player(player, self.config.player_count),
                        outcome: Outcome::InProgress,
                    },
                    MoveResult::Continue,
                )
            }
        }
    }

    /// The state after the moves `columns` are asked for in turn, rejected
    /// ones included.
    pub open spec fn play(self, columns: Seq<int>) -> GameModel
        decreases columns.len(),
    {
        if columns.len() == 0 {
            self
        } else {
            self.play(columns.drop_last()).step(columns.last()).0
        }
    }

    /// What a renderer is shown of the state.
    pub open spec fn snapshot(self) -> StateView {
        StateView {
            cells: self.cells,
            active_player: self.active_player,
            outcome: self.outcome,
        }
    }
}

} // verus!
