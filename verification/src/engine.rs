//! The game engine: one board and the rules parameters, driven one move
//! at a time.

use vstd::prelude::*;
use crate::board::Board;
use crate::grid::Cell;
use crate::laws::{law_initial_state_is_valid, law_step_keeps_invariant, law_token_lands_on_the_stack};
use crate::model::{EngineConfig, GameModel, MoveResult, Outcome, StateView};

verus! {

/// The rules parameters were turned down when a game was set up.
#[derive(Clone, Copy, Debug, PartialEq, Eq)]
pub struct ConfigError;

impl EngineConfig {
    /// Whether the parameters describe a game that can be played.
    pub fn is_valid(&self) -> (ok: bool)
        ensures
            ok == self.valid(),
    {
        self.player_count >= 2 && self.win_length >= 2 && !(self.win_length > self.width
            && self.win_length > self.height)
    }
}

/// A copy of what a renderer needs: the grid, whose turn it is, and how
/// the game stands.
#[derive(Clone, Debug, PartialEq, Eq)]
pub struct GameState {
    /// `cells[x][y]` is the cell in column `x` (from the left), row `y`
    /// (from the top).
    pub cells: Vec<Vec<Cell>>,
    /// The participant to move; after a win, the winner.
    pub active_player: u32,
    /// How the game stands.
    pub outcome: Outcome,
}

impl View for GameState {
    type V = StateView;

    open spec fn view(&self) -> StateView {
        StateView {
            cells: Seq::new(self.cells@.len(), |x: int| self.cells@[x]@),
            active_player: self.active_player,
            outcome: self.outcome,
        }
    }
}

/// A game in play.
#[derive(Clone, Debug)]
pub struct GameEngine {
    config: EngineConfig,
    board: Board,
    active_player: u32,
    outcome: Outcome,
}

impl View for GameEngine {
    type V = GameModel;

    closed spec fn view(&self) -> GameModel {
        GameModel {
            config: self.config,
            cells: self.board@,
            active_player: self.active_player,
            outcome: self.outcome,
        }
    }
}

impl GameEngine {
    /// The engine is in a state that a game can reach: its board matches
    /// its rules parameters and its state satisfies [`GameModel::inv`].
    pub closed spec fn wf(&self) -> bool {
        &&& self.board.wf()
        &&& self.board.spec_width() == self.config.width
        &&& self.board.spec_height() == self.config.height
        &&& self@.inv()
    }

    /// A well-formed engine is in a valid state.
    pub proof fn lemma_wf_implies_inv(&self)
        requires
            self.wf(),
        ensures
            self@.inv(),
    {
    }

    /// Sets up a game on an all-vacant board of `width` columns and
    /// `height` rows, with participant 1 to move.
    ///
    /// Fails if there are fewer than two participants, if the winning run
    /// is shorter than two, or if it is longer than both dimensions of the
    /// board.
    pub fn new(width: usize, height: usize, player_count: u32, win_length: usize) -> (made: Result<
        GameEngine,
        ConfigError,
    >)
        ensures
            made is Ok <==> player_count >= 2 && win_length >= 2 && !(win_length > width
                && win_length > height),
            made matches Ok(engine) ==> {
                &&& engine.wf()
                &&& engine@.config.width == width
                &&& engine@.config.height == height
                &&& engine@.config.player_count == player_count
                &&& engine@.config.win_length == win_length
                &&& engine@ == GameModel::initial(engine@.config)
            },
    {
        let config = EngineConfig { width, height, player_count, win_length };
        if !config.is_valid() {
            return Err(ConfigError);
        }
        let board = Board::new(width, height);
        proof {
            law_initial_state_is_valid(config);
        }
        Ok(GameEngine { config, board, active_player: 1, outcome: Outcome::InProgress })
    }

    /// The rules parameters.
    pub fn config(&self) -> (config: EngineConfig)
        ensures
            config == self@.config,
    {
        self.config
    }

    /// The participant to move; after a win, the winner.
    pub fn active_player(&self) -> (player: u32)
        ensures
            player == self@.active_player,
    {
        self.active_player
    }

    /// How the game stands.
    pub fn outcome(&self) -> (outcome: Outcome)
        ensures
            outcome == self@.outcome,
    {
        self.outcome
    }

    /// The columns that are not full, from left to right. Computed afresh
    /// on every call; empty when the board is full.
    pub fn legal_moves(&self) -> (columns: Vec<usize>)
        requires
            self.wf(),
        ensures
            forall|i: int, j: int|
                0 <= i < j < columns@.len() ==> #[trigger] columns@[i] < #[trigger] columns@[j],
            forall|c: usize| columns@.contains(c) <==> self@.has_room(c as int),
    {
        self.board.open_columns()
    }

    /// Applies the move of the active participant into `column`.
    ///
    /// A game that has ended reports `GameOver`; a column that the board
    /// does not have, `InvalidColumn`; a column without a vacant cell,
    /// `ColumnFull`. None of these changes anything. Otherwise the token
    /// falls to the lowest vacant cell of the column, and the result says
    /// whether it completed a winning run, filled the board, or passed the
    /// turn on.
    pub fn apply_move(&mut self, column: usize) -> (result: MoveResult)
        requires
            old(self).wf(),
        ensures
            final(self).wf(),
            (final(self)@, result) == old(self)@.step(column as int),
            result.is_rejection() ==> *final(self) == *old(self),
    {
        match self.outcome {
            Outcome::InProgress => {},
            _ => {
                return MoveResult::GameOver;
            },
        }
        if column >= self.config.width {
            return MoveResult::InvalidColumn;
        }
        let player: u32 = self.active_player;
        let row: usize = match self.board.drop_token(column, player) {
            None => {
                return MoveResult::ColumnFull;
            },
            Some(row) => row,
        };
        proof {
            law_step_keeps_invariant(old(self)@, column as int);
            law_token_lands_on_the_stack(old(self)@, column as int);
        }
        if self.board.check_win(column, row, player, self.config.win_length) {
            self.outcome = Outcome::Win(player);
            MoveResult::Win(player)
        } else if self.board.is_full() {
            self.outcome = Outcome::Draw;
            MoveResult::Draw
        } else {
            self.active_player = player % self.config.player_count + 1;
            MoveResult::Continue
        }
    }

    /// A copy of the grid, the active participant and the outcome, for
    /// display. Changes nothing.
    pub fn snapshot(&self) -> (state: GameState)
        ensures
            state@ == self@.snapshot(),
    {
        let cells = self.board.cells();
        let state = GameState {
            cells,
            active_player: self.active_player,
            outcome: self.outcome,
        };
        assert(state@.cells =~= self@.cells);
        state
    }
}

} // verus!
