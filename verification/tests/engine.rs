use connect_n::{Cell, ConfigError, EngineConfig, GameEngine, GameState, MoveResult, Outcome};

fn engine(width: usize, height: usize, players: u32, win_length: usize) -> GameEngine {
    GameEngine::new(width, height, players, win_length).unwrap()
}

fn play(engine: &mut GameEngine, columns: &[usize]) -> Vec<MoveResult> {
    columns.iter().map(|c| engine.apply_move(*c)).collect()
}

fn obeys_gravity(state: &GameState) -> bool {
    state.cells.iter().all(|column| {
        let first_token = column.iter().position(|c| *c != Cell::Vacant).unwrap_or(column.len());
        column[first_token..].iter().all(|c| *c != Cell::Vacant)
    })
}

#[test]
fn new_game_starts_vacant_with_player_one() {
    let e = engine(7, 6, 2, 4);
    let s = e.snapshot();
    assert_eq!(s.cells.len(), 7);
    assert!(s.cells.iter().all(|column| column.len() == 6));
    assert!(s.cells.iter().flatten().all(|c| *c == Cell::Vacant));
    assert_eq!(s.active_player, 1);
    assert_eq!(s.outcome, Outcome::InProgress);
    assert_eq!(e.active_player(), 1);
    assert_eq!(e.outcome(), Outcome::InProgress);
    assert_eq!(
        e.config(),
        EngineConfig { width: 7, height: 6, player_count: 2, win_length: 4 }
    );
}

#[test]
fn new_rejects_win_length_beyond_both_dimensions() {
    assert_eq!(GameEngine::new(2, 2, 2, 5).err(), Some(ConfigError));
}

#[test]
fn new_rejects_fewer_than_two_players() {
    assert!(GameEngine::new(7, 6, 1, 4).is_err());
    assert!(GameEngine::new(7, 6, 0, 4).is_err());
    assert!(GameEngine::new(3, 3, 1, 3).is_err());
}

#[test]
fn new_rejects_win_length_below_two() {
    assert!(GameEngine::new(7, 6, 2, 1).is_err());
    assert!(GameEngine::new(7, 6, 2, 0).is_err());
}

#[test]
fn new_accepts_win_length_that_fits_one_dimension() {
    assert!(GameEngine::new(2, 5, 2, 5).is_ok());
    assert!(GameEngine::new(5, 2, 2, 5).is_ok());
    assert!(GameEngine::new(5, 5, 2, 5).is_ok());
    assert!(GameEngine::new(4, 4, 2, 5).is_err());
    assert!(GameEngine::new(2, 2, 2, 2).is_ok());
}

#[test]
fn config_validity_matches_construction() {
    assert!(EngineConfig { width: 13, height: 11, player_count: 4, win_length: 3 }.is_valid());
    assert!(!EngineConfig { width: 2, height: 2, player_count: 2, win_length: 5 }.is_valid());
    assert!(!EngineConfig { width: 7, height: 6, player_count: 1, win_length: 4 }.is_valid());
    assert!(!EngineConfig { width: 7, height: 6, player_count: 2, win_length: 1 }.is_valid());
}

#[test]
fn legal_moves_lists_all_columns_of_a_new_board() {
    let e = engine(4, 3, 2, 3);
    assert_eq!(e.legal_moves(), vec![0, 1, 2, 3]);
}

#[test]
fn legal_moves_leaves_out_full_columns() {
    let mut e = engine(3, 2, 2, 3);
    assert_eq!(play(&mut e, &[1, 1]), vec![MoveResult::Continue, MoveResult::Continue]);
    assert_eq!(e.legal_moves(), vec![0, 2]);
    assert_eq!(play(&mut e, &[0, 0]), vec![MoveResult::Continue, MoveResult::Continue]);
    assert_eq!(e.legal_moves(), vec![2]);
}

#[test]
fn legal_moves_is_empty_on_a_full_board() {
    let mut e = engine(3, 2, 2, 3);
    play(&mut e, &[0, 1, 2, 0, 1, 2]);
    assert_eq!(e.legal_moves(), Vec::<usize>::new());
}

#[test]
fn legal_moves_changes_nothing() {
    let mut e = engine(4, 3, 2, 3);
    play(&mut e, &[0, 0, 2]);
    let before = e.snapshot();
    let first = e.legal_moves();
    let second = e.legal_moves();
    assert_eq!(first, second);
    assert_eq!(e.snapshot(), before);
}

#[test]
fn token_lands_in_lowest_vacant_cell() {
    let mut e = engine(3, 4, 2, 3);
    assert_eq!(e.apply_move(1), MoveResult::Continue);
    let s = e.snapshot();
    assert_eq!(s.cells[1][3], Cell::Owned(1));
    assert_eq!(s.cells[1][2], Cell::Vacant);
    assert_eq!(s.cells[1][1], Cell::Vacant);
    assert_eq!(s.cells[1][0], Cell::Vacant);
    assert!(s.cells[0].iter().all(|c| *c == Cell::Vacant));
    assert!(s.cells[2].iter().all(|c| *c == Cell::Vacant));
}

#[test]
fn repeated_drops_fill_a_column_bottom_up() {
    let height = 5;
    let mut e = engine(2, height, 2, 5);
    for k in 0..height {
        let mover = e.active_player();
        let result = e.apply_move(0);
        let s = e.snapshot();
        let row = height - 1 - k;
        assert_eq!(s.cells[0][row], Cell::Owned(mover));
        for y in 0..row {
            assert_eq!(s.cells[0][y], Cell::Vacant);
        }
        for y in row..height {
            assert_ne!(s.cells[0][y], Cell::Vacant);
        }
        assert_eq!(result, MoveResult::Continue);
    }
    assert_eq!(
        e.snapshot().cells[0],
        vec![
            Cell::Owned(1),
            Cell::Owned(2),
            Cell::Owned(1),
            Cell::Owned(2),
            Cell::Owned(1)
        ]
    );
}

#[test]
fn turn_rotates_round_robin() {
    let mut e = engine(13, 11, 4, 3);
    let mut seen = Vec::new();
    for column in [0usize, 2, 4, 6, 8, 10, 12, 1, 3] {
        seen.push(e.active_player());
        assert_eq!(e.apply_move(column), MoveResult::Continue);
    }
    assert_eq!(seen, vec![1, 2, 3, 4, 1, 2, 3, 4, 1]);
    assert_eq!(e.active_player(), 2);
}

#[test]
fn rejected_move_does_not_pass_the_turn() {
    let mut e = engine(3, 3, 3, 3);
    assert_eq!(e.apply_move(0), MoveResult::Continue);
    assert_eq!(e.active_player(), 2);
    assert_eq!(e.apply_move(3), MoveResult::InvalidColumn);
    assert_eq!(e.active_player(), 2);
    assert_eq!(e.apply_move(1), MoveResult::Continue);
    assert_eq!(e.active_player(), 3);
    assert_eq!(e.apply_move(1), MoveResult::Continue);
    assert_eq!(e.active_player(), 1);
}

#[test]
fn horizontal_run_of_three_wins() {
    let mut e = engine(4, 4, 2, 3);
    assert_eq!(
        play(&mut e, &[0, 0, 1, 1]),
        vec![MoveResult::Continue; 4]
    );
    assert_eq!(e.apply_move(2), MoveResult::Win(1));
    let s = e.snapshot();
    assert_eq!(s.outcome, Outcome::Win(1));
    assert_eq!(s.active_player, 1);
    assert_eq!(s.cells[0][3], Cell::Owned(1));
    assert_eq!(s.cells[1][3], Cell::Owned(1));
    assert_eq!(s.cells[2][3], Cell::Owned(1));
}

#[test]
fn vertical_stack_of_three_wins() {
    let mut e = engine(4, 4, 2, 3);
    assert_eq!(
        play(&mut e, &[0, 1, 0, 1]),
        vec![MoveResult::Continue; 4]
    );
    assert_eq!(e.apply_move(0), MoveResult::Win(1));
    assert_eq!(e.outcome(), Outcome::Win(1));
    assert_eq!(e.active_player(), 1);
}

#[test]
fn second_player_can_win() {
    let mut e = engine(4, 4, 2, 3);
    assert_eq!(
        play(&mut e, &[0, 1, 0, 1, 3]),
        vec![MoveResult::Continue; 5]
    );
    assert_eq!(e.apply_move(1), MoveResult::Win(2));
    assert_eq!(e.outcome(), Outcome::Win(2));
    assert_eq!(e.active_player(), 2);
}

#[test]
fn rising_diagonal_wins() {
    let mut e = engine(4, 4, 2, 3);
    assert_eq!(
        play(&mut e, &[0, 1, 1, 2, 3, 2]),
        vec![MoveResult::Continue; 6]
    );
    assert_eq!(e.apply_move(2), MoveResult::Win(1));
    let s = e.snapshot();
    assert_eq!(s.cells[0][3], Cell::Owned(1));
    assert_eq!(s.cells[1][2], Cell::Owned(1));
    assert_eq!(s.cells[2][1], Cell::Owned(1));
}

#[test]
fn falling_diagonal_wins() {
    let mut e = engine(4, 4, 2, 3);
    assert_eq!(
        play(&mut e, &[3, 2, 2, 1, 0, 1]),
        vec![MoveResult::Continue; 6]
    );
    assert_eq!(e.apply_move(1), MoveResult::Win(1));
    let s = e.snapshot();
    assert_eq!(s.cells[3][3], Cell::Owned(1));
    assert_eq!(s.cells[2][2], Cell::Owned(1));
    assert_eq!(s.cells[1][1], Cell::Owned(1));
}

#[test]
fn diagonal_completed_at_its_lower_end_wins() {
    // The tokens at (1, 2) and (2, 1) are placed first; the bottom cell
    // (0, 3) completes the rising diagonal.
    let mut e = engine(4, 4, 2, 3);
    assert_eq!(
        play(&mut e, &[3, 1, 1, 2, 3, 2, 2, 1]),
        vec![MoveResult::Continue; 8]
    );
    let s = e.snapshot();
    assert_eq!(s.cells[1][2], Cell::Owned(1));
    assert_eq!(s.cells[2][1], Cell::Owned(1));
    assert_eq!(e.active_player(), 1);
    assert_eq!(e.apply_move(0), MoveResult::Win(1));
}

#[test]
fn run_completed_in_the_middle_wins() {
    let mut e = engine(5, 4, 2, 4);
    // Player 1 takes the bottom cells of columns 0, 1 and 3, then column 2.
    assert_eq!(
        play(&mut e, &[0, 0, 1, 1, 3, 3]),
        vec![MoveResult::Continue; 6]
    );
    assert_eq!(e.apply_move(2), MoveResult::Win(1));
}

#[test]
fn run_longer_than_win_length_wins() {
    let mut e = engine(5, 4, 2, 3);
    // Bottom row: 1 1 _ 1 1, then player 1 fills the gap: a run of five.
    assert_eq!(
        play(&mut e, &[0, 0, 1, 1, 3, 3, 4, 4]),
        vec![MoveResult::Continue; 8]
    );
    assert_eq!(e.apply_move(2), MoveResult::Win(1));
}

#[test]
fn run_is_broken_by_another_owner() {
    let mut e = engine(5, 4, 2, 3);
    // Bottom row after these moves: 1 2 1 2 1.
    assert_eq!(
        play(&mut e, &[0, 1, 2, 3, 4]),
        vec![MoveResult::Continue; 5]
    );
    assert_eq!(e.outcome(), Outcome::InProgress);
}

#[test]
fn full_board_without_a_run_is_a_draw() {
    let mut e = engine(3, 2, 2, 3);
    assert_eq!(
        play(&mut e, &[0, 1, 2, 0, 1]),
        vec![MoveResult::Continue; 5]
    );
    assert_eq!(e.apply_move(2), MoveResult::Draw);
    let s = e.snapshot();
    assert_eq!(s.outcome, Outcome::Draw);
    assert!(s.cells.iter().flatten().all(|c| *c != Cell::Vacant));
    assert_eq!(s.active_player, 2);
}

#[test]
fn single_column_fills_up_to_a_draw() {
    let mut e = engine(1, 4, 2, 4);
    assert_eq!(play(&mut e, &[0, 0, 0]), vec![MoveResult::Continue; 3]);
    assert_eq!(e.apply_move(0), MoveResult::Draw);
    assert_eq!(e.outcome(), Outcome::Draw);
}

#[test]
fn win_on_the_last_cell_is_a_win_not_a_draw() {
    // Three participants on a 3 x 3 board. The last vacant cell is the top
    // of column 2, and it completes a vertical run for participant 3.
    let mut e = engine(3, 3, 3, 3);
    assert_eq!(
        play(&mut e, &[0, 1, 2, 0, 1, 2, 1, 0]),
        vec![MoveResult::Continue; 8]
    );
    assert_eq!(e.legal_moves(), vec![2]);
    assert_eq!(e.apply_move(2), MoveResult::Win(3));
    assert_eq!(e.outcome(), Outcome::Win(3));
    assert_eq!(e.active_player(), 3);
    assert!(e.snapshot().cells.iter().flatten().all(|c| *c != Cell::Vacant));
}

#[test]
fn invalid_column_is_rejected() {
    let mut e = engine(3, 3, 2, 3);
    assert_eq!(e.apply_move(3), MoveResult::InvalidColumn);
    assert_eq!(e.apply_move(usize::MAX), MoveResult::InvalidColumn);
    assert_eq!(e.apply_move(2), MoveResult::Continue);
}

#[test]
fn full_column_is_rejected_and_board_unchanged() {
    let mut e = engine(2, 2, 2, 2);
    assert_eq!(play(&mut e, &[0, 0]), vec![MoveResult::Continue; 2]);
    let before = e.snapshot();
    assert_eq!(e.apply_move(0), MoveResult::ColumnFull);
    assert_eq!(e.snapshot(), before);
    assert_eq!(e.active_player(), 1);
    assert_eq!(e.outcome(), Outcome::InProgress);
    assert_eq!(e.apply_move(0), MoveResult::ColumnFull);
    assert_eq!(e.snapshot(), before);
}

#[test]
fn move_after_win_is_game_over() {
    let mut e = engine(4, 4, 2, 3);
    play(&mut e, &[0, 0, 1, 1]);
    assert_eq!(e.apply_move(2), MoveResult::Win(1));
    let before = e.snapshot();
    assert_eq!(e.apply_move(3), MoveResult::GameOver);
    assert_eq!(e.snapshot(), before);
    assert_eq!(e.active_player(), 1);
    assert_eq!(e.outcome(), Outcome::Win(1));
}

#[test]
fn move_after_draw_is_game_over() {
    let mut e = engine(3, 2, 2, 3);
    play(&mut e, &[0, 1, 2, 0, 1, 2]);
    assert_eq!(e.outcome(), Outcome::Draw);
    let before = e.snapshot();
    assert_eq!(e.apply_move(0), MoveResult::GameOver);
    assert_eq!(e.snapshot(), before);
}

#[test]
fn game_over_is_checked_before_the_column() {
    let mut e = engine(4, 4, 2, 3);
    play(&mut e, &[0, 0, 1, 1, 2]);
    assert_eq!(e.outcome(), Outcome::Win(1));
    assert_eq!(e.apply_move(99), MoveResult::GameOver);
    let mut d = engine(3, 2, 2, 3);
    play(&mut d, &[0, 1, 2, 0, 1, 2]);
    assert_eq!(d.apply_move(0), MoveResult::GameOver);
    assert_eq!(d.apply_move(7), MoveResult::GameOver);
}

#[test]
fn snapshot_is_the_same_before_and_after_each_rejection() {
    let mut e = engine(3, 2, 2, 3);
    play(&mut e, &[1, 1]);
    let before = e.snapshot();
    assert_eq!(e.apply_move(5), MoveResult::InvalidColumn);
    assert_eq!(e.snapshot(), before);
    assert_eq!(e.apply_move(1), MoveResult::ColumnFull);
    assert_eq!(e.snapshot(), before);
    play(&mut e, &[0, 2, 2, 0]);
    assert_eq!(e.outcome(), Outcome::Draw);
    let ended = e.snapshot();
    assert_eq!(e.apply_move(0), MoveResult::GameOver);
    assert_eq!(e.snapshot(), ended);
}

#[test]
fn snapshot_is_a_copy() {
    let mut e = engine(3, 3, 2, 3);
    let first = e.snapshot();
    assert_eq!(e.apply_move(0), MoveResult::Continue);
    assert_eq!(first.cells[0][2], Cell::Vacant);
    assert_eq!(first.active_player, 1);
    let second = e.snapshot();
    assert_ne!(first, second);
    assert_eq!(second.cells[0][2], Cell::Owned(1));
    assert_eq!(second.active_player, 2);
}

#[test]
fn gravity_holds_after_every_move() {
    let mut e = engine(5, 4, 3, 4);
    let columns = [2usize, 2, 0, 4, 2, 9, 2, 2, 1, 0, 3, 3, 4, 1, 1, 0, 0, 0];
    for column in columns {
        let legal = e.legal_moves();
        let before = e.snapshot();
        let result = e.apply_move(column);
        let after = e.snapshot();
        assert!(obeys_gravity(&after));
        assert_eq!(after.cells.len(), 5);
        assert!(after.cells.iter().all(|c| c.len() == 4));
        assert!(1 <= after.active_player && after.active_player <= 3);
        let accepted = matches!(
            result,
            MoveResult::Continue | MoveResult::Win(_) | MoveResult::Draw
        );
        if before.outcome == Outcome::InProgress {
            assert_eq!(accepted, legal.contains(&column));
        } else {
            assert_eq!(result, MoveResult::GameOver);
        }
        if !accepted {
            assert_eq!(before, after);
        }
        for c in e.legal_moves() {
            assert_eq!(after.cells[c][0], Cell::Vacant);
        }
    }
}

#[test]
fn board_without_columns_takes_no_move() {
    let mut e = engine(0, 3, 2, 3);
    assert_eq!(e.legal_moves(), Vec::<usize>::new());
    assert_eq!(e.outcome(), Outcome::InProgress);
    assert_eq!(e.apply_move(0), MoveResult::InvalidColumn);
    assert_eq!(e.snapshot().cells.len(), 0);
}

#[test]
fn board_without_rows_has_only_full_columns() {
    let mut e = engine(3, 0, 2, 3);
    assert_eq!(e.legal_moves(), Vec::<usize>::new());
    assert_eq!(e.apply_move(1), MoveResult::ColumnFull);
    assert_eq!(e.apply_move(3), MoveResult::InvalidColumn);
    assert_eq!(e.outcome(), Outcome::InProgress);
}

#[test]
fn four_players_on_the_large_board() {
    let mut e = engine(13, 11, 4, 3);
    // Each participant stacks in a column of its own; player 1 completes a
    // vertical run of three first.
    assert_eq!(
        play(&mut e, &[0, 3, 6, 9, 0, 3, 6, 9]),
        vec![MoveResult::Continue; 8]
    );
    assert_eq!(e.apply_move(0), MoveResult::Win(1));
    let s = e.snapshot();
    assert_eq!(s.cells[0][10], Cell::Owned(1));
    assert_eq!(s.cells[0][9], Cell::Owned(1));
    assert_eq!(s.cells[0][8], Cell::Owned(1));
    assert_eq!(s.cells[3][10], Cell::Owned(2));
    assert_eq!(s.cells[6][10], Cell::Owned(3));
    assert_eq!(s.cells[9][10], Cell::Owned(4));
}
