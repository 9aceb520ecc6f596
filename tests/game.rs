use tic_tac_toe::{get_random_player, sign_for_bit, Cell, GameState, GameStatus, MoveError, Sign};

fn play(g: &mut GameState, moves: &[(usize, usize)]) -> Vec<Result<GameStatus, MoveError>> {
    moves.iter().map(|&(r, c)| g.apply_move(r, c)).collect()
}

#[test]
fn new_game_is_empty_and_in_progress() {
    let g = GameState::new_game_with(3, Sign::O);
    assert_eq!(g.status(), GameStatus::InProgress);
    assert_eq!(g.current_player(), Sign::O);
    for r in 0..3 {
        for c in 0..3 {
            assert!(g.field().is_cell_empty(r, c));
        }
    }
    let h = GameState::new_game(5);
    assert_eq!(h.field().row_count(), 5);
    assert_eq!(h.status(), GameStatus::InProgress);
}

#[test]
fn move_places_current_mark_and_passes_turn() {
    let mut g = GameState::new_game_with(3, Sign::X);
    assert_eq!(g.apply_move(1, 1), Ok(GameStatus::InProgress));
    assert_eq!(g.field().cell(1, 1), Cell(Some(Sign::X)));
    assert_eq!(g.current_player(), Sign::O);
    assert_eq!(g.apply_move(0, 2), Ok(GameStatus::InProgress));
    assert_eq!(g.field().cell(0, 2), Cell(Some(Sign::O)));
    assert_eq!(g.current_player(), Sign::X);
}

#[test]
fn turns_alternate_strictly() {
    let mut g = GameState::new_game_with(4, Sign::O);
    let mut expected = Sign::O;
    for (r, c) in [(0, 0), (3, 3), (1, 2), (2, 1), (0, 3)] {
        assert_eq!(g.current_player(), expected);
        assert_eq!(g.apply_move(r, c), Ok(GameStatus::InProgress));
        assert_eq!(g.field().cell(r, c), Cell(Some(expected)));
        expected = expected.toggle();
    }
}

#[test]
fn occupied_cell_is_illegal_and_changes_nothing() {
    let mut g = GameState::new_game_with(3, Sign::X);
    g.apply_move(0, 0).unwrap();
    assert_eq!(g.apply_move(0, 0), Err(MoveError::IllegalMove));
    assert_eq!(g.current_player(), Sign::O);
    assert_eq!(g.status(), GameStatus::InProgress);
    assert_eq!(g.field().cell(0, 0), Cell(Some(Sign::X)));
    let taken = (0..3).flat_map(|r| (0..3).map(move |c| (r, c))).filter(|&(r, c)| !g.field().is_cell_empty(r, c)).count();
    assert_eq!(taken, 1);
}

#[test]
fn out_of_bounds_is_refused() {
    let mut g = GameState::new_game_with(3, Sign::X);
    assert_eq!(g.apply_move(3, 0), Err(MoveError::OutOfBounds));
    assert_eq!(g.apply_move(0, 3), Err(MoveError::OutOfBounds));
    assert_eq!(g.apply_move(usize::MAX, usize::MAX), Err(MoveError::OutOfBounds));
    assert_eq!(g.current_player(), Sign::X);
    assert_eq!(g.status(), GameStatus::InProgress);
    assert!(!tic_tac_toe::check_draw(g.field()));
}

#[test]
fn filling_move_without_line_is_a_draw() {
    let mut g = GameState::new_game_with(3, Sign::X);
    let results = play(&mut g, &[(0, 0), (0, 1), (0, 2), (1, 1), (1, 0), (1, 2), (2, 1), (2, 0)]);
    assert!(results.iter().all(|r| *r == Ok(GameStatus::InProgress)));
    assert_eq!(g.apply_move(2, 2), Ok(GameStatus::Draw));
    assert_eq!(g.status(), GameStatus::Draw);
}

#[test]
fn win_on_filling_move_beats_draw() {
    let mut g = GameState::new_game_with(3, Sign::X);
    let results = play(&mut g, &[(0, 0), (0, 1), (0, 2), (1, 0), (1, 1), (1, 2), (2, 1), (2, 0)]);
    assert!(results.iter().all(|r| *r == Ok(GameStatus::InProgress)));
    assert_eq!(g.apply_move(2, 2), Ok(GameStatus::Won(Sign::X)));
    assert!(tic_tac_toe::check_draw(g.field()));
    assert_eq!(g.status(), GameStatus::Won(Sign::X));
    assert_eq!(g.current_player(), Sign::X);
}

#[test]
fn column_win_ends_game() {
    let mut g = GameState::new_game_with(3, Sign::O);
    let results = play(&mut g, &[(0, 2), (0, 0), (1, 2), (1, 1)]);
    assert!(results.iter().all(|r| *r == Ok(GameStatus::InProgress)));
    assert_eq!(g.apply_move(2, 2), Ok(GameStatus::Won(Sign::O)));
}

#[test]
fn finished_game_refuses_moves() {
    let mut g = GameState::new_game_with(3, Sign::X);
    play(&mut g, &[(0, 0), (1, 0), (0, 1), (1, 1)]);
    assert_eq!(g.apply_move(0, 2), Ok(GameStatus::Won(Sign::X)));
    assert_eq!(g.apply_move(2, 2), Err(MoveError::IllegalMove));
    assert_eq!(g.apply_move(0, 0), Err(MoveError::IllegalMove));
    assert_eq!(g.apply_move(9, 9), Err(MoveError::IllegalMove));
    assert_eq!(g.status(), GameStatus::Won(Sign::X));
    assert_eq!(g.current_player(), Sign::X);
    assert!(g.field().is_cell_empty(2, 2));

    let mut d = GameState::new_game_with(3, Sign::X);
    play(&mut d, &[(0, 0), (0, 1), (0, 2), (1, 1), (1, 0), (1, 2), (2, 1), (2, 0), (2, 2)]);
    assert_eq!(d.status(), GameStatus::Draw);
    assert_eq!(d.apply_move(1, 1), Err(MoveError::IllegalMove));
    assert_eq!(d.status(), GameStatus::Draw);
}

#[test]
fn reset_gives_fresh_game() {
    let mut g = GameState::new_game_with(3, Sign::X);
    play(&mut g, &[(0, 0), (1, 0), (0, 1), (1, 1), (0, 2)]);
    assert_eq!(g.status(), GameStatus::Won(Sign::X));
    g.reset();
    assert_eq!(g.status(), GameStatus::InProgress);
    assert!(g.current_player() == Sign::X || g.current_player() == Sign::O);
    assert_eq!(g.field().row_count(), 3);
    for r in 0..3 {
        for c in 0..3 {
            assert!(g.field().is_cell_empty(r, c));
        }
    }
    assert_eq!(g.apply_move(0, 0), Ok(GameStatus::InProgress));
}

#[test]
fn reset_with_fixed_start_is_deterministic() {
    let mut g = GameState::new_game_with(3, Sign::X);
    g.apply_move(1, 1).unwrap();
    g.reset_with(Sign::O);
    assert_eq!(g.current_player(), Sign::O);
    assert_eq!(g.status(), GameStatus::InProgress);
    assert!(g.field().is_cell_empty(1, 1));
    g.reset_with(Sign::X);
    assert_eq!(g.current_player(), Sign::X);
}

#[test]
fn random_start_draws_both_marks() {
    let draws: Vec<Sign> = (0..200).map(|_| get_random_player()).collect();
    assert!(draws.contains(&Sign::X));
    assert!(draws.contains(&Sign::O));
}

#[test]
fn bit_picks_starting_mark() {
    assert_eq!(sign_for_bit(0), Sign::O);
    assert_eq!(sign_for_bit(1), Sign::X);
    let mut g = GameState::new_game_with(3, Sign::O);
    g.reset_with(sign_for_bit(1));
    assert_eq!(g.current_player(), Sign::X);
    g.reset_with(sign_for_bit(0));
    assert_eq!(g.current_player(), Sign::O);
}
