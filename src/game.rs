use vstd::prelude::*;

use rand::Rng;

use crate::field::{empty_grid, is_square, with_mark, Field};
use crate::sign::{opposite, switch_player, Cell, Sign};
use crate::win::{check_draw, check_win, empty_board_is_open, is_full_grid, lemma_mark_helps_only_its_owner, wins};

verus! {

/// Where a game stands.
#[derive(Clone, Copy, Debug, PartialEq, Eq, Structural)]
pub enum GameStatus {
    InProgress,
    Won(Sign),
    Draw,
}

/// Why a move was refused.
#[derive(Clone, Copy, Debug, PartialEq, Eq, Structural)]
pub enum MoveError {
    /// The cell is taken, or the game is already over.
    IllegalMove,
    /// The row or column lies outside the board.
    OutOfBounds,
}

/// The abstract state of a game: the grid, whose turn it is, and the status.
pub struct GameView {
    pub board: Seq<Seq<Cell>>,
    pub turn: Sign,
    pub status: GameStatus,
}

/// The status agrees with the grid: a game in progress has no winner and a
/// free cell; a won game has exactly one winner; a drawn game is full with
/// no winner.
pub open spec fn status_agrees(v: GameView) -> bool {
    match v.status {
        GameStatus::InProgress => !wins(v.board, Sign::X) && !wins(v.board, Sign::O) && !is_full_grid(v.board),
        GameStatus::Won(m) => wins(v.board, m) && !wins(v.board, opposite(m)),
        GameStatus::Draw => is_full_grid(v.board) && !wins(v.board, Sign::X) && !wins(v.board, Sign::O),
    }
}

/// A reachable game: a square grid of at least one row, and a status that
/// agrees with it.
pub open spec fn valid_game(v: GameView) -> bool {
    &&& v.board.len() >= 1
    &&& is_square(v.board)
    &&& status_agrees(v)
}

/// Why a move at (`row`, `col`) is refused, if it is.
pub open spec fn move_error(v: GameView, row: int, col: int) -> Option<MoveError> {
    if v.status != GameStatus::InProgress {
        Some(MoveError::IllegalMove)
    } else if !(0 <= row < v.board.len() && 0 <= col < v.board.len()) {
        Some(MoveError::OutOfBounds)
    } else if v.board[row][col].0 is Some {
        Some(MoveError::IllegalMove)
    } else {
        None
    }
}

/// The status after `s` has moved onto grid `g`: a win takes precedence
/// over a full board.
pub open spec fn outcome(g: Seq<Seq<Cell>>, s: Sign) -> GameStatus {
    if wins(g, s) {
        GameStatus::Won(s)
    } else if is_full_grid(g) {
        GameStatus::Draw
    } else {
        GameStatus::InProgress
    }
}

/// The game after the player to move has taken the free cell (`row`, `col`);
/// the turn passes only while the game goes on.
pub open spec fn after_move(v: GameView, row: int, col: int) -> GameView {
    let board = with_mark(v.board, row, col, v.turn);
    let status = outcome(board, v.turn);
    GameView {
        board,
        turn: if status == GameStatus::InProgress { opposite(v.turn) } else { v.turn },
        status,
    }
}

/// A fresh game on an N×N board with `start` to move.
pub open spec fn fresh_game(n: nat, start: Sign) -> GameView {
    GameView { board: empty_grid(n), turn: start, status: GameStatus::InProgress }
}

/// A move that fills the board without giving anyone a line ends the game
/// in a draw, never in a win.
pub proof fn full_board_without_line_is_draw(v: GameView, row: int, col: int)
    requires
        valid_game(v),
        move_error(v, row, col) is None,
        is_full_grid(after_move(v, row, col).board),
        !wins(after_move(v, row, col).board, Sign::X),
        !wins(after_move(v, row, col).board, Sign::O),
    ensures
        after_move(v, row, col).status == GameStatus::Draw,
        !(after_move(v, row, col).status is Won),
{
}

/// A move that completes a line wins, even when it also fills the board.
pub proof fn winning_move_beats_full_board(v: GameView, row: int, col: int)
    requires
        valid_game(v),
        move_error(v, row, col) is None,
        wins(after_move(v, row, col).board, v.turn),
    ensures
        after_move(v, row, col).status == GameStatus::Won(v.turn),
{
}

/// Two successful moves in a row are made by different marks: the first
/// places the mark whose turn it was, the second the other one.
pub proof fn turns_alternate(v: GameView, r1: int, c1: int, r2: int, c2: int)
    requires
        valid_game(v),
        move_error(v, r1, c1) is None,
        move_error(after_move(v, r1, c1), r2, c2) is None,
    ensures
        after_move(v, r1, c1).board[r1][c1] == Cell(Some(v.turn)),
        after_move(after_move(v, r1, c1), r2, c2).board[r2][c2] == Cell(Some(opposite(v.turn))),
        after_move(v, r1, c1).turn == opposite(v.turn),
        opposite(v.turn) != v.turn,
{
    let w = after_move(v, r1, c1);
    assert(w.status == GameStatus::InProgress);
}

/// A game in play: the board, the mark whose turn it is, and the status.
#[derive(Debug)]
pub struct GameState {
    field: Field,
    current_player: Sign,
    status: GameStatus,
}

impl View for GameState {
    type V = GameView;

    closed spec fn view(&self) -> GameView {
        GameView { board: self.field@, turn: self.current_player, status: self.status }
    }
}

/// Relies on rand's `thread_rng().gen_range` over the inclusive range
/// `0..=1`: the value lies in that range, and the call does not panic
/// because the range is not empty.
#[verifier::external_body]
fn random_bit() -> (b: u32)
    ensures
        b <= 1,
{
    rand::thread_rng().gen_range(0u32..=1u32)
}

/// The mark that a random bit stands for: 0 gives `O`, 1 gives `X`.
pub fn sign_for_bit(bit: u32) -> (s: Sign)
    requires
        bit <= 1,
    ensures
        bit == 0 ==> s == Sign::O,
        bit == 1 ==> s == Sign::X,
{
    if bit == 0 {
        Sign::O
    } else {
        Sign::X
    }
}

/// A starting mark drawn uniformly at random: the mark that one random bit
/// stands for.
pub fn get_random_player() -> (s: Sign)
    ensures
        s == Sign::X || s == Sign::O,
{
    let bit = random_bit();
    sign_for_bit(bit)
}

impl GameState {
    /// A reachable game state.
    pub open spec fn wf(&self) -> bool {
        valid_game(self@)
    }

    proof fn lemma_field_wf(&self)
        requires
            self.wf(),
        ensures
            self.field.wf(),
            self.field@ == self@.board,
    {
    }

    /// A new game on an N×N board with `start` to move.
    pub fn new_game_with(size: usize, start: Sign) -> (g: GameState)
        requires
            size >= 1,
        ensures
            g.wf(),
            g@ == fresh_game(size as nat, start),
    {
        proof {
            empty_board_is_open(size as nat);
        }
        GameState { field: Field::empty(size), current_player: start, status: GameStatus::InProgress }
    }

    /// A new game on an N×N board; the starting mark is drawn at random.
    pub fn new_game(size: usize) -> (g: GameState)
        requires
            size >= 1,
        ensures
            g.wf(),
            g@ == fresh_game(size as nat, g@.turn),
    {
        GameState::new_game_with(size, get_random_player())
    }

    /// Starts over on an empty board of the same size with `start` to move.
    pub fn reset_with(&mut self, start: Sign)
        requires
            old(self).wf(),
        ensures
            final(self).wf(),
            final(self)@ == fresh_game(old(self)@.board.len(), start),
    {
        proof {
            self.lemma_field_wf();
        }
        let size = self.field.row_count();
        *self = GameState::new_game_with(size, start);
    }

    /// Starts over on an empty board of the same size; the starting mark is
    /// drawn at random.
    pub fn reset(&mut self)
        requires
            old(self).wf(),
        ensures
            final(self).wf(),
            final(self)@ == fresh_game(old(self)@.board.len(), final(self)@.turn),
            final(self)@.turn == Sign::X || final(self)@.turn == Sign::O,
    {
        let start = get_random_player();
        self.reset_with(start);
    }

    /// The board.
    pub fn field(&self) -> (f: &Field)
        requires
            self.wf(),
        ensures
            f.wf(),
            f@ == self@.board,
    {
        proof {
            self.lemma_field_wf();
        }
        &self.field
    }

    /// The mark whose turn it is (after a win: the winner).
    pub fn current_player(&self) -> (s: Sign)
        ensures
            s == self@.turn,
    {
        self.current_player
    }

    /// Where the game stands.
    pub fn status(&self) -> (s: GameStatus)
        ensures
            s == self@.status,
    {
        self.status
    }

    /// The player to move takes the cell at (`row`, `col`). Refused, with the
    /// state left as it was, when the game is over or the cell is taken
    /// (`IllegalMove`) or outside the board (`OutOfBounds`). Otherwise the
    /// mark is placed, a win is looked for first and a full board next, and
    /// the turn passes if the game goes on; the new status is returned.
    pub fn apply_move(&mut self, row: usize, col: usize) -> (r: Result<GameStatus, MoveError>)
        requires
            old(self).wf(),
        ensures
            final(self).wf(),
            match move_error(old(self)@, row as int, col as int) {
                Some(e) => r == Err::<GameStatus, MoveError>(e) && final(self)@ == old(self)@,
                None => final(self)@ == after_move(old(self)@, row as int, col as int)
                    && r == Ok::<GameStatus, MoveError>(final(self)@.status),
            },
            old(self)@.status != GameStatus::InProgress ==> r == Err::<GameStatus, MoveError>(MoveError::IllegalMove)
                && final(self)@ == old(self)@,
            row < old(self)@.board.len() && col < old(self)@.board.len()
                && old(self)@.board[row as int][col as int].0 is Some
                ==> r == Err::<GameStatus, MoveError>(MoveError::IllegalMove) && final(self)@ == old(self)@,
    {
        proof {
            self.lemma_field_wf();
        }
        if self.status != GameStatus::InProgress {
            return Err(MoveError::IllegalMove);
        }
        let n = self.field.row_count();
        if row >= n || col >= n {
            return Err(MoveError::OutOfBounds);
        }
        if !self.field.is_cell_empty(row, col) {
            return Err(MoveError::IllegalMove);
        }
        let mover = self.current_player;
        let ghost before = self.field@;
        self.field.place(row, col, mover);
        proof {
            lemma_mark_helps_only_its_owner(before, row as int, col as int, mover);
        }
        if check_win(&self.field, &mover) {
            self.status = GameStatus::Won(mover);
        } else if check_draw(&self.field) {
            self.status = GameStatus::Draw;
        } else {
            switch_player(&mut self.current_player);
        }
        Ok(self.status)
    }
}

} // verus!
