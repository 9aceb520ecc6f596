//! Rules of an N×N tic-tac-toe game: the board, win and draw detection,
//! the turn-by-turn state machine that mediates every placement, and the
//! mapping between board cells and screen pixels.

pub mod field;
pub mod game;
pub mod layout;
pub mod sign;
pub mod win;

pub use field::{rotate_field_90deg, Field};
pub use game::{get_random_player, sign_for_bit, GameState, GameStatus, MoveError};
pub use layout::{board_layout, BoardLayout};
pub use sign::{switch_player, Cell, Sign};
pub use win::{check_draw, check_win, check_win_rows};
