use vstd::prelude::*;

use crate::field::{empty_grid, is_square, rotate_field_90deg, rotated, with_mark, Field};
use crate::sign::{opposite, Cell, Sign};

verus! {

/// Every cell of row `r` holds `s`.
pub open spec fn row_full_of(g: Seq<Seq<Cell>>, r: int, s: Sign) -> bool {
    forall|c: int| 0 <= c < g.len() ==> #[trigger] g[r][c] == Cell(Some(s))
}

/// Every cell of column `c` holds `s`.
pub open spec fn column_full_of(g: Seq<Seq<Cell>>, c: int, s: Sign) -> bool {
    forall|r: int| 0 <= r < g.len() ==> #[trigger] g[r][c] == Cell(Some(s))
}

/// Every cell on the main diagonal (i, i) holds `s`.
pub open spec fn diagonal_full_of(g: Seq<Seq<Cell>>, s: Sign) -> bool {
    forall|i: int| 0 <= i < g.len() ==> #[trigger] g[i][i] == Cell(Some(s))
}

/// Every cell on the anti-diagonal (i, N-1-i) holds `s`.
pub open spec fn anti_diagonal_full_of(g: Seq<Seq<Cell>>, s: Sign) -> bool {
    forall|i: int| 0 <= i < g.len() ==> #[trigger] g[i][g.len() - 1 - i] == Cell(Some(s))
}

/// Some row is entirely `s`.
pub open spec fn has_full_row(g: Seq<Seq<Cell>>, s: Sign) -> bool {
    exists|r: int| 0 <= r < g.len() && #[trigger] row_full_of(g, r, s)
}

/// Some column is entirely `s`.
pub open spec fn has_full_column(g: Seq<Seq<Cell>>, s: Sign) -> bool {
    exists|c: int| 0 <= c < g.len() && #[trigger] column_full_of(g, c, s)
}

/// `s` holds a whole row, column or diagonal of the grid.
pub open spec fn wins(g: Seq<Seq<Cell>>, s: Sign) -> bool {
    ||| has_full_row(g, s)
    ||| has_full_column(g, s)
    ||| diagonal_full_of(g, s)
    ||| anti_diagonal_full_of(g, s)
}

/// Every cell of the grid holds a mark.
pub open spec fn is_full_grid(g: Seq<Seq<Cell>>) -> bool {
    forall|r: int, c: int| 0 <= r < g.len() && 0 <= c < g.len() ==> (#[trigger] g[r][c]).0 is Some
}

/// The rows of a quarter-turned square grid are the columns of the grid.
pub proof fn lemma_rotated_rows_are_columns(g: Seq<Seq<Cell>>, s: Sign)
    requires
        is_square(g),
    ensures
        has_full_row(rotated(g), s) == has_full_column(g, s),
{
    let n = g.len() as int;
    let h = rotated(g);
    if has_full_row(h, s) {
        let r = choose|r: int| 0 <= r < h.len() && #[trigger] row_full_of(h, r, s);
        assert forall|i: int| 0 <= i < n implies #[trigger] g[i][r] == Cell(Some(s)) by {
            assert(h[r][n - 1 - i] == Cell(Some(s)));
        }
        assert(column_full_of(g, r, s));
    }
    if has_full_column(g, s) {
        let c = choose|c: int| 0 <= c < g.len() && #[trigger] column_full_of(g, c, s);
        assert forall|k: int| 0 <= k < n implies #[trigger] h[c][k] == Cell(Some(s)) by {
            assert(g[n - 1 - k][c] == Cell(Some(s)));
        }
        assert(row_full_of(h, c, s));
    }
}

/// Whether every cell of row `row` holds `player`.
fn row_is_full_of(field: &Field, row: usize, player: &Sign) -> (r: bool)
    requires
        field.wf(),
        row < field.size(),
    ensures
        r == row_full_of(field@, row as int, *player),
{
    let n = field.row_count();
    for c in 0..n
        invariant
            field.wf(),
            n == field.size(),
            row < n,
            forall|k: int| 0 <= k < c ==> #[trigger] field@[row as int][k] == Cell(Some(*player)),
    {
        if field.cell(row, c) != Cell(Some(*player)) {
            return false;
        }
    }
    true
}

/// Whether some row of `field` is entirely `player`.
pub fn check_win_rows(field: &Field, player: &Sign) -> (r: bool)
    requires
        field.wf(),
    ensures
        r == has_full_row(field@, *player),
{
    let n = field.row_count();
    for row in 0..n
        invariant
            field.wf(),
            n == field.size(),
            forall|k: int| 0 <= k < row ==> !#[trigger] row_full_of(field@, k, *player),
    {
        if row_is_full_of(field, row, player) {
            return true;
        }
    }
    false
}

/// Whether every cell on the main diagonal holds `player`.
fn diagonal_is_full_of(field: &Field, player: &Sign) -> (r: bool)
    requires
        field.wf(),
    ensures
        r == diagonal_full_of(field@, *player),
{
    let n = field.row_count();
    for i in 0..n
        invariant
            field.wf(),
            n == field.size(),
            forall|k: int| 0 <= k < i ==> #[trigger] field@[k][k] == Cell(Some(*player)),
    {
        if field.cell(i, i) != Cell(Some(*player)) {
            return false;
        }
    }
    true
}

/// Whether every cell on the anti-diagonal holds `player`.
fn anti_diagonal_is_full_of(field: &Field, player: &Sign) -> (r: bool)
    requires
        field.wf(),
    ensures
        r == anti_diagonal_full_of(field@, *player),
{
    let n = field.row_count();
    for i in 0..n
        invariant
            field.wf(),
            n == field.size(),
            forall|k: int| 0 <= k < i ==> #[trigger] field@[k][n - 1 - k] == Cell(Some(*player)),
    {
        if field.cell(i, n - 1 - i) != Cell(Some(*player)) {
            return false;
        }
    }
    true
}

/// Whether `player` holds a whole row, column or diagonal of `field`.
/// Columns are found as the rows of the quarter-turned board.
pub fn check_win(field: &Field, player: &Sign) -> (r: bool)
    requires
        field.wf(),
    ensures
        r == wins(field@, *player),
{
    if check_win_rows(field, player) {
        return true;
    }
    if diagonal_is_full_of(field, player) || anti_diagonal_is_full_of(field, player) {
        return true;
    }
    let turned = rotate_field_90deg(field);
    proof {
        lemma_rotated_rows_are_columns(field@, *player);
    }
    check_win_rows(&turned, player)
}

/// Whether every cell of `field` holds a mark. A full board on which the
/// last mover has not won is a draw.
pub fn check_draw(field: &Field) -> (r: bool)
    requires
        field.wf(),
    ensures
        r == is_full_grid(field@),
{
    let n = field.row_count();
    for row in 0..n
        invariant
            field.wf(),
            n == field.size(),
            forall|i: int, j: int| 0 <= i < row && 0 <= j < n ==> (#[trigger] field@[i][j]).0 is Some,
    {
        for col in 0..n
            invariant
                field.wf(),
                n == field.size(),
                row < n,
                forall|i: int, j: int| 0 <= i < row && 0 <= j < n ==> (#[trigger] field@[i][j]).0 is Some,
                forall|j: int| 0 <= j < col ==> (#[trigger] field@[row as int][j]).0 is Some,
        {
            if field.cell(row, col).is_empty() {
                return false;
            }
        }
    }
    true
}

/// An empty board of any size N ≥ 1 is not full, every cell of it is empty,
/// and neither mark holds a line on it.
pub proof fn empty_board_is_open(n: nat)
    requires
        n >= 1,
    ensures
        !wins(empty_grid(n), Sign::X),
        !wins(empty_grid(n), Sign::O),
        !is_full_grid(empty_grid(n)),
        forall|r: int, c: int| 0 <= r < n && 0 <= c < n ==> (#[trigger] empty_grid(n)[r][c]).0 is None,
{
    let g = empty_grid(n);
    assert(g[0][0].0 is None);
    assert forall|s: Sign| !wins(g, s) by {
        assert(g[0][g.len() - 1 - 0].0 is None);
        assert forall|r: int| 0 <= r < n implies !#[trigger] row_full_of(g, r, s) by {
            assert(g[r][0].0 is None);
        }
        assert forall|c: int| 0 <= c < n implies !#[trigger] column_full_of(g, c, s) by {
            assert(g[0][c].0 is None);
        }
    }
}

/// Writing `s` into a free cell never completes a line for the other mark.
pub proof fn lemma_mark_helps_only_its_owner(g: Seq<Seq<Cell>>, row: int, col: int, s: Sign)
    requires
        is_square(g),
        0 <= row < g.len(),
        0 <= col < g.len(),
        !wins(g, opposite(s)),
    ensures
        !wins(with_mark(g, row, col, s), opposite(s)),
{
    let h = with_mark(g, row, col, s);
    let t = opposite(s);
    let n = g.len() as int;
    assert(h.len() == n);
    assert forall|r: int, c: int| 0 <= r < n && 0 <= c < n && #[trigger] h[r][c] == Cell(Some(t)) implies g[r][c] == Cell(Some(t)) by {
        if r == row && c == col {
            assert(h[r][c] == Cell(Some(s)));
        } else if r == row {
            assert(h[r] == g[r].update(col, Cell(Some(s))));
        }
    }
    if has_full_row(h, t) {
        let r = choose|r: int| 0 <= r < h.len() && #[trigger] row_full_of(h, r, t);
        assert forall|c: int| 0 <= c < n implies #[trigger] g[r][c] == Cell(Some(t)) by {
            assert(h[r][c] == Cell(Some(t)));
        }
        assert(row_full_of(g, r, t));
    }
    if has_full_column(h, t) {
        let c = choose|c: int| 0 <= c < h.len() && #[trigger] column_full_of(h, c, t);
        assert forall|r: int| 0 <= r < n implies #[trigger] g[r][c] == Cell(Some(t)) by {
            assert(h[r][c] == Cell(Some(t)));
        }
        assert(column_full_of(g, c, t));
    }
    if diagonal_full_of(h, t) {
        assert forall|i: int| 0 <= i < n implies #[trigger] g[i][i] == Cell(Some(t)) by {
            assert(h[i][i] == Cell(Some(t)));
        }
    }
    if anti_diagonal_full_of(h, t) {
        assert forall|i: int| 0 <= i < n implies #[trigger] g[i][n - 1 - i] == Cell(Some(t)) by {
            assert(h[i][n - 1 - i] == Cell(Some(t)));
        }
    }
}

} // verus!
