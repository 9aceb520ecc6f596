use vstd::prelude::*;

use crate::sign::{Cell, Sign};

verus! {

/// A square grid of cells, stored row by row.
#[derive(Debug)]
pub struct Field(Vec<Vec<Cell>>);

impl View for Field {
    type V = Seq<Seq<Cell>>;

    closed spec fn view(&self) -> Seq<Seq<Cell>> {
        self.0@.map_values(|row: Vec<Cell>| row@)
    }
}

/// A grid whose rows all have as many cells as there are rows.
pub open spec fn is_square(g: Seq<Seq<Cell>>) -> bool {
    forall|r: int| 0 <= r < g.len() ==> (#[trigger] g[r]).len() == g.len()
}

/// An N×N grid whose cells are all empty.
pub open spec fn empty_grid(n: nat) -> Seq<Seq<Cell>> {
    Seq::new(n, |r: int| Seq::new(n, |c: int| Cell(None)))
}

/// The grid with `s` written at row `r`, column `c`.
pub open spec fn with_mark(g: Seq<Seq<Cell>>, r: int, c: int, s: Sign) -> Seq<Seq<Cell>> {
    g.update(r, g[r].update(c, Cell(Some(s))))
}

/// The grid turned a quarter turn clockwise: the cell at row i, column j
/// moves to row j, column N-1-i.
pub open spec fn rotated(g: Seq<Seq<Cell>>) -> Seq<Seq<Cell>> {
    Seq::new(g.len(), |r: int| Seq::new(g.len(), |c: int| g[g.len() - 1 - c][r]))
}

impl Field {
    /// A board has at least one row and is square.
    pub open spec fn wf(&self) -> bool {
        &&& self@.len() >= 1
        &&& is_square(self@)
    }

    /// The side length N of the board.
    pub open spec fn size(&self) -> nat {
        self@.len()
    }

    /// The cell at row `r`, column `c`.
    pub open spec fn at(&self, r: int, c: int) -> Cell {
        self@[r][c]
    }

    /// An N×N board of empty cells.
    pub fn empty(size: usize) -> (f: Field)
        requires
            size >= 1,
        ensures
            f.wf(),
            f@ == empty_grid(size as nat),
    {
        let mut rows: Vec<Vec<Cell>> = Vec::new();
        for _r in 0..size
            invariant
                forall|i: int| 0 <= i < rows@.len() ==> (#[trigger] rows@[i])@ == Seq::new(size as nat, |c: int| Cell(None)),
                rows@.len() == _r,
        {
            let mut row_vec: Vec<Cell> = Vec::new();
            for _c in 0..size
                invariant
                    row_vec@ == Seq::new(_c as nat, |c: int| Cell(None)),
            {
                row_vec.push(Cell(None));
                assert(row_vec@ =~= Seq::new((_c + 1) as nat, |c: int| Cell(None)));
            }
            rows.push(row_vec);
        }
        let f = Field(rows);
        assert(f@ =~= empty_grid(size as nat));
        f
    }

    /// The number of rows.
    pub fn row_count(&self) -> (n: usize)
        ensures
            n == self.size(),
    {
        self.0.len()
    }

    /// The number of cells in each row.
    pub fn column_count(&self) -> (n: usize)
        requires
            self.wf(),
        ensures
            n == self.size(),
    {
        assert(self@[0].len() == self.size());
        self.0[0].len()
    }

    /// The cell at row `row`, column `col`.
    pub fn cell(&self, row: usize, col: usize) -> (c: Cell)
        requires
            self.wf(),
            row < self.size(),
            col < self.size(),
        ensures
            c == self.at(row as int, col as int),
    {
        assert(self@[row as int].len() == self.size());
        self.0[row][col]
    }

    /// Whether no mark stands at row `row`, column `col`.
    pub fn is_cell_empty(&self, row: usize, col: usize) -> (r: bool)
        requires
            self.wf(),
            row < self.size(),
            col < self.size(),
        ensures
            r == (self.at(row as int, col as int).0 is None),
    {
        assert(self@[row as int].len() == self.size());
        self.0[row][col].is_empty()
    }

    /// Writes `mark` into row `row`, column `col`, whatever stood there.
    pub fn place(&mut self, row: usize, col: usize, mark: Sign)
        requires
            old(self).wf(),
            row < old(self).size(),
            col < old(self).size(),
        ensures
            final(self).wf(),
            final(self)@ == with_mark(old(self)@, row as int, col as int, mark),
    {
        assert(self@[row as int].len() == self.size());
        self.0[row][col] = Cell(Some(mark));
        assert(self@ =~= with_mark(old(self)@, row as int, col as int, mark));
    }
}

/// Writing a mark and reading the same cell back gives that mark, so the
/// cell is no longer empty; every other cell reads as before, and the grid
/// stays square.
pub proof fn placed_mark_reads_back(g: Seq<Seq<Cell>>, row: int, col: int, s: Sign)
    requires
        is_square(g),
        0 <= row < g.len(),
        0 <= col < g.len(),
    ensures
        is_square(with_mark(g, row, col, s)),
        with_mark(g, row, col, s)[row][col] == Cell(Some(s)),
        with_mark(g, row, col, s)[row][col].0 is Some,
        forall|r: int, c: int|
            0 <= r < g.len() && 0 <= c < g.len() && (r != row || c != col)
                ==> #[trigger] with_mark(g, row, col, s)[r][c] == g[r][c],
{
    let h = with_mark(g, row, col, s);
    assert forall|r: int| 0 <= r < h.len() implies (#[trigger] h[r]).len() == h.len() by {
        assert(g[r].len() == g.len());
    }
}

/// Two quarter turns move the cell at (r, c) to (N-1-r, N-1-c).
proof fn lemma_half_turn(g: Seq<Seq<Cell>>)
    requires
        is_square(g),
    ensures
        is_square(rotated(rotated(g))),
        rotated(rotated(g)).len() == g.len(),
        forall|r: int, c: int|
            0 <= r < g.len() && 0 <= c < g.len()
                ==> #[trigger] rotated(rotated(g))[r][c] == g[g.len() - 1 - r][g.len() - 1 - c],
{
    let n = g.len() as int;
    let h = rotated(g);
    assert forall|r: int, c: int| 0 <= r < n && 0 <= c < n implies #[trigger] rotated(h)[r][c] == g[n - 1 - r][n - 1 - c] by {
        assert(h[n - 1 - c][r] == g[n - 1 - r][n - 1 - c]);
    }
}

/// Four quarter turns bring every square grid back to itself, cell by cell.
pub proof fn four_quarter_turns_restore(g: Seq<Seq<Cell>>)
    requires
        is_square(g),
    ensures
        rotated(rotated(rotated(rotated(g)))) == g,
{
    let n = g.len() as int;
    lemma_half_turn(g);
    let h = rotated(rotated(g));
    lemma_half_turn(h);
    let k = rotated(rotated(h));
    assert forall|r: int| 0 <= r < n implies #[trigger] k[r] == g[r] by {
        assert forall|c: int| 0 <= c < n implies #[trigger] k[r][c] == g[r][c] by {
            assert(h[n - 1 - r][n - 1 - c] == g[r][c]);
        }
        assert(k[r] =~= g[r]);
    }
    assert(k =~= g);
}

/// A new board: `field` turned a quarter turn clockwise.
pub fn rotate_field_90deg(field: &Field) -> (rotated_field: Field)
    requires
        field.wf(),
    ensures
        rotated_field.wf(),
        rotated_field@ == rotated(field@),
{
    let n = field.row_count();
    let ghost g = field@;
    let mut rows: Vec<Vec<Cell>> = Vec::new();
    for r in 0..n
        invariant
            field.wf(),
            g == field@,
            n == g.len(),
            rows@.len() == r,
            forall|i: int| 0 <= i < r ==> (#[trigger] rows@[i])@ == rotated(g)[i],
    {
        let mut row: Vec<Cell> = Vec::new();
        for c in 0..n
            invariant
                field.wf(),
                g == field@,
                n == g.len(),
                r < n,
                row@ == Seq::new(c as nat, |k: int| g[n - 1 - k][r as int]),
        {
            row.push(field.cell(n - 1 - c, r));
            assert(row@ =~= Seq::new((c + 1) as nat, |k: int| g[n - 1 - k][r as int]));
        }
        assert(row@ =~= rotated(g)[r as int]);
        rows.push(row);
    }
    let out = Field(rows);
    assert(out@ =~= rotated(g));
    out
}

} // verus!
