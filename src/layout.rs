use vstd::prelude::*;

verus! {

/// Where the cells of an N×N board stand on screen, in pixels: the top-left
/// corner of the first cell, the side of each cell, and the gap between
/// neighbouring cells.
#[derive(Clone, Copy, Debug, PartialEq, Eq, Structural)]
pub struct BoardLayout {
    pub size: usize,
    pub left: i128,
    pub top: i128,
    pub cell_size: i128,
    pub padding: i128,
}

/// Half of `x`, rounded toward zero.
pub open spec fn half_toward_zero(x: int) -> int {
    if x >= 0 {
        x / 2
    } else {
        -((-x) / 2)
    }
}

/// The layout for a window of the given width: cells a fifth of the width,
/// gaps a quarter of a cell, and the board set off from the window's left
/// and top edges by the same margin, half of the width it leaves free.
pub open spec fn layout_for(window_width: nat, size: nat) -> BoardLayout {
    let cell = window_width / 5;
    let pad = cell / 4;
    let board = cell * size + pad * (size - 1);
    BoardLayout {
        size: size as usize,
        left: half_toward_zero(window_width - board) as i128,
        top: half_toward_zero(window_width - board) as i128,
        cell_size: cell as i128,
        padding: pad as i128,
    }
}

/// The x coordinate of the left edge of column `col`.
pub open spec fn cell_left(l: BoardLayout, col: int) -> int {
    l.left + col * (l.cell_size + l.padding)
}

/// The y coordinate of the top edge of row `row`.
pub open spec fn cell_top(l: BoardLayout, row: int) -> int {
    l.top + row * (l.cell_size + l.padding)
}

/// The side of the square that takes clicks for a cell: the cell's side,
/// but at least one pixel, as a screen rectangle is never empty.
pub open spec fn hit_side(l: BoardLayout) -> int {
    if l.cell_size == 0 {
        1
    } else {
        l.cell_size as int
    }
}

/// The point (`x`, `y`) lies in the cell at (`row`, `col`): left and top
/// edges included, right and bottom edges excluded.
pub open spec fn cell_contains(l: BoardLayout, row: int, col: int, x: int, y: int) -> bool {
    &&& cell_left(l, col) <= x < cell_left(l, col) + hit_side(l)
    &&& cell_top(l, row) <= y < cell_top(l, row) + hit_side(l)
}

/// The numbers of a layout stay small enough for every cell's corner to be
/// computed without overflow.
pub open spec fn layout_in_range(l: BoardLayout) -> bool {
    &&& l.size >= 1
    &&& 0 <= l.cell_size <= u32::MAX
    &&& 0 <= l.padding <= u32::MAX
    &&& -0x1_0000_0000_0000_0000_0000_0000 <= l.left <= u32::MAX
    &&& -0x1_0000_0000_0000_0000_0000_0000 <= l.top <= u32::MAX
}

/// The layout of an N×N board in a window of the given width.
pub fn board_layout(window_width: u32, size: usize) -> (l: BoardLayout)
    requires
        size >= 1,
    ensures
        l == layout_for(window_width as nat, size as nat),
        layout_in_range(l),
{
    let cell: u32 = window_width / 5;
    let pad: u32 = cell / 4;
    assert(cell as int * size as int <= u32::MAX as int * usize::MAX as int) by (nonlinear_arith)
        requires
            cell <= u32::MAX,
            size <= usize::MAX,
    ;
    assert(pad as int * (size - 1) as int <= u32::MAX as int * usize::MAX as int) by (nonlinear_arith)
        requires
            pad <= u32::MAX,
            size - 1 <= usize::MAX,
    ;
    let board: i128 = cell as i128 * size as i128 + pad as i128 * (size - 1) as i128;
    let left: i128 = if window_width as i128 >= board {
        (window_width as i128 - board) / 2
    } else {
        -((board - window_width as i128) / 2)
    };
    BoardLayout { size, left, top: left, cell_size: cell as i128, padding: pad as i128 }
}

impl BoardLayout {
    /// The top-left corner of the cell at (`row`, `col`).
    pub fn cell_origin(&self, row: usize, col: usize) -> (p: (i128, i128))
        requires
            layout_in_range(*self),
            row < self.size,
            col < self.size,
        ensures
            p.0 == cell_left(*self, col as int),
            p.1 == cell_top(*self, row as int),
            -0x1_0000_0000_0000_0000_0000_0000 <= p.0 <= 0x4_0000_0000_0000_0000_0000_0000,
            -0x1_0000_0000_0000_0000_0000_0000 <= p.1 <= 0x4_0000_0000_0000_0000_0000_0000,
    {
        let step: i128 = self.cell_size + self.padding;
        assert(0 <= col as int * step <= usize::MAX as int * 0x2_0000_0000) by (nonlinear_arith)
            requires
                0 <= col <= usize::MAX,
                0 <= step <= 0x2_0000_0000,
        ;
        assert(0 <= row as int * step <= usize::MAX as int * 0x2_0000_0000) by (nonlinear_arith)
            requires
                0 <= row <= usize::MAX,
                0 <= step <= 0x2_0000_0000,
        ;
        (self.left + col as i128 * step, self.top + row as i128 * step)
    }

    /// The cell under the point (`x`, `y`), if any: the first such cell in
    /// row-major order.
    pub fn cell_at(&self, x: i128, y: i128) -> (r: Option<(usize, usize)>)
        requires
            layout_in_range(*self),
        ensures
            match r {
                Some((row, col)) => {
                    &&& row < self.size
                    &&& col < self.size
                    &&& cell_contains(*self, row as int, col as int, x as int, y as int)
                    &&& forall|i: int, j: int|
                        0 <= i < self.size && 0 <= j < self.size && (i < row || (i == row && j < col))
                            ==> !#[trigger] cell_contains(*self, i, j, x as int, y as int)
                },
                None => forall|i: int, j: int|
                    0 <= i < self.size && 0 <= j < self.size
                        ==> !#[trigger] cell_contains(*self, i, j, x as int, y as int),
            },
    {
        let n = self.size;
        let side: i128 = if self.cell_size == 0 {
            1
        } else {
            self.cell_size
        };
        for row in 0..n
            invariant
                n == self.size,
                side == hit_side(*self),
                layout_in_range(*self),
                forall|i: int, j: int|
                    0 <= i < row && 0 <= j < n ==> !#[trigger] cell_contains(*self, i, j, x as int, y as int),
        {
            for col in 0..n
                invariant
                    n == self.size,
                    side == hit_side(*self),
                    row < n,
                    layout_in_range(*self),
                    forall|i: int, j: int|
                        0 <= i < row && 0 <= j < n ==> !#[trigger] cell_contains(*self, i, j, x as int, y as int),
                    forall|j: int| 0 <= j < col ==> !#[trigger] cell_contains(*self, row as int, j, x as int, y as int),
            {
                let (cx, cy) = self.cell_origin(row, col);
                if cx <= x && x < cx + side && cy <= y && y < cy + side {
                    return Some((row, col));
                }
            }
        }
        None
    }
}

} // verus!
