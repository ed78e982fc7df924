use vstd::prelude::*;
use crate::color::Color;
use crate::piece::{kind_color, PieceView};

verus! {

/// The grid is this many cells wide, its left and right wall included.
pub const BOARD_WIDTH: usize = 12;

/// The grid is this many cells high, its ceiling and floor included.
pub const BOARD_HEIGHT: usize = 24;

/// One cell of the grid.
#[derive(Clone, Copy, Debug, PartialEq, Eq, Structural)]
pub struct TetrisUnitBlock {
    pub is_filled: bool,
    pub color: Color,
}

/// The grid as a value: rows from the top, each row from the left.
pub type Grid = Seq<Seq<TetrisUnitBlock>>;

/// An empty cell.
pub open spec fn blank_cell() -> TetrisUnitBlock {
    TetrisUnitBlock { is_filled: false, color: Color { r: 0, g: 0, b: 0 } }
}

/// A cell of the border.
pub open spec fn wall_cell() -> TetrisUnitBlock {
    TetrisUnitBlock { is_filled: true, color: Color { r: 255, g: 255, b: 255 } }
}

/// A cell that a piece of the given kind has been locked into.
pub open spec fn locked_cell(piece: PieceView) -> TetrisUnitBlock {
    TetrisUnitBlock { is_filled: true, color: kind_color(piece.kind) }
}

/// Whether column `x`, row `y` is a cell of the grid.
pub open spec fn in_grid(x: int, y: int) -> bool {
    0 <= x < BOARD_WIDTH && 0 <= y < BOARD_HEIGHT
}

/// Whether column `x`, row `y` belongs to the frame around the playfield.
pub open spec fn on_border(x: int, y: int) -> bool {
    x == 0 || x == BOARD_WIDTH - 1 || y == 0 || y == BOARD_HEIGHT - 1
}

/// The grid has its height in rows, and each row its width in cells.
pub open spec fn well_shaped(grid: Grid) -> bool {
    &&& grid.len() == BOARD_HEIGHT
    &&& forall|y: int| 0 <= y < BOARD_HEIGHT ==> (#[trigger] grid[y]).len() == BOARD_WIDTH
}

/// Every cell of the frame is filled.
pub open spec fn bordered(grid: Grid) -> bool {
    forall|x: int, y: int| in_grid(x, y) && on_border(x, y) ==> (#[trigger] grid[y][x]).is_filled
}

/// Two grids have the same frame.
pub open spec fn same_border(a: Grid, b: Grid) -> bool {
    forall|x: int, y: int| in_grid(x, y) && on_border(x, y) ==> #[trigger] a[y][x] == b[y][x]
}

/// The grid of a new game: a white frame around an empty playfield.
pub open spec fn fresh_grid() -> Grid {
    Seq::new(
        BOARD_HEIGHT as nat,
        |y: int|
            Seq::new(
                BOARD_WIDTH as nat,
                |x: int|
                    if on_border(x, y) {
                        wall_cell()
                    } else {
                        blank_cell()
                    },
            ),
    )
}

/// Column `x`, row `y` lies in the grid and is not filled.
pub open spec fn cell_free(grid: Grid, x: int, y: int) -> bool {
    in_grid(x, y) && !grid[y][x].is_filled
}

/// Each block of the piece lies in the grid.
pub open spec fn piece_in_grid(piece: PieceView) -> bool {
    forall|block: int|
        0 <= block < 4 ==> in_grid((#[trigger] piece.cell(block)).0, piece.cell(block).1)
}

/// Each block of the piece lies on a cell of the grid that is not filled. With
/// the frame filled, such a piece lies inside the playfield.
pub open spec fn placement_free(grid: Grid, piece: PieceView) -> bool {
    forall|block: int|
        0 <= block < 4 ==> cell_free(grid, (#[trigger] piece.cell(block)).0, piece.cell(block).1)
}

/// The grid once the piece's blocks have been written into it.
pub open spec fn consumed(grid: Grid, piece: PieceView) -> Grid {
    Seq::new(
        BOARD_HEIGHT as nat,
        |y: int|
            Seq::new(
                BOARD_WIDTH as nat,
                |x: int|
                    if piece.covers(x, y) {
                        locked_cell(piece)
                    } else {
                        grid[y][x]
                    },
            ),
    )
}

/// Whether one of the first `count` blocks of the piece lies at column `x`,
/// row `y`.
pub open spec fn covers_among(piece: PieceView, count: int, x: int, y: int) -> bool {
    exists|block: int| 0 <= block < count && #[trigger] piece.cell(block) == (x, y)
}

/// Two grids of the board's size with the same cells are the same grid.
pub proof fn lemma_grid_by_cells(a: Grid, b: Grid)
    requires
        well_shaped(a),
        well_shaped(b),
        forall|x: int, y: int| in_grid(x, y) ==> #[trigger] a[y][x] == b[y][x],
    ensures
        a == b,
{
    assert forall|y: int| 0 <= y < BOARD_HEIGHT implies #[trigger] a[y] == b[y] by {
        assert(a[y].len() == BOARD_WIDTH);
        assert(b[y].len() == BOARD_WIDTH);
        assert forall|x: int| 0 <= x < BOARD_WIDTH implies a[y][x] == b[y][x] by {
            assert(in_grid(x, y));
        }
        assert(a[y] =~= b[y]);
    }
    assert(a =~= b);
}

/// How many rows the playfield has.
pub open spec fn playfield_rows() -> int {
    BOARD_HEIGHT - 2
}

/// How many columns the playfield has.
pub open spec fn playfield_columns() -> int {
    BOARD_WIDTH - 2
}

/// Row `r` of the playfield, counted from its top, without the wall cells at
/// its ends.
pub open spec fn interior_row(grid: Grid, r: int) -> Seq<TetrisUnitBlock> {
    grid[r + 1].subrange(1, BOARD_WIDTH - 1)
}

/// The rows of the playfield from the top, each without its wall cells.
pub open spec fn interior_rows(grid: Grid) -> Seq<Seq<TetrisUnitBlock>> {
    Seq::new(playfield_rows() as nat, |r: int| interior_row(grid, r))
}

/// The grid with the frame of `grid` and the playfield `rows`.
pub open spec fn with_interior(grid: Grid, rows: Seq<Seq<TetrisUnitBlock>>) -> Grid {
    Seq::new(
        BOARD_HEIGHT as nat,
        |y: int|
            Seq::new(
                BOARD_WIDTH as nat,
                |x: int|
                    if on_border(x, y) {
                        grid[y][x]
                    } else {
                        rows[y - 1][x - 1]
                    },
            ),
    )
}

/// The rows are those of a playfield: the right number, each of the right
/// length.
pub open spec fn playfield_shaped(rows: Seq<Seq<TetrisUnitBlock>>) -> bool {
    &&& rows.len() == playfield_rows()
    &&& forall|r: int| 0 <= r < rows.len() ==> (#[trigger] rows[r]).len() == playfield_columns()
}

/// Every cell of the row is filled.
pub open spec fn row_is_full(row: Seq<TetrisUnitBlock>) -> bool {
    forall|x: int| 0 <= x < row.len() ==> (#[trigger] row[x]).is_filled
}

/// No cell of the row is filled.
pub open spec fn row_is_empty(row: Seq<TetrisUnitBlock>) -> bool {
    forall|x: int| 0 <= x < row.len() ==> !(#[trigger] row[x]).is_filled
}

/// A playfield row of empty cells.
pub open spec fn blank_row() -> Seq<TetrisUnitBlock> {
    Seq::new(playfield_columns() as nat, |x: int| blank_cell())
}

/// The test that a row passes if it stays when full rows are cleared.
pub open spec fn stays() -> spec_fn(Seq<TetrisUnitBlock>) -> bool {
    |row: Seq<TetrisUnitBlock>| !row_is_full(row)
}

/// The rows that are not full, in their order.
pub open spec fn unfilled(rows: Seq<Seq<TetrisUnitBlock>>) -> Seq<Seq<TetrisUnitBlock>> {
    rows.filter(stays())
}

/// How many of the rows are full.
pub open spec fn full_rows(rows: Seq<Seq<TetrisUnitBlock>>) -> nat {
    (rows.len() - unfilled(rows).len()) as nat
}

/// The rows once the full ones have been cleared: those that are not full
/// keep their order and sink to the bottom, and as many empty rows as were
/// cleared come in at the top.
pub open spec fn settled(rows: Seq<Seq<TetrisUnitBlock>>) -> Seq<Seq<TetrisUnitBlock>> {
    Seq::new(full_rows(rows), |r: int| blank_row()) + unfilled(rows)
}

/// The rows once row `r` has been taken out: those above it have moved down by
/// one, and an empty row has come in at the top.
pub open spec fn shifted_down(rows: Seq<Seq<TetrisUnitBlock>>, r: int) -> Seq<
    Seq<TetrisUnitBlock>,
> {
    seq![blank_row()] + rows.remove(r)
}

/// No more rows are full than there are rows.
pub proof fn lemma_full_rows_bounded(rows: Seq<Seq<TetrisUnitBlock>>)
    ensures
        full_rows(rows) <= rows.len(),
        full_rows(rows) + unfilled(rows).len() == rows.len(),
        settled(rows).len() == rows.len(),
{
    rows.lemma_filter_len(stays());
}

/// Where no row is full, clearing changes nothing.
pub proof fn lemma_settled_without_full_rows(rows: Seq<Seq<TetrisUnitBlock>>)
    requires
        forall|r: int| 0 <= r < rows.len() ==> !row_is_full(#[trigger] rows[r]),
    ensures
        unfilled(rows) == rows,
        full_rows(rows) == 0,
        settled(rows) == rows,
    decreases rows.len(),
{
    reveal(Seq::filter);
    if rows.len() > 0 {
        let front = rows.drop_last();
        assert forall|r: int| 0 <= r < front.len() implies !row_is_full(#[trigger] front[r]) by {
            assert(front[r] == rows[r]);
        }
        lemma_settled_without_full_rows(front);
        assert(!row_is_full(rows[rows.len() - 1]));
        assert(stays()(rows.last()));
        assert(front.push(rows.last()) =~= rows);
    }
    assert(unfilled(rows) == rows);
    assert(settled(rows) =~= rows);
}

/// Taking out a full row clears that row and no other: what clearing makes of
/// the rows is the same before and after, and one row fewer is full.
pub proof fn lemma_shift_clears_one_row(rows: Seq<Seq<TetrisUnitBlock>>, r: int)
    requires
        0 <= r < rows.len(),
        row_is_full(rows[r]),
    ensures
        shifted_down(rows, r).len() == rows.len(),
        unfilled(shifted_down(rows, r)) == seq![blank_row()] + unfilled(rows),
        full_rows(shifted_down(rows, r)) + 1 == full_rows(rows),
        settled(shifted_down(rows, r)) == settled(rows),
{
    let keep = stays();
    let above = rows.subrange(0, r);
    let below = rows.subrange(r + 1, rows.len() as int);
    let one = seq![rows[r]];
    let top = seq![blank_row()];
    assert(rows =~= above + one + below);
    assert(rows.remove(r) == above + below);
    assert(blank_row()[0] == blank_cell());
    assert(!row_is_full(blank_row()));
    assert(one.filter(keep) =~= Seq::empty()) by {
        reveal_with_fuel(Seq::filter, 2);
        assert(one.drop_last() =~= Seq::empty());
        assert(!keep(one.last()));
    }
    assert(top.filter(keep) =~= top) by {
        reveal_with_fuel(Seq::filter, 2);
        assert(top.drop_last() =~= Seq::empty());
        assert(keep(top.last()));
    }
    Seq::filter_distributes_over_add(above, below, keep);
    Seq::filter_distributes_over_add(above, one, keep);
    Seq::filter_distributes_over_add(above + one, below, keep);
    Seq::filter_distributes_over_add(top, above + below, keep);
    assert(unfilled(rows) =~= above.filter(keep) + below.filter(keep));
    assert(unfilled(shifted_down(rows, r)) =~= top + unfilled(rows));
    lemma_full_rows_bounded(rows);
    lemma_full_rows_bounded(shifted_down(rows, r));
    assert(settled(shifted_down(rows, r)) =~= settled(rows));
}

/// After clearing, no row is full.
pub proof fn lemma_settled_has_no_full_row(rows: Seq<Seq<TetrisUnitBlock>>, r: int)
    requires
        0 <= r < settled(rows).len(),
    ensures
        !row_is_full(settled(rows)[r]),
{
    lemma_full_rows_bounded(rows);
    if r < full_rows(rows) {
        assert(settled(rows)[r] == blank_row());
        assert(blank_row()[0] == blank_cell());
    } else {
        let at = r - full_rows(rows);
        assert(settled(rows)[r] == unfilled(rows)[at]);
        rows.lemma_filter_pred(stays(), at);
    }
}

/// Clearing keeps the shape of a playfield.
pub proof fn lemma_settled_is_playfield_shaped(rows: Seq<Seq<TetrisUnitBlock>>)
    requires
        playfield_shaped(rows),
    ensures
        playfield_shaped(settled(rows)),
{
    lemma_full_rows_bounded(rows);
    let after = settled(rows);
    assert forall|r: int| 0 <= r < after.len() implies (#[trigger] after[r]).len()
        == playfield_columns() by {
        if r >= full_rows(rows) {
            let at = r - full_rows(rows);
            assert(after[r] == unfilled(rows)[at]);
            lemma_filter_keeps_members(rows, at);
        }
    }
}

/// Every row that stays was among the rows.
pub proof fn lemma_filter_keeps_members(rows: Seq<Seq<TetrisUnitBlock>>, at: int)
    requires
        0 <= at < unfilled(rows).len(),
    ensures
        rows.contains(unfilled(rows)[at]),
    decreases rows.len(),
{
    reveal(Seq::filter);
    if rows.len() > 0 {
        let front = rows.drop_last();
        if at < unfilled(front).len() {
            lemma_filter_keeps_members(front, at);
            let from = choose|from: int| 0 <= from < front.len() && front[from] == unfilled(front)[at];
            assert(rows[from] == unfilled(rows)[at]);
        } else {
            assert(rows[rows.len() - 1] == unfilled(rows)[at]);
        }
    }
}

/// Replacing the playfield of a grid gives a grid with that playfield and the
/// old frame.
pub proof fn lemma_with_interior(grid: Grid, rows: Seq<Seq<TetrisUnitBlock>>)
    requires
        playfield_shaped(rows),
    ensures
        well_shaped(with_interior(grid, rows)),
        same_border(with_interior(grid, rows), grid),
        interior_rows(with_interior(grid, rows)) == rows,
        bordered(grid) ==> bordered(with_interior(grid, rows)),
{
    let made = with_interior(grid, rows);
    assert forall|r: int| 0 <= r < playfield_rows() implies #[trigger] interior_rows(made)[r]
        == rows[r] by {
        assert(rows[r].len() == playfield_columns());
        assert(interior_rows(made)[r] =~= rows[r]);
    }
    assert(interior_rows(made) =~= rows);
    assert forall|x: int, y: int| in_grid(x, y) && on_border(x, y) implies #[trigger] made[y][x]
        == grid[y][x] by {}
    if bordered(grid) {
        assert forall|x: int, y: int| in_grid(x, y) && on_border(x, y) implies (#[trigger] made[y][x]).is_filled by {
            assert(grid[y][x].is_filled);
        }
    }
}

/// The playfield of a grid of the board's size has the shape of a playfield.
pub proof fn lemma_interior_rows_shaped(grid: Grid)
    requires
        well_shaped(grid),
    ensures
        playfield_shaped(interior_rows(grid)),
{
    assert forall|r: int| 0 <= r < interior_rows(grid).len() implies (#[trigger] interior_rows(
        grid,
    )[r]).len() == playfield_columns() by {
        assert(grid[r + 1].len() == BOARD_WIDTH);
    }
}

/// Two grids of the board's size with the same frame and the same playfield
/// are the same grid.
pub proof fn lemma_grid_by_parts(a: Grid, b: Grid)
    requires
        well_shaped(a),
        well_shaped(b),
        same_border(a, b),
        interior_rows(a) == interior_rows(b),
    ensures
        a == b,
{
    assert forall|y: int| 0 <= y < BOARD_HEIGHT implies #[trigger] a[y] == b[y] by {
        assert(a[y].len() == BOARD_WIDTH);
        assert(b[y].len() == BOARD_WIDTH);
        assert forall|x: int| 0 <= x < BOARD_WIDTH implies a[y][x] == b[y][x] by {
            if on_border(x, y) {
                assert(in_grid(x, y));
            } else {
                assert(interior_rows(a)[y - 1] == interior_rows(b)[y - 1]);
                assert(interior_row(a, y - 1)[x - 1] == a[y][x]);
                assert(interior_row(b, y - 1)[x - 1] == b[y][x]);
            }
        }
        assert(a[y] =~= b[y]);
    }
    assert(a =~= b);
}

/// Where the rows are once row `r` has been taken out: an empty row at the
/// top, below it the rows that were above row `r`, each one place further
/// down, and the rows below row `r` where they were.
pub proof fn lemma_shifted_down_rows(rows: Seq<Seq<TetrisUnitBlock>>, r: int)
    requires
        0 <= r < rows.len(),
    ensures
        shifted_down(rows, r).len() == rows.len(),
        shifted_down(rows, r)[0] == blank_row(),
        forall|k: int| 1 <= k <= r ==> #[trigger] shifted_down(rows, r)[k] == rows[k - 1],
        forall|k: int| r < k < rows.len() ==> #[trigger] shifted_down(rows, r)[k] == rows[k],
{
}

/// Taking out a row keeps the shape of a playfield.
pub proof fn lemma_shifted_down_shaped(rows: Seq<Seq<TetrisUnitBlock>>, r: int)
    requires
        playfield_shaped(rows),
        0 <= r < rows.len(),
    ensures
        playfield_shaped(shifted_down(rows, r)),
        shifted_down(rows, r)[0] == blank_row(),
        forall|k: int| 1 <= k <= r ==> #[trigger] shifted_down(rows, r)[k] == rows[k - 1],
        forall|k: int| r < k < rows.len() ==> #[trigger] shifted_down(rows, r)[k] == rows[k],
{
    let after = shifted_down(rows, r);
    assert forall|k: int| 0 <= k < after.len() implies (#[trigger] after[k]).len()
        == playfield_columns() by {
        if k == 0 {
        } else if k <= r {
            assert(after[k] == rows[k - 1]);
        } else {
            assert(after[k] == rows[k]);
        }
    }
}

/// Where one row is full and no other, clearing takes out exactly that row
/// and counts one line: the rows above it come down by one, an empty row
/// comes in at the top, and the rows below it stay. So a row above the full
/// one that was empty is empty afterwards too, one place further down.
pub proof fn lemma_single_full_row_is_cleared(rows: Seq<Seq<TetrisUnitBlock>>, r: int)
    requires
        0 <= r < rows.len(),
        row_is_full(rows[r]),
        forall|k: int| 0 <= k < rows.len() && k != r ==> !row_is_full(#[trigger] rows[k]),
    ensures
        full_rows(rows) == 1,
        settled(rows) == shifted_down(rows, r),
        settled(rows).len() == rows.len(),
        settled(rows)[0] == blank_row(),
        row_is_empty(settled(rows)[0]),
        forall|k: int| 1 <= k <= r ==> #[trigger] settled(rows)[k] == rows[k - 1],
        forall|k: int| r < k < rows.len() ==> #[trigger] settled(rows)[k] == rows[k],
{
    let after = shifted_down(rows, r);
    lemma_shift_clears_one_row(rows, r);
    lemma_shifted_down_rows(rows, r);
    lemma_blank_row_is_empty();
    assert forall|k: int| 0 <= k < after.len() implies !row_is_full(#[trigger] after[k]) by {
        if k == 0 {
        } else if k <= r {
            assert(after[k] == rows[k - 1]);
        } else {
            assert(after[k] == rows[k]);
        }
    }
    lemma_settled_without_full_rows(after);
}

/// An empty row is empty, and it is not full.
pub proof fn lemma_blank_row_is_empty()
    ensures
        row_is_empty(blank_row()),
        !row_is_full(blank_row()),
{
    assert(blank_row()[0] == blank_cell());
}

/// Where a full row has a full row right above it, the row that comes down
/// into its place is cleared as well: clearing makes of the rows what it makes
/// of them once both have been taken out, and counts two lines more than it
/// counts then.
pub proof fn lemma_row_coming_down_is_cleared_too(rows: Seq<Seq<TetrisUnitBlock>>, r: int)
    requires
        1 <= r < rows.len(),
        row_is_full(rows[r]),
        row_is_full(rows[r - 1]),
    ensures
        shifted_down(rows, r)[r] == rows[r - 1],
        settled(rows) == settled(shifted_down(shifted_down(rows, r), r)),
        full_rows(rows) == full_rows(shifted_down(shifted_down(rows, r), r)) + 2,
{
    let once = shifted_down(rows, r);
    lemma_shifted_down_rows(rows, r);
    lemma_shift_clears_one_row(rows, r);
    assert(once[r] == rows[r - 1]);
    lemma_shift_clears_one_row(once, r);
}

/// What clearing makes of the rows: as many empty rows at the top as rows were
/// full, below them the rows that were not full, in their order, and among
/// them all no full row. The count of rows stays.
pub proof fn lemma_settled_layout(rows: Seq<Seq<TetrisUnitBlock>>)
    ensures
        settled(rows).len() == rows.len(),
        full_rows(rows) + unfilled(rows).len() == rows.len(),
        forall|r: int| 0 <= r < full_rows(rows) ==> #[trigger] settled(rows)[r] == blank_row(),
        forall|i: int|
            0 <= i < unfilled(rows).len() ==> settled(rows)[full_rows(rows) + i]
                == #[trigger] unfilled(rows)[i],
        forall|r: int| 0 <= r < rows.len() ==> !row_is_full(#[trigger] settled(rows)[r]),
        forall|i: int| 0 <= i < unfilled(rows).len() ==> !row_is_full(#[trigger] unfilled(rows)[i]),
{
    lemma_full_rows_bounded(rows);
    assert forall|r: int| 0 <= r < rows.len() implies !row_is_full(#[trigger] settled(rows)[r]) by {
        lemma_settled_has_no_full_row(rows, r);
    }
    assert forall|i: int| 0 <= i < unfilled(rows).len() implies !row_is_full(
        #[trigger] unfilled(rows)[i],
    ) by {
        rows.lemma_filter_pred(stays(), i);
    }
}

} // verus!
