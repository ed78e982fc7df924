use vstd::prelude::*;
use crate::color::Color;
use crate::generator::RandomTetrisPieceGenerator;
use crate::geometry::Pos2D;
use crate::grid::{
    blank_cell, blank_row, cell_free, consumed, covers_among, fresh_grid, full_rows, in_grid,
    interior_rows, lemma_full_rows_bounded, lemma_grid_by_cells, lemma_grid_by_parts,
    lemma_interior_rows_shaped, lemma_settled_is_playfield_shaped,
    lemma_settled_without_full_rows, lemma_shift_clears_one_row, lemma_shifted_down_shaped,
    lemma_with_interior, locked_cell, on_border, piece_in_grid, placement_free, playfield_rows,
    row_is_empty, row_is_full, same_border, settled, shifted_down, wall_cell, well_shaped,
    with_interior, Grid, TetrisUnitBlock, BOARD_HEIGHT, BOARD_WIDTH,
};
use crate::input::Input;
use crate::model::{
    gravity_for, lemma_free_placement_lies_in_grid, lemma_spawn_fits, level_for, BoardView,
    DEFAULT_GRAVITY, GAME_OVER_DELAY, LINES_PER_LEVEL, LOCK_DELAY, MAX_LEVEL, SOFT_DROP_GRAVITY,
    START_X, START_Y,
};
use crate::piece::{lemma_offsets_bounded, TetrisPiece};
use crate::random::RandomSource;

verus! {

/// The cells of the grid, row by row, as a value.
pub open spec fn grid_of(cells: Vec<Vec<TetrisUnitBlock>>) -> Grid {
    Seq::new(cells@.len(), |y: int| cells@[y]@)
}

/// The playing field: a bordered grid, the piece that is falling, the
/// generator of the pieces to come, and the timers and counters of the game.
pub struct TetrisBoard<R: RandomSource> {
    width: usize,
    height: usize,
    board: Vec<Vec<TetrisUnitBlock>>,
    active_piece: TetrisPiece,
    tetris_gen: RandomTetrisPieceGenerator<R>,
    gravity: u32,
    gravity_countdown: u32,
    lock_delay: u32,
    lock_delay_countdown: u32,
    lines_cleared: u32,
    is_game_over: bool,
    game_over_delay: u32,
    game_over_countdown: u32,
    locking_state: bool,
    level: u32,
}

impl<R: RandomSource> View for TetrisBoard<R> {
    type V = BoardView;

    closed spec fn view(&self) -> BoardView {
        BoardView {
            grid: grid_of(self.board),
            piece: self.active_piece@,
            generator: self.tetris_gen@,
            gravity: self.gravity as int,
            gravity_countdown: self.gravity_countdown as int,
            lock_delay: self.lock_delay as int,
            lock_delay_countdown: self.lock_delay_countdown as int,
            lines_cleared: self.lines_cleared as int,
            is_game_over: self.is_game_over,
            game_over_delay: self.game_over_delay as int,
            game_over_countdown: self.game_over_countdown as int,
            locking_state: self.locking_state,
            level: self.level as int,
        }
    }
}

/// The gravity period at `level`, in ticks: two ticks while the piece is
/// dropped softly, else three ticks for every level that is still to come,
/// the current one included.
pub fn gravity_at(level: u32, soft_drop: bool) -> (ticks: u32)
    requires
        1 <= level <= MAX_LEVEL,
    ensures
        ticks == gravity_for(level as int, soft_drop),
{
    if soft_drop {
        SOFT_DROP_GRAVITY
    } else {
        3 * (MAX_LEVEL + 1 - level)
    }
}

/// The level that a game has reached with `lines_cleared` cleared lines: one
/// level for every ten lines, and none above the highest.
pub fn level_at(lines_cleared: u32) -> (level: u32)
    ensures
        level == level_for(lines_cleared as int),
        1 <= level <= MAX_LEVEL,
{
    let mut level: u32 = (lines_cleared / LINES_PER_LEVEL) + 1;
    if level >= MAX_LEVEL {
        level = MAX_LEVEL;
    }
    level
}

/// Empties every cell of a grid of the board's size, column by column.
fn blank_out(cells: &mut Vec<Vec<TetrisUnitBlock>>)
    requires
        well_shaped(grid_of(*old(cells))),
    ensures
        well_shaped(grid_of(*final(cells))),
        forall|x: int, y: int|
            in_grid(x, y) ==> (#[trigger] grid_of(*final(cells))[y][x]) == blank_cell(),
{
    let width: usize = BOARD_WIDTH;
    let height: usize = BOARD_HEIGHT;
    for i in 0usize..width
        invariant
            width == BOARD_WIDTH,
            height == BOARD_HEIGHT,
            well_shaped(grid_of(*cells)),
            forall|x: int, y: int|
                in_grid(x, y) && x < i ==> (#[trigger] grid_of(*cells)[y][x]) == blank_cell(),
    {
        for j in 0usize..height
            invariant
                width == BOARD_WIDTH,
                height == BOARD_HEIGHT,
                i < width,
                well_shaped(grid_of(*cells)),
                forall|x: int, y: int|
                    in_grid(x, y) && (x < i || (x == i && y < j)) ==> (#[trigger] grid_of(
                        *cells,
                    )[y][x]) == blank_cell(),
        {
            let ghost start = grid_of(*cells);
            assert(start[j as int].len() == width);
            cells[j][i] = TetrisUnitBlock { is_filled: false, color: Color::rgb(0, 0, 0) };
            proof {
                assert forall|y: int| 0 <= y < BOARD_HEIGHT implies (#[trigger] grid_of(
                    *cells,
                )[y]).len() == BOARD_WIDTH by {
                    assert(start[y].len() == BOARD_WIDTH);
                }
                assert forall|x: int, y: int|
                    in_grid(x, y) && (x < i || (x == i && y < j + 1)) implies (#[trigger] grid_of(
                    *cells,
                )[y][x]) == blank_cell() by {
                    if !(x == i && y == j) {
                        assert(start[y][x] == blank_cell());
                    }
                }
            }
        }
    }
}

/// Writes the frame into a grid of the board's size.
fn raise_walls(cells: &mut Vec<Vec<TetrisUnitBlock>>)
    requires
        well_shaped(grid_of(*old(cells))),
    ensures
        well_shaped(grid_of(*final(cells))),
        forall|x: int, y: int|
            in_grid(x, y) ==> (#[trigger] grid_of(*final(cells))[y][x]) == (if on_border(x, y) {
                wall_cell()
            } else {
                grid_of(*old(cells))[y][x]
            }),
{
    let width: usize = BOARD_WIDTH;
    let height: usize = BOARD_HEIGHT;
    let ghost before = grid_of(*cells);
    assert(cells@.len() == height);
    for i in 0usize..width
        invariant
            width == BOARD_WIDTH,
            height == BOARD_HEIGHT,
            well_shaped(before),
            well_shaped(grid_of(*cells)),
            forall|x: int, y: int|
                in_grid(x, y) ==> (#[trigger] grid_of(*cells)[y][x]) == (if (y == 0 || y == height
                    - 1) && x < i {
                    wall_cell()
                } else {
                    before[y][x]
                }),
    {
        let ghost start = grid_of(*cells);
        assert(start[0].len() == width);
        assert(start[height - 1].len() == width);
        cells[0][i] = TetrisUnitBlock { is_filled: true, color: Color::rgb(255, 255, 255) };
        cells[height - 1][i] = TetrisUnitBlock {
            is_filled: true,
            color: Color::rgb(255, 255, 255),
        };
        assert(well_shaped(grid_of(*cells))) by {
            assert forall|y: int| 0 <= y < BOARD_HEIGHT implies (#[trigger] grid_of(
                *cells,
            )[y]).len() == BOARD_WIDTH by {
                assert(start[y].len() == BOARD_WIDTH);
            }
        }
        assert forall|x: int, y: int| in_grid(x, y) implies (#[trigger] grid_of(*cells)[y][x]) == (
        if (y == 0 || y == height - 1) && x < i + 1 {
            wall_cell()
        } else {
            before[y][x]
        }) by {
            assert(start[y][x] == (if (y == 0 || y == height - 1) && x < i {
                wall_cell()
            } else {
                before[y][x]
            }));
        }
    }
    let ghost middle = grid_of(*cells);
    for i in 0usize..height
        invariant
            width == BOARD_WIDTH,
            height == BOARD_HEIGHT,
            well_shaped(before),
            well_shaped(middle),
            well_shaped(grid_of(*cells)),
            forall|x: int, y: int|
                in_grid(x, y) ==> (#[trigger] middle[y][x]) == (if y == 0 || y == height - 1 {
                    wall_cell()
                } else {
                    before[y][x]
                }),
            forall|x: int, y: int|
                in_grid(x, y) ==> (#[trigger] grid_of(*cells)[y][x]) == (if (x == 0 || x == width
                    - 1) && y < i {
                    wall_cell()
                } else {
                    middle[y][x]
                }),
    {
        let ghost start = grid_of(*cells);
        assert(start[i as int].len() == width);
        cells[i][0] = TetrisUnitBlock { is_filled: true, color: Color::rgb(255, 255, 255) };
        cells[i][width - 1] = TetrisUnitBlock {
            is_filled: true,
            color: Color::rgb(255, 255, 255),
        };
        assert(well_shaped(grid_of(*cells))) by {
            assert forall|y: int| 0 <= y < BOARD_HEIGHT implies (#[trigger] grid_of(
                *cells,
            )[y]).len() == BOARD_WIDTH by {
                assert(start[y].len() == BOARD_WIDTH);
            }
        }
        assert forall|x: int, y: int| in_grid(x, y) implies (#[trigger] grid_of(*cells)[y][x]) == (
        if (x == 0 || x == width - 1) && y < i + 1 {
            wall_cell()
        } else {
            middle[y][x]
        }) by {
            assert(start[y][x] == (if (x == 0 || x == width - 1) && y < i {
                wall_cell()
            } else {
                middle[y][x]
            }));
        }
    }
    assert forall|x: int, y: int| in_grid(x, y) implies (#[trigger] grid_of(*cells)[y][x]) == (
    if on_border(x, y) {
        wall_cell()
    } else {
        before[y][x]
    }) by {
        assert(middle[y][x] == (if y == 0 || y == height - 1 {
            wall_cell()
        } else {
            before[y][x]
        }));
    }
}

impl<R: RandomSource> TetrisBoard<R> {
    /// The board is as it can be in the middle of a tick.
    pub closed spec fn shaped(&self) -> bool {
        &&& self.width == BOARD_WIDTH
        &&& self.height == BOARD_HEIGHT
        &&& self.active_piece.wf()
        &&& self@.shaped()
    }

    /// The board is as it can be between ticks.
    pub open spec fn wf(&self) -> bool {
        self.shaped() && self@.wf()
    }

    /// A board at the start of a game whose pieces are drawn with `source`.
    pub fn new(source: R) -> (board: Self)
        ensures
            board.wf(),
            board@ == BoardView::started(board@.generator),
            board@.generator.idx == 0,
    {
        let mut board: Vec<Vec<TetrisUnitBlock>> = Vec::new();
        let width: usize = BOARD_WIDTH;
        let height: usize = BOARD_HEIGHT;

        for i in 0usize..height
            invariant
                width == BOARD_WIDTH,
                height == BOARD_HEIGHT,
                board@.len() == i,
                forall|y: int| 0 <= y < i ==> (#[trigger] board@[y])@.len() == width,
                forall|x: int, y: int|
                    0 <= y < i && 0 <= x < width ==> (#[trigger] board@[y]@[x]) == blank_cell(),
        {
            let mut row: Vec<TetrisUnitBlock> = Vec::new();
            for j in 0usize..width
                invariant
                    row@.len() == j,
                    forall|x: int| 0 <= x < j ==> (#[trigger] row@[x]) == blank_cell(),
            {
                row.push(TetrisUnitBlock { is_filled: false, color: Color::rgb(0, 0, 0) });
            }
            board.push(row);
        }
        let ghost empty = grid_of(board);
        raise_walls(&mut board);
        proof {
            assert forall|x: int, y: int| in_grid(x, y) implies (#[trigger] grid_of(board)[y][x])
                == fresh_grid()[y][x] by {
                assert(empty[y][x] == blank_cell());
            }
            lemma_grid_by_cells(grid_of(board), fresh_grid());
        }

        let mut random_tetris_piece_generator = RandomTetrisPieceGenerator::new(source);
        let active_piece = random_tetris_piece_generator.get_next_piece(
            Pos2D::xy(START_X, START_Y),
        );
        proof {
            lemma_spawn_fits(active_piece@.kind);
        }

        TetrisBoard {
            width: width,
            height: height,
            board: board,
            active_piece: active_piece,
            tetris_gen: random_tetris_piece_generator,
            gravity: DEFAULT_GRAVITY,
            gravity_countdown: DEFAULT_GRAVITY,
            lock_delay: LOCK_DELAY,
            lock_delay_countdown: LOCK_DELAY,
            lines_cleared: 0,
            is_game_over: false,
            game_over_delay: GAME_OVER_DELAY,
            game_over_countdown: GAME_OVER_DELAY,
            locking_state: false,
            level: 1,
        }
    }

    /// How many cells the grid is wide, the walls included.
    pub fn width(&self) -> (width: usize)
        requires
            self.shaped(),
        ensures
            width == BOARD_WIDTH,
    {
        self.width
    }

    /// How many cells the grid is high, ceiling and floor included.
    pub fn height(&self) -> (height: usize)
        requires
            self.shaped(),
        ensures
            height == BOARD_HEIGHT,
    {
        self.height
    }

    /// The cell in row `row`, column `column`.
    pub fn block(&self, row: usize, column: usize) -> (cell: TetrisUnitBlock)
        requires
            self.shaped(),
            row < BOARD_HEIGHT,
            column < BOARD_WIDTH,
        ensures
            cell == self@.grid[row as int][column as int],
    {
        assert(self@.grid[row as int].len() == BOARD_WIDTH);
        self.board[row][column]
    }

    /// The piece that is falling.
    pub fn active_piece(&self) -> (piece: &TetrisPiece)
        requires
            self.shaped(),
        ensures
            piece.wf(),
            piece@ == self@.piece,
    {
        &self.active_piece
    }

    /// How many lines have been cleared in this game.
    pub fn lines_cleared(&self) -> (lines: u32)
        ensures
            lines == self@.lines_cleared,
    {
        self.lines_cleared
    }

    /// The level of the game, from one to ten.
    pub fn level(&self) -> (level: u32)
        ensures
            level == self@.level,
    {
        self.level
    }

    /// Whether the game is over.
    pub fn is_game_over(&self) -> (over: bool)
        ensures
            over == self@.is_game_over,
    {
        self.is_game_over
    }

    /// Whether the active piece is resting on something and about to lock.
    pub fn locking_state(&self) -> (resting: bool)
        ensures
            resting == self@.locking_state,
    {
        self.locking_state
    }

    /// The gravity period of the last tick, in ticks.
    pub fn gravity(&self) -> (ticks: u32)
        ensures
            ticks == self@.gravity,
    {
        self.gravity
    }

    /// How many ticks are left until gravity is due.
    pub fn gravity_countdown(&self) -> (ticks: u32)
        ensures
            ticks == self@.gravity_countdown,
    {
        self.gravity_countdown
    }

    /// How many ticks of the lock delay are left.
    pub fn lock_delay_countdown(&self) -> (ticks: u32)
        ensures
            ticks == self@.lock_delay_countdown,
    {
        self.lock_delay_countdown
    }

    /// How many ticks a finished game still ignores the request for a new one.
    pub fn game_over_countdown(&self) -> (ticks: u32)
        ensures
            ticks == self@.game_over_countdown,
    {
        self.game_over_countdown
    }

    /// Whether the active piece overlaps no filled cell. The piece lies in the
    /// grid, so every cell that is looked at exists; a piece that reaches into
    /// the frame is found to overlap it.
    pub fn is_valid(&self) -> (valid: bool)
        requires
            self.shaped(),
        ensures
            valid == self@.is_valid(),
    {
        let mut cells = self.active_piece.iter();
        loop
            invariant
                self.shaped(),
                cells.wf(),
                cells@.piece == self@.piece,
                0 <= cells@.block <= 4,
                forall|block: int|
                    0 <= block < cells@.block ==> cell_free(
                        self@.grid,
                        (#[trigger] self@.piece.cell(block)).0,
                        self@.piece.cell(block).1,
                    ),
            decreases 4 - cells@.block,
        {
            let ghost at = cells@.block;
            proof {
                if at < 4 {
                    assert(in_grid(self@.piece.cell(at).0, self@.piece.cell(at).1));
                }
            }
            match cells.next() {
                None => {
                    return true;
                },
                Some(pos) => {
                    assert(self@.grid[pos.y as int].len() == BOARD_WIDTH);
                    if self.board[pos.y as usize][pos.x as usize].is_filled {
                        assert(!cell_free(
                            self@.grid,
                            self@.piece.cell(at).0,
                            self@.piece.cell(at).1,
                        ));
                        return false;
                    }
                },
            }
        }
    }

    /// Whether `piece`, which need not lie in the grid, would overlap no filled
    /// cell and no cell outside the grid.
    fn fits(&self, piece: &TetrisPiece) -> (free: bool)
        requires
            self.shaped(),
            piece.wf(),
            -2 <= piece@.origin.0 <= BOARD_WIDTH,
            -2 <= piece@.origin.1 <= BOARD_HEIGHT,
        ensures
            free == placement_free(self@.grid, piece@),
    {
        let mut cells = piece.iter();
        loop
            invariant
                self.shaped(),
                piece.wf(),
                cells.wf(),
                cells@.piece == piece@,
                0 <= cells@.block <= 4,
                -2 <= piece@.origin.0 <= BOARD_WIDTH,
                -2 <= piece@.origin.1 <= BOARD_HEIGHT,
                forall|block: int|
                    0 <= block < cells@.block ==> cell_free(
                        self@.grid,
                        (#[trigger] piece@.cell(block)).0,
                        piece@.cell(block).1,
                    ),
            decreases 4 - cells@.block,
        {
            let ghost at = cells@.block;
            proof {
                piece.lemma_wf();
                if at < 4 {
                    lemma_offsets_bounded(piece@, at);
                }
            }
            match cells.next() {
                None => {
                    return true;
                },
                Some(pos) => {
                    if pos.x < 0 || pos.y < 0 || pos.x >= BOARD_WIDTH as i32 || pos.y
                        >= BOARD_HEIGHT as i32 {
                        assert(!cell_free(self@.grid, piece@.cell(at).0, piece@.cell(at).1));
                        return false;
                    }
                    assert(self@.grid[pos.y as int].len() == BOARD_WIDTH);
                    if self.board[pos.y as usize][pos.x as usize].is_filled {
                        assert(!cell_free(self@.grid, piece@.cell(at).0, piece@.cell(at).1));
                        return false;
                    }
                },
            }
        }
    }

    /// Tries to move the active piece by `pos`. The move is tried on a copy of
    /// the piece and taken over only if the copy overlaps nothing: the piece
    /// moves, or the board stays as it was.
    pub fn move_active_piece(&mut self, pos: Pos2D) -> (moved: bool)
        requires
            old(self).wf(),
        ensures
            final(self).wf(),
            moved == old(self)@.can_move(pos.x as int, pos.y as int),
            final(self)@ == old(self)@.moved(pos.x as int, pos.y as int),
    {
        let origin: Pos2D = self.active_piece.position();
        let x: i64 = origin.x as i64 + pos.x as i64;
        let y: i64 = origin.y as i64 + pos.y as i64;
        proof {
            self.active_piece.lemma_wf();
            lemma_offsets_bounded(self@.piece.translated(pos.x as int, pos.y as int), 0);
        }
        if x < -2 || x > BOARD_WIDTH as i64 || y < -2 || y > BOARD_HEIGHT as i64 {
            // Not one block of the piece would lie in the grid.
            let ghost target = self@.piece.translated(pos.x as int, pos.y as int);
            assert(!cell_free(self@.grid, target.cell(0).0, target.cell(0).1));
            return false;
        }
        let mut candidate: TetrisPiece = self.active_piece;
        candidate.move_by(pos);

        if !self.fits(&candidate) {
            false
        } else {
            self.active_piece = candidate;
            proof {
                lemma_free_placement_lies_in_grid(self@.grid, candidate@);
            }
            true
        }
    }

    /// Tries to turn the active piece to its next orientation, in the same
    /// way: the piece turns, or the board stays as it was.
    pub fn rotate_active_piece_right(&mut self) -> (turned: bool)
        requires
            old(self).wf(),
        ensures
            final(self).wf(),
            turned == old(self)@.can_turn(),
            final(self)@ == old(self)@.turned(),
    {
        let mut candidate: TetrisPiece = self.active_piece;
        candidate.rotate_right();
        proof {
            self.active_piece.lemma_wf();
            lemma_offsets_bounded(self@.piece, 0);
            assert(in_grid(self@.piece.cell(0).0, self@.piece.cell(0).1));
        }

        if !self.fits(&candidate) {
            false
        } else {
            self.active_piece = candidate;
            proof {
                lemma_free_placement_lies_in_grid(self@.grid, candidate@);
            }
            true
        }
    }

    /// Writes the blocks of `piece` into the grid: each of its cells becomes a
    /// filled cell of the piece's colour.
    pub(crate) fn consume(&mut self, piece: TetrisPiece)
        requires
            old(self).shaped(),
            piece.wf(),
            piece_in_grid(piece@),
        ensures
            final(self).shaped(),
            final(self)@ == (BoardView {
                grid: consumed(old(self)@.grid, piece@),
                ..old(self)@
            }),
    {
        let ghost before = self@.grid;
        let mut cells = piece.iter();
        loop
            invariant
                self.shaped(),
                piece.wf(),
                piece_in_grid(piece@),
                cells.wf(),
                cells@.piece == piece@,
                0 <= cells@.block <= 4,
                before == old(self)@.grid,
                self@ == (BoardView { grid: self@.grid, ..old(self)@ }),
                forall|x: int, y: int|
                    in_grid(x, y) ==> (#[trigger] self@.grid[y][x]) == (if covers_among(
                        piece@,
                        cells@.block,
                        x,
                        y,
                    ) {
                        locked_cell(piece@)
                    } else {
                        before[y][x]
                    }),
            decreases 4 - cells@.block,
        {
            let ghost at = cells@.block;
            let ghost start = self@.grid;
            proof {
                if at < 4 {
                    assert(in_grid(piece@.cell(at).0, piece@.cell(at).1));
                }
            }
            match cells.next() {
                None => {
                    proof {
                        assert forall|x: int, y: int| in_grid(x, y) implies (
                        #[trigger] self@.grid[y][x]) == consumed(before, piece@)[y][x] by {
                            assert(covers_among(piece@, 4, x, y) == piece@.covers(x, y));
                        }
                        lemma_grid_by_cells(self@.grid, consumed(before, piece@));
                    }
                    return ;
                },
                Some(pos) => {
                    assert(start[pos.y as int].len() == BOARD_WIDTH);
                    self.board[pos.y as usize][pos.x as usize].is_filled = true;
                    self.board[pos.y as usize][pos.x as usize].color = piece.color();
                    proof {
                        assert forall|y: int| 0 <= y < BOARD_HEIGHT implies (#[trigger] self@.grid[y]).len()
                            == BOARD_WIDTH by {
                            assert(start[y].len() == BOARD_WIDTH);
                        }
                        assert forall|x: int, y: int| in_grid(x, y) implies (
                        #[trigger] self@.grid[y][x]) == (if covers_among(piece@, at + 1, x, y) {
                            locked_cell(piece@)
                        } else {
                            before[y][x]
                        }) by {
                            assert(start[y][x] == (if covers_among(piece@, at, x, y) {
                                locked_cell(piece@)
                            } else {
                                before[y][x]
                            }));
                            if piece@.cell(at) == (x, y) {
                                assert(covers_among(piece@, at + 1, x, y));
                            } else {
                                assert(covers_among(piece@, at + 1, x, y) == covers_among(
                                    piece@,
                                    at,
                                    x,
                                    y,
                                ));
                            }
                        }
                        assert forall|x: int, y: int| in_grid(x, y) && on_border(x, y) implies (
                        #[trigger] self@.grid[y][x]).is_filled by {
                            assert(start[y][x].is_filled);
                        }
                    }
                },
            }
        }
    }

    /// Whether every cell of row `row` between the walls is filled.
    pub fn is_row_full(&self, row: usize) -> (full: bool)
        requires
            self.shaped(),
            row < BOARD_HEIGHT,
        ensures
            full == row_is_full(self@.grid[row as int].subrange(1, BOARD_WIDTH - 1)),
    {
        let ghost cells = self@.grid[row as int].subrange(1, BOARD_WIDTH - 1);
        assert(self@.grid[row as int].len() == BOARD_WIDTH);
        for i in 1..self.width - 1
            invariant
                self.shaped(),
                row < BOARD_HEIGHT,
                cells == self@.grid[row as int].subrange(1, BOARD_WIDTH - 1),
                self@.grid[row as int].len() == BOARD_WIDTH,
                forall|x: int| 0 <= x < i - 1 ==> (#[trigger] cells[x]).is_filled,
        {
            if !self.board[row][i].is_filled {
                assert(!cells[i - 1].is_filled);
                return false;
            }
        }
        true
    }

    /// Whether no cell of row `row` between the walls is filled.
    pub fn is_row_empty(&self, row: usize) -> (empty: bool)
        requires
            self.shaped(),
            row < BOARD_HEIGHT,
        ensures
            empty == row_is_empty(self@.grid[row as int].subrange(1, BOARD_WIDTH - 1)),
    {
        let ghost cells = self@.grid[row as int].subrange(1, BOARD_WIDTH - 1);
        assert(self@.grid[row as int].len() == BOARD_WIDTH);
        for i in 1..self.width - 1
            invariant
                self.shaped(),
                row < BOARD_HEIGHT,
                cells == self@.grid[row as int].subrange(1, BOARD_WIDTH - 1),
                self@.grid[row as int].len() == BOARD_WIDTH,
                forall|x: int| 0 <= x < i - 1 ==> !(#[trigger] cells[x]).is_filled,
        {
            if self.board[row][i].is_filled {
                assert(cells[i - 1].is_filled);
                return false;
            }
        }
        true
    }

    /// Takes row `row` out of the playfield: every row above it moves down by
    /// one, cell by cell, and the top row of the playfield becomes empty.
    pub(crate) fn shift_down(&mut self, row: usize)
        requires
            old(self).shaped(),
            1 <= row < BOARD_HEIGHT - 1,
        ensures
            final(self).shaped(),
            final(self)@ == (BoardView {
                grid: with_interior(
                    old(self)@.grid,
                    shifted_down(interior_rows(old(self)@.grid), row - 1),
                ),
                ..old(self)@
            }),
    {
        let ghost before = self@.grid;
        let width: usize = self.width;
        let mut i: usize = row;
        while i >= 2
            invariant
                self.shaped(),
                width == BOARD_WIDTH,
                1 <= i <= row < BOARD_HEIGHT - 1,
                before == old(self)@.grid,
                self@ == (BoardView { grid: self@.grid, ..old(self)@ }),
                forall|x: int, y: int|
                    in_grid(x, y) ==> (#[trigger] self@.grid[y][x]) == (if !on_border(x, y) && i < y
                        <= row {
                        before[y - 1][x]
                    } else {
                        before[y][x]
                    }),
            decreases i,
        {
            for j in 1..width - 1
                invariant
                    self.shaped(),
                    width == BOARD_WIDTH,
                    2 <= i <= row < BOARD_HEIGHT - 1,
                    before == old(self)@.grid,
                    self@ == (BoardView { grid: self@.grid, ..old(self)@ }),
                    forall|x: int, y: int|
                        in_grid(x, y) ==> (#[trigger] self@.grid[y][x]) == (if !on_border(x, y) && (
                        i < y <= row || (y == i && x < j)) {
                            before[y - 1][x]
                        } else {
                            before[y][x]
                        }),
            {
                let ghost start = self@.grid;
                assert(start[i as int].len() == BOARD_WIDTH);
                assert(start[i - 1].len() == BOARD_WIDTH);
                assert(in_grid(j as int, i - 1));
                assert(start[i - 1][j as int] == before[i - 1][j as int]);
                self.board[i][j].is_filled = self.board[i - 1][j].is_filled;
                self.board[i][j].color = self.board[i - 1][j].color;
                proof {
                    assert forall|y: int| 0 <= y < BOARD_HEIGHT implies (#[trigger] self@.grid[y]).len()
                        == BOARD_WIDTH by {
                        assert(start[y].len() == BOARD_WIDTH);
                    }
                    assert forall|x: int, y: int| in_grid(x, y) implies (
                    #[trigger] self@.grid[y][x]) == (if !on_border(x, y) && (i < y <= row || (y == i
                        && x < j + 1)) {
                        before[y - 1][x]
                    } else {
                        before[y][x]
                    }) by {
                        assert(start[y][x] == (if !on_border(x, y) && (i < y <= row || (y == i && x
                            < j)) {
                            before[y - 1][x]
                        } else {
                            before[y][x]
                        }));
                    }
                    assert forall|x: int, y: int| in_grid(x, y) && on_border(x, y) implies (
                    #[trigger] self@.grid[y][x]).is_filled by {
                        assert(start[y][x].is_filled);
                    }
                }
            }
            i = i - 1;
        }
        for j in 1..width - 1
            invariant
                self.shaped(),
                width == BOARD_WIDTH,
                i == 1,
                1 <= row < BOARD_HEIGHT - 1,
                before == old(self)@.grid,
                self@ == (BoardView { grid: self@.grid, ..old(self)@ }),
                forall|x: int, y: int|
                    in_grid(x, y) ==> (#[trigger] self@.grid[y][x]) == (if !on_border(x, y) && 1 < y
                        <= row {
                        before[y - 1][x]
                    } else if y == 1 && 1 <= x < j {
                        blank_cell()
                    } else {
                        before[y][x]
                    }),
        {
            let ghost start = self@.grid;
            assert(start[1].len() == BOARD_WIDTH);
            self.board[1][j] = TetrisUnitBlock { is_filled: false, color: Color::rgb(0, 0, 0) };
            proof {
                assert forall|y: int| 0 <= y < BOARD_HEIGHT implies (#[trigger] self@.grid[y]).len()
                    == BOARD_WIDTH by {
                    assert(start[y].len() == BOARD_WIDTH);
                }
                assert forall|x: int, y: int| in_grid(x, y) implies (#[trigger] self@.grid[y][x])
                    == (if !on_border(x, y) && 1 < y <= row {
                    before[y - 1][x]
                } else if y == 1 && 1 <= x < j + 1 {
                    blank_cell()
                } else {
                    before[y][x]
                }) by {
                    assert(start[y][x] == (if !on_border(x, y) && 1 < y <= row {
                        before[y - 1][x]
                    } else if y == 1 && 1 <= x < j {
                        blank_cell()
                    } else {
                        before[y][x]
                    }));
                }
                assert forall|x: int, y: int| in_grid(x, y) && on_border(x, y) implies (
                #[trigger] self@.grid[y][x]).is_filled by {
                    assert(start[y][x].is_filled);
                }
            }
        }
        proof {
            let rows = interior_rows(before);
            let target = with_interior(before, shifted_down(rows, row - 1));
            lemma_interior_rows_shaped(before);
            lemma_shifted_down_shaped(rows, row - 1);
            lemma_with_interior(before, shifted_down(rows, row - 1));
            assert forall|x: int, y: int| in_grid(x, y) implies (#[trigger] self@.grid[y][x])
                == target[y][x] by {
                assert(before[y].len() == BOARD_WIDTH);
                if !on_border(x, y) {
                    if y == 1 {
                        assert(shifted_down(rows, row - 1)[0] == blank_row());
                    } else if y <= row {
                        assert(shifted_down(rows, row - 1)[y - 1] == rows[y - 2]);
                        assert(before[y - 1].len() == BOARD_WIDTH);
                        assert(rows[y - 2][x - 1] == before[y - 1][x]);
                    } else {
                        assert(shifted_down(rows, row - 1)[y - 1] == rows[y - 1]);
                        assert(rows[y - 1][x - 1] == before[y][x]);
                    }
                }
            }
            lemma_grid_by_cells(self@.grid, target);
        }
    }

    /// Clears the full rows of the playfield, from the bottom up. A full row
    /// is taken out and counted, and the row that comes down into its place is
    /// looked at again before the row above is.
    pub(crate) fn clear_lines(&mut self)
        requires
            old(self).shaped(),
            old(self)@.lines_cleared + full_rows(interior_rows(old(self)@.grid)) <= u32::MAX,
        ensures
            final(self).shaped(),
            final(self)@ == (BoardView {
                grid: with_interior(old(self)@.grid, settled(interior_rows(old(self)@.grid))),
                lines_cleared: old(self)@.lines_cleared + full_rows(
                    interior_rows(old(self)@.grid),
                ),
                ..old(self)@
            }),
    {
        let ghost before = self@.grid;
        let ghost rows = interior_rows(before);
        let mut i: usize = self.height - 2;
        while i >= 1
            invariant
                self.shaped(),
                i <= BOARD_HEIGHT - 2,
                before == old(self)@.grid,
                rows == interior_rows(before),
                same_border(self@.grid, before),
                settled(interior_rows(self@.grid)) == settled(rows),
                self@.lines_cleared + full_rows(interior_rows(self@.grid)) == old(
                    self,
                )@.lines_cleared + full_rows(rows),
                old(self)@.lines_cleared + full_rows(rows) <= u32::MAX,
                forall|r: int|
                    i <= r < playfield_rows() ==> !row_is_full(
                        #[trigger] interior_rows(self@.grid)[r],
                    ),
                self@ == (BoardView {
                    grid: self@.grid,
                    lines_cleared: self@.lines_cleared,
                    ..old(self)@
                }),
            decreases i,
        {
            while self.is_row_full(i)
                invariant
                    self.shaped(),
                    1 <= i <= BOARD_HEIGHT - 2,
                    before == old(self)@.grid,
                    rows == interior_rows(before),
                    same_border(self@.grid, before),
                    settled(interior_rows(self@.grid)) == settled(rows),
                    self@.lines_cleared + full_rows(interior_rows(self@.grid)) == old(
                        self,
                    )@.lines_cleared + full_rows(rows),
                    old(self)@.lines_cleared + full_rows(rows) <= u32::MAX,
                    forall|r: int|
                        i <= r < playfield_rows() ==> !row_is_full(
                            #[trigger] interior_rows(self@.grid)[r],
                        ),
                    self@ == (BoardView {
                        grid: self@.grid,
                        lines_cleared: self@.lines_cleared,
                        ..old(self)@
                    }),
                decreases full_rows(interior_rows(self@.grid)),
            {
                let ghost start = self@.grid;
                let ghost now = interior_rows(start);
                proof {
                    assert(now[i - 1] == start[i as int].subrange(1, BOARD_WIDTH - 1));
                    lemma_shift_clears_one_row(now, i - 1);
                    lemma_interior_rows_shaped(start);
                    lemma_shifted_down_shaped(now, i - 1);
                    lemma_with_interior(start, shifted_down(now, i - 1));
                }
                self.lines_cleared += 1;
                self.shift_down(i);
                proof {
                    assert(interior_rows(self@.grid) == shifted_down(now, i - 1));
                    assert forall|x: int, y: int| in_grid(x, y) && on_border(x, y) implies (
                    #[trigger] self@.grid[y][x]) == before[y][x] by {
                        assert(start[y][x] == before[y][x]);
                    }
                    assert forall|r: int| i <= r < playfield_rows() implies !row_is_full(
                        #[trigger] interior_rows(self@.grid)[r],
                    ) by {
                        assert(interior_rows(self@.grid)[r] == now[r]);
                    }
                }
            }
            proof {
                assert(interior_rows(self@.grid)[i - 1] == self@.grid[i as int].subrange(
                    1,
                    BOARD_WIDTH - 1,
                ));
            }
            i = i - 1;
        }
        proof {
            let after = interior_rows(self@.grid);
            lemma_settled_without_full_rows(after);
            lemma_interior_rows_shaped(before);
            lemma_settled_is_playfield_shaped(rows);
            lemma_with_interior(before, settled(rows));
            assert forall|x: int, y: int| in_grid(x, y) && on_border(x, y) implies (
            #[trigger] self@.grid[y][x]) == with_interior(before, settled(rows))[y][x] by {
                assert(self@.grid[y][x] == before[y][x]);
            }
            lemma_grid_by_parts(self@.grid, with_interior(before, settled(rows)));
        }
    }

    /// Starts a new game on this board: the grid, the timers, the counters and
    /// the level become those of a new board, the generator's bag counts as
    /// used up, and the first piece of a fresh bag enters.
    pub fn reset(&mut self)
        requires
            old(self).shaped(),
        ensures
            final(self).wf(),
            final(self)@ == BoardView::started(final(self)@.generator),
            final(self)@.generator == old(self)@.generator.rearmed().after_draw(
                final(self)@.generator.bag,
            ),
            final(self)@.generator.idx == 0,
    {
        blank_out(&mut self.board);
        let ghost empty = grid_of(self.board);
        raise_walls(&mut self.board);
        proof {
            assert forall|x: int, y: int| in_grid(x, y) implies (#[trigger] grid_of(
                self.board,
            )[y][x]) == fresh_grid()[y][x] by {
                assert(empty[y][x] == blank_cell());
            }
            lemma_grid_by_cells(grid_of(self.board), fresh_grid());
        }

        self.tetris_gen.reset();
        self.active_piece = self.tetris_gen.get_next_piece(Pos2D::xy(START_X, START_Y));
        self.gravity = DEFAULT_GRAVITY;
        self.gravity_countdown = DEFAULT_GRAVITY;
        self.lock_delay = LOCK_DELAY;
        self.lock_delay_countdown = LOCK_DELAY;
        self.lines_cleared = 0;
        self.is_game_over = false;
        self.game_over_delay = GAME_OVER_DELAY;
        self.game_over_countdown = GAME_OVER_DELAY;
        self.locking_state = false;
        self.level = 1;
        proof {
            lemma_spawn_fits(self@.piece.kind);
        }
    }

    /// Steers the piece as the player asks: a step to the left, a step to the
    /// right and a turn, each tried on its own.
    fn steer(&mut self, input: &Input)
        requires
            old(self).wf(),
        ensures
            final(self).wf(),
            final(self)@ == old(self)@.steered(*input),
    {
        if input.left_key_pressed {
            self.move_active_piece(Pos2D::xy(-1, 0));
        }
        if input.right_key_pressed {
            self.move_active_piece(Pos2D::xy(1, 0));
        }
        if input.up_key_pressed {
            self.rotate_active_piece_right();
        }
    }

    /// Sets the gravity period for this tick and lets the timers run for one
    /// tick.
    fn run_timers(&mut self, input: &Input)
        requires
            old(self).wf(),
        ensures
            final(self).wf(),
            final(self)@ == old(self)@.paced(*input),
    {
        self.gravity = gravity_at(self.level, input.down_key_pressed);

        if self.gravity_countdown > 0 {
            self.gravity_countdown -= 1;
        }
        if self.lock_delay_countdown > 0 && self.locking_state {
            self.lock_delay_countdown -= 1;
        }
    }

    /// Lets the piece try a step down if gravity is due or the piece is
    /// resting.
    fn descend(&mut self)
        requires
            old(self).wf(),
        ensures
            final(self).wf(),
            final(self)@ == old(self)@.descended(),
    {
        if self.gravity_countdown == 0 || self.locking_state {
            self.gravity_countdown = self.gravity;
            let move_down_success: bool = self.move_active_piece(Pos2D::xy(0, 1));

            if move_down_success {
                self.lock_delay_countdown = self.lock_delay;
                self.game_over_countdown = self.game_over_delay;
                self.locking_state = false;
            } else {
                self.locking_state = true;
            }
        }
    }

    /// Locks the active piece: writes it into the grid, lets the next piece
    /// enter, clears the full rows, and ends the game if the piece that has
    /// entered overlaps a filled cell.
    fn lock_piece(&mut self)
        requires
            old(self).wf(),
            !old(self)@.is_game_over,
            old(self)@.lines_cleared + playfield_rows() <= u32::MAX,
        ensures
            final(self).shaped(),
            old(self)@.generator.draws_to(final(self)@.generator),
            final(self)@ == old(self)@.locked(final(self)@.generator.bag),
    {
        let mut piece_to_consume: TetrisPiece = self.tetris_gen.get_next_piece(
            Pos2D::xy(START_X, START_Y),
        );
        std::mem::swap(&mut self.active_piece, &mut piece_to_consume);
        proof {
            lemma_spawn_fits(self@.piece.kind);
        }
        self.consume(piece_to_consume);
        proof {
            lemma_interior_rows_shaped(self@.grid);
            lemma_full_rows_bounded(interior_rows(self@.grid));
        }
        self.clear_lines();

        if !self.is_valid() {
            self.is_game_over = true;
        }
        self.lock_delay_countdown = self.lock_delay;
        self.locking_state = false;
    }

    /// Sets the level that the cleared lines give.
    fn set_level(&mut self)
        requires
            old(self).shaped(),
        ensures
            final(self).shaped(),
            final(self)@ == old(self)@.leveled(),
    {
        self.level = level_at(self.lines_cleared);
    }

    /// One tick of a finished game.
    fn wait_for_restart(&mut self, input: &Input)
        requires
            old(self).wf(),
            old(self)@.is_game_over,
        ensures
            final(self).wf(),
            final(self)@ == old(self)@.waited(*input, final(self)@.generator.bag),
            !old(self)@.restarts(*input) ==> final(self)@.generator.bag == old(
                self,
            )@.generator.bag,
    {
        if self.game_over_countdown > 0 {
            self.game_over_countdown -= 1;
        }
        if self.game_over_countdown == 0 && input.up_key_pressed {
            self.reset();
        }
    }

    /// One tick of the game.
    ///
    /// While the game is on, the tick steers the piece as `input` asks, runs
    /// the timers, lets the piece step down when gravity is due or the piece
    /// is resting, locks a piece whose lock delay has run out, and sets the
    /// level. While the game is over, it runs the game-over countdown and,
    /// once that has run out, starts a new game when a turn is asked for.
    ///
    /// While the game is on, the counter of cleared lines must have room for
    /// the rows that one lock can clear. A finished game clears no lines and
    /// asks for no room.
    pub fn update(&mut self, input: &Input)
        requires
            old(self).wf(),
            !old(self)@.is_game_over ==> old(self)@.lines_cleared + playfield_rows() <= u32::MAX,
        ensures
            final(self).wf(),
            final(self)@ == old(self)@.tick(*input, final(self)@.generator.bag),
            !old(self)@.opens_bag(*input) ==> final(self)@.generator.bag == old(
                self,
            )@.generator.bag,
    {
        if self.is_game_over {
            self.wait_for_restart(input);
            return ;
        }
        self.steer(input);
        self.run_timers(input);
        self.descend();

        if self.locking_state && self.lock_delay_countdown == 0 {
            self.lock_piece();
        }
        self.set_level();
    }
}

} // verus!
