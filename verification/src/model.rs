use vstd::prelude::*;
use crate::generator::GeneratorView;
use crate::grid::{
    bordered, cell_free, consumed, fresh_grid, full_rows, in_grid, interior_rows, piece_in_grid,
    placement_free, settled, well_shaped, with_interior, Grid,
};
use crate::input::Input;
use crate::piece::{lemma_offsets_bounded, PieceKind, PieceView};

verus! {

/// The column of the origin of a piece that enters the playfield.
pub const START_X: i32 = 5;

/// The row of the origin of a piece that enters the playfield.
pub const START_Y: i32 = 2;

/// The gravity period of a new game, in ticks.
pub const DEFAULT_GRAVITY: u32 = 20;

/// The gravity period while the piece is dropped softly, in ticks.
pub const SOFT_DROP_GRAVITY: u32 = 2;

/// For how many ticks a resting piece can still be steered before it locks.
pub const LOCK_DELAY: u32 = 30;

/// For how many ticks a finished game ignores the request for a new one.
pub const GAME_OVER_DELAY: u32 = 60;

/// The highest level.
pub const MAX_LEVEL: u32 = 10;

/// How many cleared lines make a level.
pub const LINES_PER_LEVEL: u32 = 10;

/// The level reached with the given number of cleared lines.
pub open spec fn level_for(lines: int) -> int {
    if lines / (LINES_PER_LEVEL as int) + 1 >= MAX_LEVEL {
        MAX_LEVEL as int
    } else {
        lines / (LINES_PER_LEVEL as int) + 1
    }
}

/// The gravity period at the given level, in ticks.
pub open spec fn gravity_for(level: int, soft_drop: bool) -> int {
    if soft_drop {
        SOFT_DROP_GRAVITY as int
    } else {
        3 * (MAX_LEVEL + 1 - level)
    }
}

/// A piece of the given kind as it enters the playfield.
pub open spec fn spawned(kind: PieceKind) -> PieceView {
    PieceView { origin: (START_X as int, START_Y as int), orientation: 0, kind }
}

/// The board as a value.
pub ghost struct BoardView {
    pub grid: Grid,
    pub piece: PieceView,
    pub generator: GeneratorView,
    pub gravity: int,
    pub gravity_countdown: int,
    pub lock_delay: int,
    pub lock_delay_countdown: int,
    pub lines_cleared: int,
    pub is_game_over: bool,
    pub game_over_delay: int,
    pub game_over_countdown: int,
    pub locking_state: bool,
    pub level: int,
}

impl BoardView {
    /// What holds of the board at every moment, also in the middle of a tick:
    /// the grid has its size and its frame, the active piece lies in the grid,
    /// the generator holds a bag, the two delays have their lengths, and no
    /// countdown has run below zero or stands above its period.
    pub open spec fn shaped(self) -> bool {
        &&& well_shaped(self.grid)
        &&& bordered(self.grid)
        &&& self.piece.wf()
        &&& piece_in_grid(self.piece)
        &&& self.generator.wf()
        &&& self.lock_delay == LOCK_DELAY
        &&& self.game_over_delay == GAME_OVER_DELAY
        &&& 0 <= self.gravity
        &&& 0 <= self.gravity_countdown
        &&& 0 <= self.lock_delay_countdown <= self.lock_delay
        &&& 0 <= self.game_over_countdown <= self.game_over_delay
        &&& 0 <= self.lines_cleared
        &&& 1 <= self.level <= MAX_LEVEL
    }

    /// What holds of the board between ticks: besides the above, the active
    /// piece overlaps no filled cell while the game is on, the lock delay is
    /// fully armed unless the piece is resting, and the level is the one that
    /// the cleared lines give.
    pub open spec fn wf(self) -> bool {
        &&& self.shaped()
        &&& !self.is_game_over ==> self.is_valid()
        &&& !self.locking_state ==> self.lock_delay_countdown == self.lock_delay
        &&& self.level == level_for(self.lines_cleared)
    }

    /// Whether the active piece overlaps no filled cell.
    pub open spec fn is_valid(self) -> bool {
        placement_free(self.grid, self.piece)
    }

    /// The board at the start of a game, with the generator as it is after the
    /// first piece was drawn. Each of the three timers starts at its period.
    pub open spec fn started(generator: GeneratorView) -> BoardView {
        BoardView {
            grid: fresh_grid(),
            piece: spawned(generator.current_kind()),
            generator,
            gravity: DEFAULT_GRAVITY as int,
            gravity_countdown: DEFAULT_GRAVITY as int,
            lock_delay: LOCK_DELAY as int,
            lock_delay_countdown: LOCK_DELAY as int,
            lines_cleared: 0,
            is_game_over: false,
            game_over_delay: GAME_OVER_DELAY as int,
            game_over_countdown: GAME_OVER_DELAY as int,
            locking_state: false,
            level: 1,
        }
    }

    /// Whether the active piece can be moved by `dx` columns and `dy` rows.
    pub open spec fn can_move(self, dx: int, dy: int) -> bool {
        placement_free(self.grid, self.piece.translated(dx, dy))
    }

    /// The board after an attempt to move the active piece.
    pub open spec fn moved(self, dx: int, dy: int) -> BoardView {
        if self.can_move(dx, dy) {
            BoardView { piece: self.piece.translated(dx, dy), ..self }
        } else {
            self
        }
    }

    /// Whether the active piece can be turned to its next orientation.
    pub open spec fn can_turn(self) -> bool {
        placement_free(self.grid, self.piece.rotated_right())
    }

    /// The board after an attempt to turn the active piece.
    pub open spec fn turned(self) -> BoardView {
        if self.can_turn() {
            BoardView { piece: self.piece.rotated_right(), ..self }
        } else {
            self
        }
    }

    /// The board once the player's steering has been applied: a step to the
    /// left, then a step to the right, then a turn, each if asked for and each
    /// only if the piece then overlaps nothing.
    pub open spec fn steered(self, input: Input) -> BoardView {
        let after_left = if input.left_key_pressed {
            self.moved(-1, 0)
        } else {
            self
        };
        let after_right = if input.right_key_pressed {
            after_left.moved(1, 0)
        } else {
            after_left
        };
        if input.up_key_pressed {
            after_right.turned()
        } else {
            after_right
        }
    }

    /// The board once the gravity period has been set for this tick and the
    /// timers have run for one tick. The lock delay runs only while the piece
    /// is resting; no timer runs below zero.
    pub open spec fn paced(self, input: Input) -> BoardView {
        BoardView {
            gravity: gravity_for(self.level, input.down_key_pressed),
            gravity_countdown: if self.gravity_countdown > 0 {
                self.gravity_countdown - 1
            } else {
                0
            },
            lock_delay_countdown: if self.lock_delay_countdown > 0 && self.locking_state {
                self.lock_delay_countdown - 1
            } else {
                self.lock_delay_countdown
            },
            ..self
        }
    }

    /// Whether the piece is to try a step down now: gravity is due, or the
    /// piece is resting.
    pub open spec fn descent_due(self) -> bool {
        self.gravity_countdown == 0 || self.locking_state
    }

    /// The board once the piece has tried its step down, if one is due. A step
    /// taken arms the lock delay and the game-over delay anew and ends the
    /// rest; a step refused makes the piece rest.
    pub open spec fn descended(self) -> BoardView {
        if !self.descent_due() {
            self
        } else if self.can_move(0, 1) {
            BoardView {
                piece: self.piece.translated(0, 1),
                gravity_countdown: self.gravity,
                lock_delay_countdown: self.lock_delay,
                game_over_countdown: self.game_over_delay,
                locking_state: false,
                ..self
            }
        } else {
            BoardView { gravity_countdown: self.gravity, locking_state: true, ..self }
        }
    }

    /// Whether the resting piece is to lock now.
    pub open spec fn lock_due(self) -> bool {
        self.locking_state && self.lock_delay_countdown == 0
    }

    /// The board once the active piece has locked, if the generator then holds
    /// `bag`: the piece is written into the grid, the full rows are cleared
    /// and counted, and the next piece enters. The game is over if that piece
    /// overlaps a filled cell.
    pub open spec fn locked(self, bag: Seq<i32>) -> BoardView {
        let generator = self.generator.after_draw(bag);
        let piece = spawned(generator.current_kind());
        let filled = consumed(self.grid, self.piece);
        let grid = with_interior(filled, settled(interior_rows(filled)));
        BoardView {
            grid,
            piece,
            generator,
            lines_cleared: self.lines_cleared + full_rows(interior_rows(filled)),
            is_game_over: !placement_free(grid, piece),
            lock_delay_countdown: self.lock_delay,
            locking_state: false,
            ..self
        }
    }

    /// The board with the level that its cleared lines give.
    pub open spec fn leveled(self) -> BoardView {
        BoardView { level: level_for(self.lines_cleared), ..self }
    }

    /// The board of a running game after the part of a tick that comes before
    /// a lock: steering, timers, and the step down.
    pub open spec fn before_lock(self, input: Input) -> BoardView {
        self.steered(input).paced(input).descended()
    }

    /// The board of a running game after one tick, if the generator then holds
    /// `bag`.
    pub open spec fn played(self, input: Input, bag: Seq<i32>) -> BoardView {
        let board = self.before_lock(input);
        if board.lock_due() {
            board.locked(bag).leveled()
        } else {
            board.leveled()
        }
    }

    /// The game-over countdown after one more tick.
    pub open spec fn game_over_countdown_after(self) -> int {
        if self.game_over_countdown > 0 {
            self.game_over_countdown - 1
        } else {
            0
        }
    }

    /// The board of a finished game after one tick, if the generator then
    /// holds `bag`: the countdown runs, and once it has run out the request
    /// for a turn starts a new game. Nothing else is listened to.
    pub open spec fn waited(self, input: Input, bag: Seq<i32>) -> BoardView {
        if self.game_over_countdown_after() == 0 && input.up_key_pressed {
            BoardView::started(self.generator.rearmed().after_draw(bag))
        } else {
            BoardView { game_over_countdown: self.game_over_countdown_after(), ..self }
        }
    }

    /// The board after one tick, if the generator then holds `bag`.
    pub open spec fn tick(self, input: Input, bag: Seq<i32>) -> BoardView {
        if self.is_game_over {
            self.waited(input, bag)
        } else {
            self.played(input, bag)
        }
    }

    /// Whether this tick starts a new game.
    pub open spec fn restarts(self, input: Input) -> bool {
        self.is_game_over && self.game_over_countdown_after() == 0 && input.up_key_pressed
    }

    /// Whether this tick locks the active piece.
    pub open spec fn locks(self, input: Input) -> bool {
        !self.is_game_over && self.before_lock(input).lock_due()
    }

    /// Whether this tick makes the generator open a fresh bag. Only then can
    /// the bag after the tick differ from the bag before it.
    pub open spec fn opens_bag(self, input: Input) -> bool {
        self.restarts(input) || (self.locks(input) && self.generator.exhausted())
    }
}

/// A piece entering an empty playfield overlaps nothing.
pub proof fn lemma_spawn_fits(kind: PieceKind)
    ensures
        spawned(kind).wf(),
        piece_in_grid(spawned(kind)),
        placement_free(fresh_grid(), spawned(kind)),
{
    let piece = spawned(kind);
    assert forall|block: int| 0 <= block < 4 implies cell_free(
        fresh_grid(),
        (#[trigger] piece.cell(block)).0,
        piece.cell(block).1,
    ) by {
        lemma_offsets_bounded(piece, block);
    }
}

/// A piece that overlaps no filled cell lies in the grid.
pub proof fn lemma_free_placement_lies_in_grid(grid: Grid, piece: PieceView)
    requires
        placement_free(grid, piece),
    ensures
        piece_in_grid(piece),
{
    assert forall|block: int| 0 <= block < 4 implies in_grid(
        (#[trigger] piece.cell(block)).0,
        piece.cell(block).1,
    ) by {
        assert(cell_free(grid, piece.cell(block).0, piece.cell(block).1));
    }
}

} // verus!
