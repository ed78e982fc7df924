use vstd::prelude::*;
use crate::generator::{is_bag, GeneratorView};
use crate::grid::{
    bordered, cell_free, consumed, fresh_grid, in_grid, interior_rows,
    lemma_interior_rows_shaped, lemma_settled_is_playfield_shaped, lemma_with_interior,
    on_border, placement_free, settled, well_shaped,
};
use crate::input::Input;
use crate::model::{
    gravity_for, lemma_free_placement_lies_in_grid, lemma_spawn_fits, level_for, spawned,
    BoardView, LOCK_DELAY, MAX_LEVEL, SOFT_DROP_GRAVITY,
};
use crate::piece::lemma_cells_distinct;

verus! {

/// A piece that is steered stays where it may be: an attempt to move it keeps
/// the board well formed.
pub proof fn lemma_moved_keeps_wf(board: BoardView, dx: int, dy: int)
    requires
        board.wf(),
    ensures
        board.moved(dx, dy).wf(),
{
    if board.can_move(dx, dy) {
        lemma_free_placement_lies_in_grid(board.grid, board.piece.translated(dx, dy));
    }
}

/// An attempt to turn the piece keeps the board well formed.
pub proof fn lemma_turned_keeps_wf(board: BoardView)
    requires
        board.wf(),
    ensures
        board.turned().wf(),
{
    if board.can_turn() {
        lemma_free_placement_lies_in_grid(board.grid, board.piece.rotated_right());
    }
}

/// The part of a tick that comes before a lock keeps the board well formed.
pub proof fn lemma_before_lock_keeps_wf(board: BoardView, input: Input)
    requires
        board.wf(),
    ensures
        board.steered(input).wf(),
        board.steered(input).paced(input).wf(),
        board.before_lock(input).wf(),
{
    let after_left = if input.left_key_pressed {
        board.moved(-1, 0)
    } else {
        board
    };
    lemma_moved_keeps_wf(board, -1, 0);
    let after_right = if input.right_key_pressed {
        after_left.moved(1, 0)
    } else {
        after_left
    };
    lemma_moved_keeps_wf(after_left, 1, 0);
    lemma_turned_keeps_wf(after_right);
    let steered = board.steered(input);
    assert(steered.wf());
    let paced = steered.paced(input);
    assert(paced.wf());
    lemma_moved_keeps_wf(BoardView { gravity_countdown: paced.gravity, ..paced }, 0, 1);
}

/// A board at the start of a game is well formed.
pub proof fn lemma_started_is_wf(generator: GeneratorView)
    requires
        generator.wf(),
    ensures
        BoardView::started(generator).wf(),
{
    lemma_spawn_fits(generator.current_kind());
}

/// A lock leaves a board that is well formed once its level has been set.
pub proof fn lemma_locked_keeps_wf(board: BoardView, bag: Seq<i32>)
    requires
        board.wf(),
        !board.is_game_over,
        is_bag(bag),
    ensures
        board.locked(bag).shaped(),
        board.locked(bag).leveled().wf(),
{
    let filled = consumed(board.grid, board.piece);
    let rows = interior_rows(filled);
    assert(well_shaped(filled));
    assert(bordered(filled)) by {
        assert forall|x: int, y: int| in_grid(x, y) && on_border(x, y) implies (
        #[trigger] filled[y][x]).is_filled by {
            assert(board.grid[y][x].is_filled);
        }
    }
    lemma_interior_rows_shaped(filled);
    lemma_settled_is_playfield_shaped(rows);
    lemma_with_interior(filled, settled(rows));
    lemma_spawn_fits(board.generator.after_draw(bag).current_kind());
}

/// One tick keeps the board well formed, whatever the player asks for and
/// whatever bag the generator opens. With the two laws below this gives: at
/// every tick of every game the frame is filled, and the active piece
/// overlaps nothing while the game is on.
pub proof fn lemma_tick_keeps_wf(board: BoardView, input: Input, bag: Seq<i32>)
    requires
        board.wf(),
        is_bag(bag),
    ensures
        board.tick(input, bag).wf(),
{
    if board.is_game_over {
        lemma_started_is_wf(board.generator.rearmed().after_draw(bag));
    } else {
        lemma_before_lock_keeps_wf(board, input);
        let resting = board.before_lock(input);
        assert(!resting.is_game_over);
        if resting.lock_due() {
            lemma_locked_keeps_wf(resting, bag);
        }
    }
}

/// On a well-formed board every cell of the top row, the bottom row, the
/// leftmost column and the rightmost column is filled.
pub proof fn lemma_border_is_filled(board: BoardView, x: int, y: int)
    requires
        board.wf(),
        in_grid(x, y),
        on_border(x, y),
    ensures
        board.grid[y][x].is_filled,
{
}

/// On a well-formed board of a game that is on, the four cells of the active
/// piece are four different cells of the playfield, and none of them is
/// filled.
pub proof fn lemma_active_piece_overlaps_nothing(board: BoardView, a: int, b: int)
    requires
        board.wf(),
        !board.is_game_over,
        0 <= a < 4,
        0 <= b < 4,
    ensures
        a != b ==> board.piece.cell(a) != board.piece.cell(b),
        cell_free(board.grid, board.piece.cell(a).0, board.piece.cell(a).1),
        !on_border(board.piece.cell(a).0, board.piece.cell(a).1),
{
    if a != b {
        lemma_cells_distinct(board.piece, a, b);
    }
    let cell = board.piece.cell(a);
    assert(cell_free(board.grid, cell.0, cell.1));
    if on_border(cell.0, cell.1) {
        assert(board.grid[cell.1][cell.0].is_filled);
    }
}

/// A turn that would bring a block onto a filled cell, onto the frame or out
/// of the grid is refused, and the board stays as it was.
pub proof fn lemma_blocked_turn_changes_nothing(board: BoardView, block: int)
    requires
        board.wf(),
        0 <= block < 4,
        !cell_free(
            board.grid,
            board.piece.rotated_right().cell(block).0,
            board.piece.rotated_right().cell(block).1,
        ),
    ensures
        !board.can_turn(),
        board.turned() == board,
{
}

/// A move that would bring a block onto a filled cell, onto the frame or out
/// of the grid is refused, and the board stays as it was.
pub proof fn lemma_blocked_move_changes_nothing(board: BoardView, dx: int, dy: int, block: int)
    requires
        board.wf(),
        0 <= block < 4,
        !cell_free(
            board.grid,
            board.piece.translated(dx, dy).cell(block).0,
            board.piece.translated(dx, dy).cell(block).1,
        ),
    ensures
        !board.can_move(dx, dy),
        board.moved(dx, dy) == board,
{
}

/// A tick locks the piece only if the piece was resting before the tick, its
/// lock delay had one tick or none left to run, and its step down was refused
/// in this tick.
pub proof fn lemma_lock_needs_elapsed_delay(board: BoardView, input: Input)
    requires
        board.wf(),
        board.locks(input),
    ensures
        board.locking_state,
        board.lock_delay_countdown <= 1,
        !board.steered(input).paced(input).can_move(0, 1),
{
    let steered = board.steered(input);
    assert(steered.locking_state == board.locking_state);
    assert(steered.lock_delay_countdown == board.lock_delay_countdown);
}

/// A step down that is taken ends the rest and arms the lock delay in full:
/// the piece does not lock in that tick.
pub proof fn lemma_descent_rearms_lock_delay(board: BoardView, input: Input, bag: Seq<i32>)
    requires
        board.wf(),
        !board.is_game_over,
        board.steered(input).paced(input).descent_due(),
        board.steered(input).paced(input).can_move(0, 1),
    ensures
        !board.locks(input),
        !board.tick(input, bag).locking_state,
        board.tick(input, bag).lock_delay_countdown == LOCK_DELAY,
{
}

/// In one tick the lock delay runs down by one tick at most.
pub proof fn lemma_lock_delay_runs_tick_by_tick(board: BoardView, input: Input, bag: Seq<i32>)
    requires
        board.wf(),
    ensures
        board.tick(input, bag).lock_delay_countdown >= board.lock_delay_countdown - 1,
{
    if !board.is_game_over {
        let steered = board.steered(input);
        assert(steered.lock_delay_countdown == board.lock_delay_countdown);
        assert(steered.lock_delay == board.lock_delay);
    }
}

/// The higher the level, the shorter the gravity period; at no level is it as
/// short as while the piece is dropped softly.
pub proof fn lemma_gravity_quickens_with_level(lower: int, higher: int)
    requires
        1 <= lower < higher <= MAX_LEVEL,
    ensures
        gravity_for(higher, false) < gravity_for(lower, false),
        gravity_for(higher, false) > gravity_for(higher, true),
        gravity_for(higher, true) == SOFT_DROP_GRAVITY,
{
}

/// The level never falls while the count of cleared lines does not fall, it
/// starts at one, and it stops at the highest level.
pub proof fn lemma_level_rises_with_lines(fewer: int, more: int)
    requires
        0 <= fewer <= more,
    ensures
        1 <= level_for(fewer) <= level_for(more) <= MAX_LEVEL,
        level_for(0) == 1,
{
}

/// State `i + 1` of a run is what one tick with input `i` makes of state `i`.
pub open spec fn follows(states: Seq<BoardView>, inputs: Seq<Input>, i: int) -> bool {
    states[i + 1] == states[i].tick(inputs[i], states[i + 1].generator.bag)
}

/// The states are those of a run of ticks with the given inputs, each of them
/// well formed.
pub open spec fn is_run(states: Seq<BoardView>, inputs: Seq<Input>) -> bool {
    &&& states.len() == inputs.len() + 1
    &&& forall|i: int| 0 <= i < states.len() ==> (#[trigger] states[i]).wf()
    &&& forall|i: int| 0 <= i < inputs.len() ==> #[trigger] follows(states, inputs, i)
}

/// After `k` ticks of a run the lock delay has run down by `k` ticks at most.
pub proof fn lemma_lock_delay_after_ticks(states: Seq<BoardView>, inputs: Seq<Input>, k: int)
    requires
        is_run(states, inputs),
        0 <= k <= inputs.len(),
    ensures
        states[k].lock_delay_countdown >= states[0].lock_delay_countdown - k,
    decreases k,
{
    if k > 0 {
        lemma_lock_delay_after_ticks(states, inputs, k - 1);
        assert(follows(states, inputs, k - 1));
        assert(states[k - 1].wf());
        lemma_lock_delay_runs_tick_by_tick(
            states[k - 1],
            inputs[k - 1],
            states[k].generator.bag,
        );
    }
}

/// A piece does not lock before its lock delay has run out: if tick `k` of a
/// run locks the piece, no fewer ticks have passed, that tick included, than
/// the lock delay had left to run when the run began. A piece that is not
/// resting has the whole delay left, and so has a piece that has just taken a
/// step down.
pub proof fn lemma_lock_waits_for_delay(states: Seq<BoardView>, inputs: Seq<Input>, k: int)
    requires
        is_run(states, inputs),
        0 <= k < inputs.len(),
        states[k].locks(inputs[k]),
    ensures
        k + 1 >= states[0].lock_delay_countdown,
        !states[0].locking_state ==> k + 1 >= LOCK_DELAY,
{
    lemma_lock_delay_after_ticks(states, inputs, k);
    assert(states[k].wf());
    lemma_lock_needs_elapsed_delay(states[k], inputs[k]);
    assert(states[0].wf());
}

/// A lock ends the game exactly if the piece that enters overlaps a filled
/// cell of the grid as the lock leaves it.
pub proof fn lemma_lock_ends_game_when_entry_is_blocked(
    board: BoardView,
    input: Input,
    bag: Seq<i32>,
)
    requires
        board.wf(),
        board.locks(input),
    ensures
        board.tick(input, bag).is_game_over == !placement_free(
            board.tick(input, bag).grid,
            board.tick(input, bag).piece,
        ),
        board.tick(input, bag).piece == spawned(board.tick(input, bag).generator.current_kind()),
{
}

/// While the game is over a tick changes nothing but the game-over countdown,
/// unless it starts a new game.
pub proof fn lemma_game_over_freezes_board(board: BoardView, input: Input, bag: Seq<i32>)
    requires
        board.is_game_over,
        !board.restarts(input),
    ensures
        board.tick(input, bag) == (BoardView {
            game_over_countdown: board.game_over_countdown_after(),
            ..board
        }),
        board.tick(input, bag).is_game_over,
{
}

/// While the game is over, a new game starts exactly on the tick that asks
/// for a turn with the game-over countdown run out; the board is then that of
/// the start of a game.
pub proof fn lemma_restart_starts_afresh(board: BoardView, input: Input, bag: Seq<i32>)
    requires
        board.is_game_over,
        board.restarts(input),
    ensures
        board.tick(input, bag) == BoardView::started(board.generator.rearmed().after_draw(bag)),
        board.tick(input, bag).generator.idx == 0,
        !board.tick(input, bag).is_game_over,
{
}

/// Two boards at the start of a game differ in nothing but what chance
/// decided: the bag, and with it the kind of the piece that has entered. Grid,
/// timers, counters and level are the same, and so is the place in the bag if
/// it is the same in the two generators. This is so for a board that was
/// started anew and a board that was just made.
pub proof fn lemma_started_boards_agree(restarted: GeneratorView, made: GeneratorView)
    ensures
        BoardView::started(restarted) == (BoardView {
            piece: BoardView::started(restarted).piece,
            generator: restarted,
            ..BoardView::started(made)
        }),
        BoardView::started(restarted).grid == fresh_grid(),
        restarted == made ==> BoardView::started(restarted) == BoardView::started(made),
{
}

/// After a tick the grid has its size and every cell of its frame is filled,
/// whatever the player asked for and whatever bag the generator opened.
pub proof fn lemma_tick_keeps_border_filled(
    board: BoardView,
    input: Input,
    bag: Seq<i32>,
    x: int,
    y: int,
)
    requires
        board.wf(),
        is_bag(bag),
        in_grid(x, y),
        on_border(x, y),
    ensures
        well_shaped(board.tick(input, bag).grid),
        board.tick(input, bag).grid[y][x].is_filled,
{
    lemma_tick_keeps_wf(board, input, bag);
    lemma_border_is_filled(board.tick(input, bag), x, y);
}

/// After a tick the game is over, or the four cells of the active piece are
/// four different cells of the grid and none of them is filled.
pub proof fn lemma_tick_keeps_piece_free(
    board: BoardView,
    input: Input,
    bag: Seq<i32>,
    a: int,
    b: int,
)
    requires
        board.wf(),
        is_bag(bag),
        0 <= a < 4,
        0 <= b < 4,
    ensures
        board.tick(input, bag).is_game_over || {
            &&& a != b ==> board.tick(input, bag).piece.cell(a) != board.tick(
                input,
                bag,
            ).piece.cell(b)
            &&& cell_free(
                board.tick(input, bag).grid,
                board.tick(input, bag).piece.cell(a).0,
                board.tick(input, bag).piece.cell(a).1,
            )
        },
{
    lemma_tick_keeps_wf(board, input, bag);
    if !board.tick(input, bag).is_game_over {
        lemma_active_piece_overlaps_nothing(board.tick(input, bag), a, b);
    }
}

/// After a tick the level is the one that the lines give which are cleared
/// by then, the lines of this tick included: one level for every ten lines,
/// from one to the highest.
pub proof fn lemma_tick_sets_level(board: BoardView, input: Input, bag: Seq<i32>)
    requires
        board.wf(),
    ensures
        board.tick(input, bag).level == level_for(board.tick(input, bag).lines_cleared),
        1 <= board.tick(input, bag).level <= MAX_LEVEL,
        board.tick(input, bag).lines_cleared >= 0,
{
    if !board.is_game_over {
        let steered = board.steered(input);
        assert(steered.lines_cleared == board.lines_cleared);
    }
}

/// A piece that cannot step down once it has been steered locks in this tick
/// exactly if it was resting with one tick of its lock delay left. If it
/// does not lock, the grid and the count of cleared lines stay, the piece is
/// where the steering has brought it, and the lock delay has run by one tick
/// if the piece was resting, and not at all if it was not.
pub proof fn lemma_blocked_piece_locks_when_delay_runs_out(
    board: BoardView,
    input: Input,
    bag: Seq<i32>,
)
    requires
        board.wf(),
        !board.is_game_over,
        board.lock_delay_countdown >= 1,
        !board.steered(input).can_move(0, 1),
    ensures
        board.locks(input) <==> board.locking_state && board.lock_delay_countdown == 1,
        !board.locks(input) ==> {
            &&& board.tick(input, bag).grid == board.grid
            &&& board.tick(input, bag).lines_cleared == board.lines_cleared
            &&& board.tick(input, bag).piece == board.steered(input).piece
            &&& board.tick(input, bag).generator == board.generator
            &&& board.tick(input, bag).lock_delay_countdown == (if board.locking_state {
                board.lock_delay_countdown - 1
            } else {
                board.lock_delay_countdown
            })
        },
{
    let steered = board.steered(input);
    assert(steered.locking_state == board.locking_state);
    assert(steered.lock_delay_countdown == board.lock_delay_countdown);
    assert(steered.grid == board.grid);
    assert(steered.lines_cleared == board.lines_cleared);
    assert(steered.generator == board.generator);
    let paced = steered.paced(input);
    assert(paced.can_move(0, 1) == steered.can_move(0, 1));
}

} // verus!
