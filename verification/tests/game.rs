use tetris::board::TetrisBoard;
use tetris::color::Color;
use tetris::geometry::Pos2D;
use tetris::grid::{BOARD_HEIGHT, BOARD_WIDTH};
use tetris::input::Input;
use tetris::piece::{PieceKind, TetrisPiece};
use tetris::random::{RandomSource, ScriptedSource, ThreadRandom};

fn idle() -> Input {
    Input {
        left_key_pressed: false,
        right_key_pressed: false,
        up_key_pressed: false,
        down_key_pressed: false,
    }
}

fn left() -> Input {
    Input { left_key_pressed: true, ..idle() }
}

fn right() -> Input {
    Input { right_key_pressed: true, ..idle() }
}

fn up() -> Input {
    Input { up_key_pressed: true, ..idle() }
}

fn down() -> Input {
    Input { down_key_pressed: true, ..idle() }
}

fn in_order() -> ScriptedSource {
    ScriptedSource::new(vec![6, 5, 4, 3, 2, 1])
}

fn cells(piece: &TetrisPiece) -> Vec<(i32, i32)> {
    let mut walk = piece.iter();
    let mut found = Vec::new();
    while let Some(cell) = walk.next() {
        found.push((cell.x, cell.y));
    }
    found
}

fn letter(color: Color) -> char {
    if color == Color::rgb(255, 255, 255) {
        '#'
    } else if color == Color::rgb(0, 255, 255) {
        'I'
    } else if color == Color::rgb(255, 255, 0) {
        'O'
    } else if color == Color::rgb(0, 255, 0) {
        'S'
    } else if color == Color::rgb(255, 0, 0) {
        'Z'
    } else if color == Color::rgb(0, 0, 255) {
        'J'
    } else if color == Color::rgb(255, 165, 0) {
        'L'
    } else if color == Color::rgb(128, 0, 128) {
        'T'
    } else {
        '?'
    }
}

/// The grid as text: `.` for an empty cell, `#` for the frame, and the letter
/// of its kind for a cell that a piece was locked into.
fn picture<R: RandomSource>(board: &TetrisBoard<R>) -> Vec<String> {
    let mut rows = Vec::new();
    for row in 0..BOARD_HEIGHT {
        let mut text = String::new();
        for column in 0..BOARD_WIDTH {
            let cell = board.block(row, column);
            if cell.is_filled {
                text.push(letter(cell.color));
            } else {
                assert_eq!(cell.color, Color::rgb(0, 0, 0));
                text.push('.');
            }
        }
        rows.push(text);
    }
    rows
}

fn filled_cells<R: RandomSource>(board: &TetrisBoard<R>) -> usize {
    let mut count = 0;
    for row in 1..BOARD_HEIGHT - 1 {
        for column in 1..BOARD_WIDTH - 1 {
            if board.block(row, column).is_filled {
                count += 1;
            }
        }
    }
    count
}

/// Turns the piece, shifts it, and drops it softly until it has locked.
/// Returns how many ticks that took.
fn place<R: RandomSource>(board: &mut TetrisBoard<R>, turns: usize, shift: i32) -> usize {
    let mut ticks = 0;
    for _ in 0..turns {
        board.update(&up());
        ticks += 1;
    }
    for _ in 0..shift.abs() {
        let step = if shift < 0 { left() } else { right() };
        board.update(&step);
        ticks += 1;
    }
    loop {
        let before = (filled_cells(board), board.lines_cleared());
        board.update(&down());
        ticks += 1;
        if (filled_cells(board), board.lines_cleared()) != before || board.is_game_over() {
            return ticks;
        }
        assert!(ticks < 2000);
    }
}

fn assert_border_filled<R: RandomSource>(board: &TetrisBoard<R>) {
    for row in 0..BOARD_HEIGHT {
        assert!(board.block(row, 0).is_filled);
        assert!(board.block(row, BOARD_WIDTH - 1).is_filled);
    }
    for column in 0..BOARD_WIDTH {
        assert!(board.block(0, column).is_filled);
        assert!(board.block(BOARD_HEIGHT - 1, column).is_filled);
    }
}

fn assert_piece_overlaps_nothing<R: RandomSource>(board: &TetrisBoard<R>) {
    let found = cells(board.active_piece());
    assert_eq!(found.len(), 4);
    for a in 0..4 {
        for b in (a + 1)..4 {
            assert_ne!(found[a], found[b]);
        }
        let (x, y) = found[a];
        assert!(x >= 1 && x <= 10 && y >= 1 && y <= 22);
        assert!(!board.block(y as usize, x as usize).is_filled);
    }
    assert!(board.is_valid());
}

fn empty_rows(count: usize) -> Vec<String> {
    let mut rows = Vec::new();
    for _ in 0..count {
        rows.push(String::from("#..........#"));
    }
    rows
}

#[test]
fn gravity_moves_the_piece_after_twenty_ticks_on_a_new_board() {
    let mut board = TetrisBoard::new(in_order());
    for tick in 1..20u32 {
        board.update(&idle());
        assert_eq!(board.active_piece().position(), Pos2D::xy(5, 2));
        assert_eq!(board.gravity_countdown(), 20 - tick);
    }
    board.update(&idle());
    assert_eq!(board.active_piece().position(), Pos2D::xy(5, 3));
    assert_eq!(board.gravity_countdown(), 30);
    assert_eq!(board.game_over_countdown(), 60);
}

#[test]
fn gravity_period_is_thirty_ticks_at_level_one() {
    let mut board = TetrisBoard::new(in_order());
    board.update(&idle());
    assert_eq!(board.gravity(), 30);
    for _ in 0..19 {
        board.update(&idle());
    }
    assert_eq!(board.active_piece().position(), Pos2D::xy(5, 3));
    for _ in 0..29 {
        board.update(&idle());
        assert_eq!(board.active_piece().position(), Pos2D::xy(5, 3));
    }
    board.update(&idle());
    assert_eq!(board.active_piece().position(), Pos2D::xy(5, 4));
}

#[test]
fn soft_drop_sets_the_gravity_period_to_two_ticks() {
    let mut board = TetrisBoard::new(in_order());
    board.update(&down());
    assert_eq!(board.gravity(), 2);
    board.update(&idle());
    assert_eq!(board.gravity(), 30);
    // The countdown of the new board runs out first; from then on the piece
    // steps down every second tick while the key is held.
    for _ in 0..18 {
        board.update(&down());
    }
    assert_eq!(board.active_piece().position(), Pos2D::xy(5, 3));
    board.update(&down());
    assert_eq!(board.active_piece().position(), Pos2D::xy(5, 3));
    board.update(&down());
    assert_eq!(board.active_piece().position(), Pos2D::xy(5, 4));
    board.update(&down());
    assert_eq!(board.active_piece().position(), Pos2D::xy(5, 4));
    board.update(&down());
    assert_eq!(board.active_piece().position(), Pos2D::xy(5, 5));
}

#[test]
fn left_and_right_in_one_tick_are_both_tried() {
    let mut board = TetrisBoard::new(in_order());
    let both = Input { left_key_pressed: true, right_key_pressed: true, ..idle() };
    board.update(&both);
    assert_eq!(board.active_piece().position(), Pos2D::xy(5, 2));
    for _ in 0..3 {
        board.update(&left());
    }
    assert_eq!(board.active_piece().position(), Pos2D::xy(2, 2));
    // At the left wall the step to the left is refused and the step to the
    // right is taken.
    board.update(&both);
    assert_eq!(board.active_piece().position(), Pos2D::xy(3, 2));
}

#[test]
fn up_turns_the_piece_once_a_tick() {
    let mut board = TetrisBoard::new(in_order());
    board.update(&up());
    assert_eq!(board.active_piece().orientation(), 1);
    board.update(&idle());
    assert_eq!(board.active_piece().orientation(), 1);
    board.update(&up());
    assert_eq!(board.active_piece().orientation(), 2);
}

#[test]
fn a_blocked_piece_locks_after_the_lock_delay_and_not_before() {
    let mut board = TetrisBoard::new(in_order());
    for _ in 0..59 {
        board.update(&down());
        assert!(!board.locking_state());
        assert_eq!(board.lock_delay_countdown(), 30);
    }
    assert_eq!(board.active_piece().position(), Pos2D::xy(5, 22));
    // The step down is refused for the first time: the piece rests.
    board.update(&down());
    assert!(board.locking_state());
    assert_eq!(board.lock_delay_countdown(), 30);
    for tick in 1..30u32 {
        board.update(&down());
        assert!(board.locking_state());
        assert_eq!(board.lock_delay_countdown(), 30 - tick);
        assert_eq!(board.active_piece().kind(), PieceKind::I);
        assert_eq!(board.active_piece().position(), Pos2D::xy(5, 22));
        assert_eq!(filled_cells(&board), 0);
    }
    board.update(&down());
    assert!(!board.locking_state());
    assert_eq!(board.lock_delay_countdown(), 30);
    assert_eq!(filled_cells(&board), 4);
    assert_eq!(board.active_piece().kind(), PieceKind::O);
    assert_eq!(board.active_piece().position(), Pos2D::xy(5, 2));
    let mut expected = vec![String::from("############")];
    expected.extend(empty_rows(21));
    expected.push(String::from("#...IIII...#"));
    expected.push(String::from("############"));
    assert_eq!(picture(&board), expected);
}

#[test]
fn a_resting_piece_can_still_be_steered() {
    let mut board = TetrisBoard::new(in_order());
    for _ in 0..70 {
        board.update(&down());
    }
    assert!(board.locking_state());
    assert_eq!(board.lock_delay_countdown(), 20);
    board.update(&left());
    assert_eq!(board.active_piece().position(), Pos2D::xy(4, 22));
    assert!(board.locking_state());
    assert_eq!(board.lock_delay_countdown(), 19);
    for _ in 0..19 {
        board.update(&idle());
    }
    assert_eq!(filled_cells(&board), 4);
    assert_eq!(picture(&board)[22], "#..IIII....#");
}

#[test]
fn a_step_down_during_the_lock_delay_arms_it_anew() {
    let mut board = TetrisBoard::new(in_order());
    assert_eq!(place(&mut board, 0, -3), 90);
    assert_eq!(board.active_piece().kind(), PieceKind::O);
    board.update(&left());
    let mut ticks = 0;
    while !board.locking_state() {
        board.update(&down());
        ticks += 1;
    }
    // The square rests with one half on the bar.
    assert_eq!(ticks, 37);
    assert_eq!(board.active_piece().position(), Pos2D::xy(4, 20));
    assert_eq!(board.lock_delay_countdown(), 30);
    for _ in 0..10 {
        board.update(&idle());
    }
    assert!(board.locking_state());
    assert_eq!(board.lock_delay_countdown(), 20);
    // Pushed off the bar it steps down in the same tick.
    board.update(&right());
    assert_eq!(board.active_piece().position(), Pos2D::xy(5, 21));
    assert!(!board.locking_state());
    assert_eq!(board.lock_delay_countdown(), 30);
    assert_eq!(filled_cells(&board), 4);
    // It now waits for gravity, rests, and locks a full delay later.
    for _ in 0..59 {
        board.update(&idle());
        assert_eq!(filled_cells(&board), 4);
    }
    board.update(&idle());
    assert_eq!(filled_cells(&board), 8);
    assert_eq!(picture(&board)[21], "#....OO....#");
    assert_eq!(picture(&board)[22], "#IIIIOO....#");
}

#[test]
fn a_full_row_is_cleared_and_the_rows_above_come_down() {
    // Every bag is I J L O S Z T.
    let mut board = TetrisBoard::new(ScriptedSource::new(vec![6, 3, 2, 1, 1, 1]));
    assert_eq!(board.active_piece().kind(), PieceKind::I);
    place(&mut board, 0, -3);
    assert_eq!(board.active_piece().kind(), PieceKind::J);
    place(&mut board, 0, 1);
    assert_eq!(picture(&board)[21], "#....J.....#");
    assert_eq!(picture(&board)[22], "#IIIIJJJ...#");
    assert_eq!(board.lines_cleared(), 0);
    assert_eq!(board.active_piece().kind(), PieceKind::L);
    place(&mut board, 0, 4);
    // The bar LLL completes the bottom row; the row above, with one cell of
    // J and one cell of L, takes its place.
    assert_eq!(board.lines_cleared(), 1);
    assert_eq!(board.level(), 1);
    let mut expected = vec![String::from("############")];
    expected.extend(empty_rows(21));
    expected.push(String::from("#....J....L#"));
    expected.push(String::from("############"));
    assert_eq!(picture(&board), expected);
    assert!(board.is_row_empty(1));
    assert!(board.is_row_empty(21));
    assert!(!board.is_row_empty(22));
    assert!(!board.is_row_full(22));
    assert_eq!(board.block(22, 5).color, Color::rgb(0, 0, 255));
    assert_eq!(board.block(22, 10).color, Color::rgb(255, 165, 0));
    assert!(!board.is_game_over());
    assert_eq!(board.active_piece().kind(), PieceKind::O);
    assert_eq!(board.active_piece().position(), Pos2D::xy(5, 2));
}

#[test]
fn two_full_rows_are_cleared_by_one_lock() {
    // Every bag is I O S J L Z T.
    let mut board = TetrisBoard::new(ScriptedSource::new(vec![6, 3, 3, 3, 2, 1]));
    place(&mut board, 0, -3);
    place(&mut board, 0, -4);
    place(&mut board, 1, -1);
    place(&mut board, 1, -2);
    place(&mut board, 1, 1);
    place(&mut board, 0, 3);
    assert_eq!(board.lines_cleared(), 0);
    assert_eq!(
        picture(&board)[19..23],
        [
            String::from("#..JJ......#"),
            String::from("#OOJS.L....#"),
            String::from("#OOJSSLZZ..#"),
            String::from("#IIIISLLZZ.#"),
        ]
    );
    assert_eq!(board.active_piece().kind(), PieceKind::T);
    place(&mut board, 3, 5);
    // The T fills the last column of the two bottom rows: the row that comes
    // down into the place of the cleared bottom row is full too, and is
    // cleared by the same lock.
    assert_eq!(board.lines_cleared(), 2);
    let mut expected = vec![String::from("############")];
    expected.extend(empty_rows(20));
    expected.push(String::from("#..JJ......#"));
    expected.push(String::from("#OOJS.L...T#"));
    expected.push(String::from("############"));
    assert_eq!(picture(&board), expected);
    for row in 1..BOARD_HEIGHT - 1 {
        assert!(!board.is_row_full(row));
    }
    assert_eq!(board.active_piece().kind(), PieceKind::I);
}

#[test]
fn the_game_is_over_when_the_entering_piece_is_blocked() {
    let mut board = TetrisBoard::new(in_order());
    let mut ticks = 0;
    let mut pieces = 0;
    while !board.is_game_over() {
        let before = filled_cells(&board);
        board.update(&down());
        ticks += 1;
        if filled_cells(&board) != before {
            pieces += 1;
        }
        if !board.is_game_over() {
            assert_piece_overlaps_nothing(&board);
        }
        assert!(ticks < 10000);
    }
    assert_eq!(pieces, 12);
    assert_eq!(ticks, 644);
    assert_eq!(board.lines_cleared(), 0);
    // The piece that entered lies on a filled cell.
    assert_eq!(board.active_piece().kind(), PieceKind::L);
    assert_eq!(board.active_piece().position(), Pos2D::xy(5, 2));
    assert!(!board.is_valid());
    assert_eq!(picture(&board)[1], "#...J......#");
    assert_eq!(picture(&board)[2], "#...JJJ....#");
    assert_eq!(board.game_over_countdown(), 60);
}

#[test]
fn a_finished_game_runs_its_countdown_and_nothing_else() {
    let mut board = TetrisBoard::new(in_order());
    while !board.is_game_over() {
        board.update(&down());
    }
    let grid = picture(&board);
    let gravity_countdown = board.gravity_countdown();
    let lock_delay_countdown = board.lock_delay_countdown();
    let everything = Input {
        left_key_pressed: true,
        right_key_pressed: true,
        up_key_pressed: true,
        down_key_pressed: true,
    };
    for tick in 1..60u32 {
        board.update(&everything);
        assert!(board.is_game_over());
        assert_eq!(board.game_over_countdown(), 60 - tick);
        assert_eq!(picture(&board), grid);
        assert_eq!(board.active_piece().position(), Pos2D::xy(5, 2));
        assert_eq!(board.active_piece().orientation(), 0);
        assert_eq!(board.active_piece().kind(), PieceKind::L);
        assert_eq!(board.gravity_countdown(), gravity_countdown);
        assert_eq!(board.lock_delay_countdown(), lock_delay_countdown);
        assert_eq!(board.lines_cleared(), 0);
        assert_eq!(board.level(), 1);
        assert!(!board.locking_state());
    }
    // Without the request for a turn the game stays over, the countdown at
    // zero.
    for _ in 0..5 {
        board.update(&Input { up_key_pressed: false, ..everything });
        assert!(board.is_game_over());
        assert_eq!(board.game_over_countdown(), 0);
        assert_eq!(picture(&board), grid);
    }
}

#[test]
fn a_turn_request_starts_a_new_game_once_the_countdown_has_run_out() {
    let mut board = TetrisBoard::new(in_order());
    while !board.is_game_over() {
        board.update(&down());
    }
    for _ in 0..59 {
        board.update(&up());
    }
    assert!(board.is_game_over());
    assert_eq!(board.game_over_countdown(), 1);
    board.update(&up());
    assert!(!board.is_game_over());
    assert_eq!(board.lines_cleared(), 0);
    assert_eq!(board.level(), 1);
    assert_eq!(board.gravity(), 20);
    assert_eq!(board.gravity_countdown(), 20);
    assert_eq!(board.lock_delay_countdown(), 30);
    assert_eq!(board.game_over_countdown(), 60);
    assert!(!board.locking_state());
    assert_eq!(filled_cells(&board), 0);
    assert_border_filled(&board);
    // The bag that was in use is dropped: the new game starts a fresh one.
    assert_eq!(board.active_piece().kind(), PieceKind::I);
    assert_eq!(board.active_piece().position(), Pos2D::xy(5, 2));
    assert_eq!(board.active_piece().orientation(), 0);
    assert!(board.is_valid());
}

#[test]
fn the_frame_stays_filled_and_the_piece_overlaps_nothing() {
    let mut board = TetrisBoard::new(ThreadRandom::new());
    let mut state: u32 = 12345;
    let mut games = 0;
    for _ in 0..30000 {
        state = state.wrapping_mul(1664525).wrapping_add(1013904223);
        let keys = state >> 24;
        let input = Input {
            left_key_pressed: keys & 3 == 0,
            right_key_pressed: keys & 12 == 0,
            up_key_pressed: keys & 48 == 0,
            down_key_pressed: keys & 64 != 0,
        };
        let lines = board.lines_cleared();
        let over = board.is_game_over();
        board.update(&input);
        assert_border_filled(&board);
        assert_eq!(board.level(), std::cmp::min(10, board.lines_cleared() / 10 + 1));
        assert!(board.lock_delay_countdown() <= 30);
        if !board.locking_state() {
            assert_eq!(board.lock_delay_countdown(), 30);
        }
        for row in 1..BOARD_HEIGHT - 1 {
            assert!(!board.is_row_full(row));
        }
        if board.is_game_over() {
            assert!(!board.is_valid());
        } else {
            assert_piece_overlaps_nothing(&board);
            if over {
                games += 1;
                assert_eq!(board.lines_cleared(), 0);
            } else {
                assert!(board.lines_cleared() >= lines);
            }
        }
    }
    assert!(games >= 1);
}

#[test]
fn seven_pieces_that_enter_in_a_row_are_of_seven_kinds() {
    let mut board = TetrisBoard::new(ThreadRandom::new());
    let mut kinds = vec![board.active_piece().kind()];
    while kinds.len() < 7 {
        let before = filled_cells(&board);
        board.update(&down());
        assert!(!board.is_game_over());
        if filled_cells(&board) != before {
            kinds.push(board.active_piece().kind());
        }
    }
    for a in 0..7 {
        for b in (a + 1)..7 {
            assert_ne!(kinds[a], kinds[b]);
        }
    }
}
