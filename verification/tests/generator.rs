use tetris::generator::{swap_numbers, RandomTetrisPieceGenerator};
use tetris::geometry::Pos2D;
use tetris::piece::PieceKind;
use tetris::random::{RandomSource, ScriptedSource, ThreadRandom};

fn number_of(kind: PieceKind) -> usize {
    match kind {
        PieceKind::I => 0,
        PieceKind::O => 1,
        PieceKind::S => 2,
        PieceKind::Z => 3,
        PieceKind::J => 4,
        PieceKind::L => 5,
        PieceKind::T => 6,
    }
}

fn draw_numbers<R: RandomSource>(
    generator: &mut RandomTetrisPieceGenerator<R>,
    count: usize,
) -> Vec<usize> {
    let mut numbers = Vec::new();
    for _ in 0..count {
        numbers.push(number_of(generator.get_next_piece(Pos2D::xy(5, 2)).kind()));
    }
    numbers
}

fn assert_every_kind_once(numbers: &[usize]) {
    assert_eq!(numbers.len(), 7);
    let mut seen = [0usize; 7];
    for number in numbers {
        seen[*number] += 1;
    }
    assert_eq!(seen, [1, 1, 1, 1, 1, 1, 1]);
}

#[test]
fn scripted_source_reads_its_script_modulo_the_bound() {
    let mut source = ScriptedSource::new(vec![5, 9, 2]);
    assert_eq!(source.next_index(4), 1);
    assert_eq!(source.next_index(4), 1);
    assert_eq!(source.next_index(4), 2);
    assert_eq!(source.next_index(4), 1);
    assert_eq!(source.next_index(7), 2);
    assert_eq!(source.next_index(1), 0);
}

#[test]
fn an_empty_script_always_draws_zero() {
    let mut source = ScriptedSource::new(Vec::new());
    for bound in 1..10 {
        assert_eq!(source.next_index(bound), 0);
    }
}

#[test]
fn thread_random_draws_below_the_bound() {
    let mut source = ThreadRandom::new();
    for bound in 1..=7usize {
        for _ in 0..200 {
            assert!(source.next_index(bound) < bound);
        }
    }
    assert_eq!(source.next_index(1), 0);
}

#[test]
fn thread_random_does_not_always_draw_the_same() {
    let mut source = ThreadRandom::new();
    let first = source.next_index(1_000_000);
    let mut differs = false;
    for _ in 0..100 {
        if source.next_index(1_000_000) != first {
            differs = true;
        }
    }
    assert!(differs);
}

#[test]
fn a_script_that_never_swaps_gives_the_kinds_in_their_order() {
    let mut source = ScriptedSource::new(vec![6, 5, 4, 3, 2, 1]);
    let bag = RandomTetrisPieceGenerator::next_permut(&mut source);
    assert_eq!(bag, vec![0, 1, 2, 3, 4, 5, 6]);
}

#[test]
fn a_script_of_zeros_rotates_the_kinds_by_one() {
    let mut source = ScriptedSource::new(vec![0]);
    let bag = RandomTetrisPieceGenerator::next_permut(&mut source);
    assert_eq!(bag, vec![1, 2, 3, 4, 5, 6, 0]);
}

#[test]
fn a_script_decides_the_bag() {
    let mut source = ScriptedSource::new(vec![6, 3, 2, 1, 1, 1]);
    let bag = RandomTetrisPieceGenerator::next_permut(&mut source);
    assert_eq!(bag, vec![0, 4, 5, 1, 2, 3, 6]);
}

#[test]
fn a_random_bag_holds_every_kind_once() {
    let mut source = ThreadRandom::new();
    for _ in 0..200 {
        let bag = RandomTetrisPieceGenerator::next_permut(&mut source);
        let numbers: Vec<usize> = bag.iter().map(|number| *number as usize).collect();
        assert_every_kind_once(&numbers);
    }
}

#[test]
fn random_bags_come_in_more_than_one_order() {
    let mut source = ThreadRandom::new();
    let first = RandomTetrisPieceGenerator::next_permut(&mut source);
    let mut differs = false;
    for _ in 0..50 {
        if RandomTetrisPieceGenerator::next_permut(&mut source) != first {
            differs = true;
        }
    }
    assert!(differs);
}

#[test]
fn the_first_seven_draws_hand_out_every_kind_once() {
    for _ in 0..50 {
        let mut generator = RandomTetrisPieceGenerator::new(ThreadRandom::new());
        assert_every_kind_once(&draw_numbers(&mut generator, 7));
    }
}

#[test]
fn every_following_seven_draws_hand_out_every_kind_once() {
    let mut generator = RandomTetrisPieceGenerator::new(ThreadRandom::new());
    for _ in 0..100 {
        assert_every_kind_once(&draw_numbers(&mut generator, 7));
    }
}

#[test]
fn the_draws_follow_the_scripted_bag() {
    let mut generator =
        RandomTetrisPieceGenerator::new(ScriptedSource::new(vec![6, 3, 2, 1, 1, 1]));
    assert_eq!(draw_numbers(&mut generator, 7), vec![0, 4, 5, 1, 2, 3, 6]);
    assert_eq!(draw_numbers(&mut generator, 7), vec![0, 4, 5, 1, 2, 3, 6]);
}

#[test]
fn a_longer_script_gives_bag_after_bag() {
    let mut script = vec![0, 0, 0, 0, 0, 0];
    script.extend(vec![6, 5, 4, 3, 2, 1]);
    let mut generator = RandomTetrisPieceGenerator::new(ScriptedSource::new(script));
    // The bag made with the generator is never handed out: the first draw
    // opens the next one.
    assert_eq!(draw_numbers(&mut generator, 7), vec![0, 1, 2, 3, 4, 5, 6]);
    assert_eq!(draw_numbers(&mut generator, 7), vec![1, 2, 3, 4, 5, 6, 0]);
    assert_eq!(draw_numbers(&mut generator, 7), vec![0, 1, 2, 3, 4, 5, 6]);
}

#[test]
fn after_a_reset_the_next_seven_draws_hand_out_every_kind_once() {
    for used in 0..7 {
        let mut generator = RandomTetrisPieceGenerator::new(ThreadRandom::new());
        draw_numbers(&mut generator, used);
        generator.reset();
        assert_every_kind_once(&draw_numbers(&mut generator, 7));
        assert_every_kind_once(&draw_numbers(&mut generator, 7));
    }
}

#[test]
fn a_reset_drops_what_was_left_of_the_bag() {
    let mut generator =
        RandomTetrisPieceGenerator::new(ScriptedSource::new(vec![6, 5, 4, 3, 2, 1]));
    assert_eq!(draw_numbers(&mut generator, 3), vec![0, 1, 2]);
    generator.reset();
    assert_eq!(draw_numbers(&mut generator, 7), vec![0, 1, 2, 3, 4, 5, 6]);
}

#[test]
fn a_drawn_piece_is_placed_where_asked_and_unturned() {
    let mut generator = RandomTetrisPieceGenerator::new(ThreadRandom::new());
    let piece = generator.get_next_piece(Pos2D::xy(-3, 11));
    assert_eq!(piece.position(), Pos2D::xy(-3, 11));
    assert_eq!(piece.orientation(), 0);
}

#[test]
fn each_number_stands_for_its_kind() {
    let generator = RandomTetrisPieceGenerator::new(ThreadRandom::new());
    let kinds = [
        PieceKind::I,
        PieceKind::O,
        PieceKind::S,
        PieceKind::Z,
        PieceKind::J,
        PieceKind::L,
        PieceKind::T,
    ];
    for number in 0..7 {
        let piece = generator.get_piece_for_num(number, Pos2D::xy(5, 2)).unwrap();
        assert_eq!(piece.kind(), kinds[number as usize]);
        assert_eq!(piece.position(), Pos2D::xy(5, 2));
        assert_eq!(piece.orientation(), 0);
    }
}

#[test]
fn other_numbers_stand_for_no_kind() {
    let generator = RandomTetrisPieceGenerator::new(ThreadRandom::new());
    assert!(generator.get_piece_for_num(7, Pos2D::xy(5, 2)).is_none());
    assert!(generator.get_piece_for_num(-1, Pos2D::xy(5, 2)).is_none());
    assert!(generator.get_piece_for_num(i32::MAX, Pos2D::xy(5, 2)).is_none());
    assert!(generator.get_piece_for_num(i32::MIN, Pos2D::xy(5, 2)).is_none());
}

#[test]
fn swap_numbers_exchanges_two_places() {
    let mut numbers = vec![0, 1, 2, 3, 4, 5, 6];
    swap_numbers(&mut numbers, 6, 2);
    assert_eq!(numbers, vec![0, 1, 6, 3, 4, 5, 2]);
    swap_numbers(&mut numbers, 5, 5);
    assert_eq!(numbers, vec![0, 1, 6, 3, 4, 5, 2]);
    swap_numbers(&mut numbers, 0, 1);
    assert_eq!(numbers, vec![1, 0, 6, 3, 4, 5, 2]);
}
