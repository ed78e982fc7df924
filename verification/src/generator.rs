use vstd::prelude::*;
use crate::geometry::Pos2D;
use crate::piece::{PieceKind, PieceView, TetrisPiece};
use crate::random::RandomSource;

verus! {

/// How many kinds of piece there are, and so how many draws one bag lasts.
pub const KINDS: usize = 7;

/// The kind that a number stands for, if it stands for one.
pub open spec fn kind_for_num(num: int) -> Option<PieceKind> {
    if num == 0 {
        Some(PieceKind::I)
    } else if num == 1 {
        Some(PieceKind::O)
    } else if num == 2 {
        Some(PieceKind::S)
    } else if num == 3 {
        Some(PieceKind::Z)
    } else if num == 4 {
        Some(PieceKind::J)
    } else if num == 5 {
        Some(PieceKind::L)
    } else if num == 6 {
        Some(PieceKind::T)
    } else {
        None
    }
}

/// A bag holds seven numbers, each of them the number of a kind, none of them
/// twice, and every kind's number among them.
pub open spec fn is_bag(bag: Seq<i32>) -> bool {
    &&& bag.len() == KINDS
    &&& forall|i: int| 0 <= i < KINDS ==> 0 <= #[trigger] bag[i] < KINDS
    &&& forall|i: int, j: int| 0 <= i < j < KINDS ==> bag[i] != bag[j]
    &&& forall|k: i32| 0 <= k < KINDS ==> #[trigger] bag.contains(k)
}

/// The bag in hand and the place of the number that was handed out last.
pub ghost struct GeneratorView {
    pub bag: Seq<i32>,
    pub idx: int,
}

impl GeneratorView {
    /// The generator holds a bag, and a place in it.
    pub open spec fn wf(self) -> bool {
        is_bag(self.bag) && 0 <= self.idx < KINDS
    }

    /// Whether the bag is used up, so that the next draw opens a fresh one.
    pub open spec fn exhausted(self) -> bool {
        self.idx == KINDS - 1
    }

    /// The generator after one draw, given the bag that it holds then.
    pub open spec fn after_draw(self, bag: Seq<i32>) -> GeneratorView {
        GeneratorView { bag, idx: (self.idx + 1) % (KINDS as int) }
    }

    /// The generator after a reset.
    pub open spec fn rearmed(self) -> GeneratorView {
        GeneratorView { idx: KINDS - 1, ..self }
    }

    /// The number handed out last.
    pub open spec fn current(self) -> i32 {
        self.bag[self.idx]
    }

    /// The kind handed out last.
    pub open spec fn current_kind(self) -> PieceKind {
        kind_for_num(self.current() as int).unwrap()
    }

    /// `next` is what one draw can make of this generator: the place moves on
    /// by one, and the bag stays, unless it was used up, in which case a fresh
    /// bag takes its place.
    pub open spec fn draws_to(self, next: GeneratorView) -> bool {
        &&& next == self.after_draw(next.bag)
        &&& is_bag(next.bag)
        &&& !self.exhausted() ==> next.bag == self.bag
    }
}

/// Hands out kinds of piece bag by bag: every bag holds each kind once, in an
/// order that the source of chance decides.
pub struct RandomTetrisPieceGenerator<R: RandomSource> {
    source: R,
    piece_seq: Vec<i32>,
    idx: usize,
}

impl<R: RandomSource> View for RandomTetrisPieceGenerator<R> {
    type V = GeneratorView;

    closed spec fn view(&self) -> GeneratorView {
        GeneratorView { bag: self.piece_seq@, idx: self.idx as int }
    }
}

impl<R: RandomSource> RandomTetrisPieceGenerator<R> {
    /// The generator holds a bag, and a place in it.
    pub open spec fn wf(&self) -> bool {
        self@.wf()
    }

    /// A generator that draws from `source`. Its bag counts as used up, so the
    /// first draw opens a fresh one.
    pub fn new(source: R) -> (generator: Self)
        ensures
            generator.wf(),
            generator@.exhausted(),
    {
        let mut source = source;
        let piece_seq: Vec<i32> = Self::next_permut(&mut source);
        RandomTetrisPieceGenerator { source, piece_seq, idx: KINDS - 1 }
    }

    /// Marks the bag as used up: the next draw opens a fresh one.
    pub fn reset(&mut self)
        ensures
            final(self)@ == old(self)@.rearmed(),
    {
        self.idx = KINDS - 1;
    }

    /// The numbers of the seven kinds in an order drawn from `source`.
    pub fn next_permut(source: &mut R) -> (piece_seq: Vec<i32>)
        ensures
            is_bag(piece_seq@),
    {
        let mut piece_seq: Vec<i32> = Vec::new();
        let mut num: i32 = 0;
        while num < KINDS as i32
            invariant
                0 <= num <= KINDS,
                piece_seq@.len() == num,
                forall|i: int| 0 <= i < num ==> piece_seq@[i] == i,
            decreases KINDS - num,
        {
            piece_seq.push(num);
            num = num + 1;
        }
        assert(is_bag(piece_seq@)) by {
            assert forall|k: i32| 0 <= k < KINDS implies #[trigger] piece_seq@.contains(k) by {
                assert(piece_seq@[k as int] == k);
            }
        }
        let mut i: usize = piece_seq.len();
        while i >= 2
            invariant
                i <= KINDS,
                is_bag(piece_seq@),
            decreases i,
        {
            i = i - 1;
            let j: usize = source.next_index(i + 1);
            proof {
                lemma_swap_keeps_bag(piece_seq@, i as int, j as int);
            }
            swap_numbers(&mut piece_seq, i, j);
        }
        piece_seq
    }

    /// The next piece, placed at `pos`.
    pub fn get_next_piece(&mut self, pos: Pos2D) -> (piece: TetrisPiece)
        requires
            old(self).wf(),
        ensures
            final(self).wf(),
            old(self)@.draws_to(final(self)@),
            piece.wf(),
            piece@ == (PieceView {
                origin: pos@,
                orientation: 0,
                kind: final(self)@.current_kind(),
            }),
    {
        self.idx = (self.idx + 1) % KINDS;
        if self.idx == 0 {
            self.piece_seq = Self::next_permut(&mut self.source);
        }
        let num: i32 = self.piece_seq[self.idx];
        self.get_piece_for_num(num, pos).unwrap()
    }

    /// The piece of the kind that `num` stands for, placed at `pos`; `None`
    /// where `num` stands for no kind.
    pub fn get_piece_for_num(&self, num: i32, pos: Pos2D) -> (piece: Option<TetrisPiece>)
        ensures
            piece.is_some() == kind_for_num(num as int).is_some(),
            piece.is_some() ==> piece.unwrap().wf() && piece.unwrap()@ == (PieceView {
                origin: pos@,
                orientation: 0,
                kind: kind_for_num(num as int).unwrap(),
            }),
    {
        match num {
            0 => Some(TetrisPiece::build_i_piece(pos)),
            1 => Some(TetrisPiece::build_o_piece(pos)),
            2 => Some(TetrisPiece::build_s_piece(pos)),
            3 => Some(TetrisPiece::build_z_piece(pos)),
            4 => Some(TetrisPiece::build_j_piece(pos)),
            5 => Some(TetrisPiece::build_l_piece(pos)),
            6 => Some(TetrisPiece::build_t_piece(pos)),
            _ => None,
        }
    }
}

/// The numbers with those at places `i` and `j` exchanged.
pub open spec fn swapped(numbers: Seq<i32>, i: int, j: int) -> Seq<i32> {
    numbers.update(i, numbers[j]).update(j, numbers[i])
}

/// Exchanges the numbers at places `i` and `j`. This is the one step of the
/// shuffle: `i` runs down from the last place, and `j` is the place that the
/// source of chance has drawn for it.
pub fn swap_numbers(piece_seq: &mut Vec<i32>, i: usize, j: usize)
    requires
        i < old(piece_seq)@.len(),
        j < old(piece_seq)@.len(),
    ensures
        final(piece_seq)@ == swapped(old(piece_seq)@, i as int, j as int),
{
    let upper: i32 = piece_seq[i];
    let lower: i32 = piece_seq[j];
    piece_seq[i] = lower;
    piece_seq[j] = upper;
}

/// Exchanging two numbers of a bag leaves a bag.
pub proof fn lemma_swap_keeps_bag(bag: Seq<i32>, i: int, j: int)
    requires
        is_bag(bag),
        0 <= i < KINDS,
        0 <= j < KINDS,
    ensures
        is_bag(swapped(bag, i, j)),
{
    let after = swapped(bag, i, j);
    assert forall|k: i32| 0 <= k < KINDS implies #[trigger] after.contains(k) by {
        assert(bag.contains(k));
        let at = choose|at: int| 0 <= at < bag.len() && bag[at] == k;
        let to = if at == i {
            j
        } else if at == j {
            i
        } else {
            at
        };
        assert(after[to] == k);
    }
}

/// State `i + 1` of a row of draws is what one draw makes of state `i`.
pub open spec fn draw_follows(states: Seq<GeneratorView>, i: int) -> bool {
    states[i].draws_to(states[i + 1])
}

/// Whether the number `k` is handed out by one of the draws that lead to the
/// states after the first.
pub open spec fn drawn_among(states: Seq<GeneratorView>, k: i32) -> bool {
    exists|i: int| 1 <= i < states.len() && (#[trigger] states[i]).current() == k
}

/// Seven draws from a generator whose bag is used up hand out every kind
/// exactly once: each number that comes is the number of a kind, no number
/// comes twice, and every kind's number comes. After them the bag is used up
/// again, so the same holds of the seven draws that follow. A generator's bag
/// is used up when the generator has been made and when it has been reset.
pub proof fn lemma_seven_draws_hand_out_every_kind(states: Seq<GeneratorView>)
    requires
        states.len() == KINDS + 1,
        states[0].exhausted(),
        forall|i: int| 0 <= i < KINDS ==> #[trigger] draw_follows(states, i),
    ensures
        states[KINDS as int].exhausted(),
        forall|i: int|
            1 <= i <= KINDS ==> kind_for_num((#[trigger] states[i]).current() as int).is_some(),
        forall|i: int, j: int|
            1 <= i < j <= KINDS ==> (#[trigger] states[i]).current() != (
            #[trigger] states[j]).current(),
        forall|k: i32| 0 <= k < KINDS ==> #[trigger] drawn_among(states, k),
{
    let bag = states[1].bag;
    assert(draw_follows(states, 0));
    assert(draw_follows(states, 1));
    assert(draw_follows(states, 2));
    assert(draw_follows(states, 3));
    assert(draw_follows(states, 4));
    assert(draw_follows(states, 5));
    assert(draw_follows(states, 6));
    assert forall|i: int| 1 <= i <= KINDS implies (#[trigger] states[i]).bag == bag
        && states[i].idx == i - 1 by {
        assert(states[1].idx == 0);
        assert(states[2].idx == 1 && states[2].bag == bag);
        assert(states[3].idx == 2 && states[3].bag == bag);
        assert(states[4].idx == 3 && states[4].bag == bag);
        assert(states[5].idx == 4 && states[5].bag == bag);
        assert(states[6].idx == 5 && states[6].bag == bag);
        assert(states[7].idx == 6 && states[7].bag == bag);
    }
    assert forall|k: i32| 0 <= k < KINDS implies #[trigger] drawn_among(states, k) by {
        assert(bag.contains(k));
        let at = choose|at: int| 0 <= at < bag.len() && bag[at] == k;
        assert(states[at + 1].current() == k);
    }
}

} // verus!
