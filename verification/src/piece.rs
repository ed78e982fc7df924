use vstd::prelude::*;
use crate::color::Color;
use crate::geometry::Pos2D;

verus! {

/// The seven kinds of piece.
#[derive(Clone, Copy, Debug, PartialEq, Eq, Structural)]
pub enum PieceKind {
    I,
    O,
    S,
    Z,
    J,
    L,
    T,
}

/// Four offsets, in the order in which a piece hands out its blocks.
pub open spec fn blocks(
    a: (int, int),
    b: (int, int),
    c: (int, int),
    d: (int, int),
) -> Seq<(int, int)> {
    seq![a, b, c, d]
}

/// Four orientations, in the order in which a right turn walks through them.
pub open spec fn orientations(
    a: Seq<(int, int)>,
    b: Seq<(int, int)>,
    c: Seq<(int, int)>,
    d: Seq<(int, int)>,
) -> Seq<Seq<(int, int)>> {
    seq![a, b, c, d]
}

/// The offsets of the I piece.
pub open spec fn i_shape() -> Seq<Seq<(int, int)>> {
    orientations(
        blocks((-1, 0), (0, 0), (1, 0), (2, 0)),
        blocks((1, -1), (1, 0), (1, 1), (1, 2)),
        blocks((-1, 1), (0, 1), (1, 1), (2, 1)),
        blocks((0, -1), (0, 0), (0, 1), (0, 2)),
    )
}

/// The offsets of the O piece.
pub open spec fn o_shape() -> Seq<Seq<(int, int)>> {
    orientations(
        blocks((0, 0), (1, 0), (1, 1), (0, 1)),
        blocks((0, 0), (1, 0), (1, 1), (0, 1)),
        blocks((0, 0), (1, 0), (1, 1), (0, 1)),
        blocks((0, 0), (1, 0), (1, 1), (0, 1)),
    )
}

/// The offsets of the T piece.
pub open spec fn t_shape() -> Seq<Seq<(int, int)>> {
    orientations(
        blocks((0, -1), (0, 0), (1, 0), (-1, 0)),
        blocks((1, 0), (0, 1), (0, -1), (0, 0)),
        blocks((0, 1), (0, 0), (1, 0), (-1, 0)),
        blocks((-1, 0), (0, 1), (0, -1), (0, 0)),
    )
}

/// The offsets of the S piece.
pub open spec fn s_shape() -> Seq<Seq<(int, int)>> {
    orientations(
        blocks((1, -1), (0, -1), (0, 0), (-1, 0)),
        blocks((0, -1), (0, 0), (1, 0), (1, 1)),
        blocks((1, 0), (0, 0), (0, 1), (-1, 1)),
        blocks((-1, -1), (0, 0), (-1, 0), (0, 1)),
    )
}

/// The offsets of the Z piece.
pub open spec fn z_shape() -> Seq<Seq<(int, int)>> {
    orientations(
        blocks((-1, -1), (0, -1), (0, 0), (1, 0)),
        blocks((1, -1), (1, 0), (0, 0), (0, 1)),
        blocks((-1, 0), (0, 0), (0, 1), (1, 1)),
        blocks((0, -1), (0, 0), (-1, 0), (-1, 1)),
    )
}

/// The offsets of the J piece.
pub open spec fn j_shape() -> Seq<Seq<(int, int)>> {
    orientations(
        blocks((-1, 0), (0, 0), (1, 0), (-1, -1)),
        blocks((0, -1), (0, 0), (0, 1), (1, -1)),
        blocks((-1, 0), (0, 0), (1, 0), (1, 1)),
        blocks((0, -1), (0, 0), (0, 1), (-1, 1)),
    )
}

/// The offsets of the L piece.
pub open spec fn l_shape() -> Seq<Seq<(int, int)>> {
    orientations(
        blocks((-1, 0), (0, 0), (1, 0), (1, -1)),
        blocks((0, -1), (0, 0), (0, 1), (1, 1)),
        blocks((-1, 0), (0, 0), (1, 0), (-1, 1)),
        blocks((0, -1), (0, 0), (0, 1), (-1, -1)),
    )
}

/// The offsets of a kind's four blocks from the piece's origin, for each of its
/// four orientations. The tables are data: no orientation is computed from
/// another, and a turn near a wall is not nudged away from it.
pub open spec fn shape_table(kind: PieceKind) -> Seq<Seq<(int, int)>> {
    match kind {
        PieceKind::I => i_shape(),
        PieceKind::O => o_shape(),
        PieceKind::S => s_shape(),
        PieceKind::Z => z_shape(),
        PieceKind::J => j_shape(),
        PieceKind::L => l_shape(),
        PieceKind::T => t_shape(),
    }
}

/// The colour in which a kind is drawn.
pub open spec fn kind_color(kind: PieceKind) -> Color {
    match kind {
        PieceKind::I => Color { r: 0, g: 255, b: 255 },
        PieceKind::O => Color { r: 255, g: 255, b: 0 },
        PieceKind::S => Color { r: 0, g: 255, b: 0 },
        PieceKind::Z => Color { r: 255, g: 0, b: 0 },
        PieceKind::J => Color { r: 0, g: 0, b: 255 },
        PieceKind::L => Color { r: 255, g: 165, b: 0 },
        PieceKind::T => Color { r: 128, g: 0, b: 128 },
    }
}

/// A piece as a value: where its origin is, how it is turned, and its kind.
pub ghost struct PieceView {
    pub origin: (int, int),
    pub orientation: int,
    pub kind: PieceKind,
}

impl PieceView {
    /// The piece is turned one of the four ways.
    pub open spec fn wf(self) -> bool {
        0 <= self.orientation < 4
    }

    /// The offset of block `block` in the current orientation.
    pub open spec fn offset(self, block: int) -> (int, int) {
        shape_table(self.kind)[self.orientation][block]
    }

    /// The grid position of block `block`.
    pub open spec fn cell(self, block: int) -> (int, int) {
        (self.origin.0 + self.offset(block).0, self.origin.1 + self.offset(block).1)
    }

    /// Whether one of the four blocks lies at column `x`, row `y`.
    pub open spec fn covers(self, x: int, y: int) -> bool {
        exists|block: int| 0 <= block < 4 && #[trigger] self.cell(block) == (x, y)
    }

    /// The piece moved by `dx` columns and `dy` rows.
    pub open spec fn translated(self, dx: int, dy: int) -> PieceView {
        PieceView { origin: (self.origin.0 + dx, self.origin.1 + dy), ..self }
    }

    /// The piece turned to its next orientation.
    pub open spec fn rotated_right(self) -> PieceView {
        PieceView { orientation: (self.orientation + 1) % 4, ..self }
    }

    /// The piece turned to its previous orientation.
    pub open spec fn rotated_left(self) -> PieceView {
        PieceView { orientation: (self.orientation + 3) % 4, ..self }
    }
}

/// No block lies further from the origin than one step left or up, or two
/// steps right or down.
pub proof fn lemma_offsets_bounded(piece: PieceView, block: int)
    requires
        piece.wf(),
        0 <= block < 4,
    ensures
        -1 <= piece.offset(block).0 <= 2,
        -1 <= piece.offset(block).1 <= 2,
{
}

/// The four blocks of a piece lie on four different cells.
pub proof fn lemma_cells_distinct(piece: PieceView, a: int, b: int)
    requires
        piece.wf(),
        0 <= a < 4,
        0 <= b < 4,
        a != b,
    ensures
        piece.cell(a) != piece.cell(b),
{
}

/// The O piece looks the same however it is turned.
pub proof fn lemma_o_piece_ignores_rotation(p: int, q: int, block: int)
    requires
        0 <= p < 4,
        0 <= q < 4,
        0 <= block < 4,
    ensures
        shape_table(PieceKind::O)[p][block] == shape_table(PieceKind::O)[q][block],
{
}

/// A right turn followed by a left turn, or a left turn followed by a right
/// turn, gives back the piece.
pub proof fn lemma_turns_cancel(piece: PieceView)
    requires
        piece.wf(),
    ensures
        piece.rotated_right().rotated_left() == piece,
        piece.rotated_left().rotated_right() == piece,
        piece.rotated_right().wf(),
        piece.rotated_left().wf(),
{
}

/// A piece on the board: an origin, one of four orientations, and the offset
/// table of its kind.
#[derive(Clone, Copy, Debug)]
pub struct TetrisPiece {
    pos: Pos2D,
    shape: [[Pos2D; 4]; 4],
    orientation: usize,
    kind: PieceKind,
    color: Color,
}

impl View for TetrisPiece {
    type V = PieceView;

    closed spec fn view(&self) -> PieceView {
        PieceView { origin: self.pos@, orientation: self.orientation as int, kind: self.kind }
    }
}

impl TetrisPiece {
    /// The piece is turned one of the four ways, and carries the offset table
    /// and the colour of its kind.
    pub closed spec fn wf(&self) -> bool {
        &&& self.orientation < 4
        &&& self.color == kind_color(self.kind)
        &&& forall|o: int, b: int|
            0 <= o < 4 && 0 <= b < 4 ==> (#[trigger] self.shape@[o]@[b])@ == shape_table(
                self.kind,
            )[o][b]
    }

    /// What a well-formed piece is as a value: its view is well formed, and its
    /// origin has the coordinates of a position.
    pub proof fn lemma_wf(&self)
        requires
            self.wf(),
        ensures
            self@.wf(),
            i32::MIN <= self@.origin.0 <= i32::MAX,
            i32::MIN <= self@.origin.1 <= i32::MAX,
    {
    }

    /// The I piece at `pos`, unturned.
    pub fn build_i_piece(pos: Pos2D) -> (piece: Self)
        ensures
            piece.wf(),
            piece@ == (PieceView { origin: pos@, orientation: 0, kind: PieceKind::I }),
    {
        TetrisPiece {
            pos: pos,
            shape: [
                [Pos2D::xy(-1, 0), Pos2D::xy(0, 0), Pos2D::xy(1, 0), Pos2D::xy(2, 0)],
                [Pos2D::xy(1, -1), Pos2D::xy(1, 0), Pos2D::xy(1, 1), Pos2D::xy(1, 2)],
                [Pos2D::xy(-1, 1), Pos2D::xy(0, 1), Pos2D::xy(1, 1), Pos2D::xy(2, 1)],
                [Pos2D::xy(0, -1), Pos2D::xy(0, 0), Pos2D::xy(0, 1), Pos2D::xy(0, 2)],
            ],
            color: Color::rgb(0, 255, 255),
            orientation: 0usize,
            kind: PieceKind::I,
        }
    }

    /// The O piece at `pos`, unturned.
    pub fn build_o_piece(pos: Pos2D) -> (piece: Self)
        ensures
            piece.wf(),
            piece@ == (PieceView { origin: pos@, orientation: 0, kind: PieceKind::O }),
    {
        TetrisPiece {
            pos: pos,
            shape: [
                [Pos2D::xy(0, 0), Pos2D::xy(1, 0), Pos2D::xy(1, 1), Pos2D::xy(0, 1)],
                [Pos2D::xy(0, 0), Pos2D::xy(1, 0), Pos2D::xy(1, 1), Pos2D::xy(0, 1)],
                [Pos2D::xy(0, 0), Pos2D::xy(1, 0), Pos2D::xy(1, 1), Pos2D::xy(0, 1)],
                [Pos2D::xy(0, 0), Pos2D::xy(1, 0), Pos2D::xy(1, 1), Pos2D::xy(0, 1)],
            ],
            color: Color::rgb(255, 255, 0),
            orientation: 0usize,
            kind: PieceKind::O,
        }
    }

    /// The T piece at `pos`, unturned.
    pub fn build_t_piece(pos: Pos2D) -> (piece: Self)
        ensures
            piece.wf(),
            piece@ == (PieceView { origin: pos@, orientation: 0, kind: PieceKind::T }),
    {
        TetrisPiece {
            pos: pos,
            shape: [
                [Pos2D::xy(0, -1), Pos2D::xy(0, 0), Pos2D::xy(1, 0), Pos2D::xy(-1, 0)],
                [Pos2D::xy(1, 0), Pos2D::xy(0, 1), Pos2D::xy(0, -1), Pos2D::xy(0, 0)],
                [Pos2D::xy(0, 1), Pos2D::xy(0, 0), Pos2D::xy(1, 0), Pos2D::xy(-1, 0)],
                [Pos2D::xy(-1, 0), Pos2D::xy(0, 1), Pos2D::xy(0, -1), Pos2D::xy(0, 0)],
            ],
            color: Color::rgb(128, 0, 128),
            orientation: 0usize,
            kind: PieceKind::T,
        }
    }

    /// The S piece at `pos`, unturned.
    pub fn build_s_piece(pos: Pos2D) -> (piece: Self)
        ensures
            piece.wf(),
            piece@ == (PieceView { origin: pos@, orientation: 0, kind: PieceKind::S }),
    {
        TetrisPiece {
            pos: pos,
            shape: [
                [Pos2D::xy(1, -1), Pos2D::xy(0, -1), Pos2D::xy(0, 0), Pos2D::xy(-1, 0)],
                [Pos2D::xy(0, -1), Pos2D::xy(0, 0), Pos2D::xy(1, 0), Pos2D::xy(1, 1)],
                [Pos2D::xy(1, 0), Pos2D::xy(0, 0), Pos2D::xy(0, 1), Pos2D::xy(-1, 1)],
                [Pos2D::xy(-1, -1), Pos2D::xy(0, 0), Pos2D::xy(-1, 0), Pos2D::xy(0, 1)],
            ],
            color: Color::rgb(0, 255, 0),
            orientation: 0usize,
            kind: PieceKind::S,
        }
    }

    /// The Z piece at `pos`, unturned.
    pub fn build_z_piece(pos: Pos2D) -> (piece: Self)
        ensures
            piece.wf(),
            piece@ == (PieceView { origin: pos@, orientation: 0, kind: PieceKind::Z }),
    {
        TetrisPiece {
            pos: pos,
            shape: [
                [Pos2D::xy(-1, -1), Pos2D::xy(0, -1), Pos2D::xy(0, 0), Pos2D::xy(1, 0)],
                [Pos2D::xy(1, -1), Pos2D::xy(1, 0), Pos2D::xy(0, 0), Pos2D::xy(0, 1)],
                [Pos2D::xy(-1, 0), Pos2D::xy(0, 0), Pos2D::xy(0, 1), Pos2D::xy(1, 1)],
                [Pos2D::xy(0, -1), Pos2D::xy(0, 0), Pos2D::xy(-1, 0), Pos2D::xy(-1, 1)],
            ],
            color: Color::rgb(255, 0, 0),
            orientation: 0usize,
            kind: PieceKind::Z,
        }
    }

    /// The J piece at `pos`, unturned.
    pub fn build_j_piece(pos: Pos2D) -> (piece: Self)
        ensures
            piece.wf(),
            piece@ == (PieceView { origin: pos@, orientation: 0, kind: PieceKind::J }),
    {
        TetrisPiece {
            pos: pos,
            shape: [
                [Pos2D::xy(-1, 0), Pos2D::xy(0, 0), Pos2D::xy(1, 0), Pos2D::xy(-1, -1)],
                [Pos2D::xy(0, -1), Pos2D::xy(0, 0), Pos2D::xy(0, 1), Pos2D::xy(1, -1)],
                [Pos2D::xy(-1, 0), Pos2D::xy(0, 0), Pos2D::xy(1, 0), Pos2D::xy(1, 1)],
                [Pos2D::xy(0, -1), Pos2D::xy(0, 0), Pos2D::xy(0, 1), Pos2D::xy(-1, 1)],
            ],
            color: Color::rgb(0, 0, 255),
            orientation: 0usize,
            kind: PieceKind::J,
        }
    }

    /// The L piece at `pos`, unturned.
    pub fn build_l_piece(pos: Pos2D) -> (piece: Self)
        ensures
            piece.wf(),
            piece@ == (PieceView { origin: pos@, orientation: 0, kind: PieceKind::L }),
    {
        TetrisPiece {
            pos: pos,
            shape: [
                [Pos2D::xy(-1, 0), Pos2D::xy(0, 0), Pos2D::xy(1, 0), Pos2D::xy(1, -1)],
                [Pos2D::xy(0, -1), Pos2D::xy(0, 0), Pos2D::xy(0, 1), Pos2D::xy(1, 1)],
                [Pos2D::xy(-1, 0), Pos2D::xy(0, 0), Pos2D::xy(1, 0), Pos2D::xy(-1, 1)],
                [Pos2D::xy(0, -1), Pos2D::xy(0, 0), Pos2D::xy(0, 1), Pos2D::xy(-1, -1)],
            ],
            color: Color::rgb(255, 165, 0),
            orientation: 0usize,
            kind: PieceKind::L,
        }
    }

    /// Moves the origin by `pos`. Nothing is checked against any board.
    pub fn move_by(&mut self, pos: Pos2D)
        requires
            old(self).wf(),
            i32::MIN <= old(self)@.origin.0 + pos.x <= i32::MAX,
            i32::MIN <= old(self)@.origin.1 + pos.y <= i32::MAX,
        ensures
            final(self).wf(),
            final(self)@ == old(self)@.translated(pos.x as int, pos.y as int),
    {
        self.pos.add(pos);
    }

    /// Turns the piece to the next orientation.
    pub fn rotate_right(&mut self)
        requires
            old(self).wf(),
        ensures
            final(self).wf(),
            final(self)@ == old(self)@.rotated_right(),
    {
        self.orientation = (self.orientation + 1) % 4;
    }

    /// Turns the piece to the previous orientation.
    pub fn rotate_left(&mut self)
        requires
            old(self).wf(),
        ensures
            final(self).wf(),
            final(self)@ == old(self)@.rotated_left(),
    {
        self.orientation = (self.orientation + 3) % 4;
    }

    /// A walk over the four cells that the piece occupies now. It reads the
    /// piece each time it is asked for a cell, and cannot be started again.
    pub fn iter(&self) -> (cells: TetrisPieceIter<'_>)
        requires
            self.wf(),
        ensures
            cells.wf(),
            cells@ == (WalkView { block: 0, piece: self@ }),
    {
        TetrisPieceIter { block_num: 0usize, piece: self }
    }

    /// Where the origin of the piece is.
    pub fn position(&self) -> (pos: Pos2D)
        ensures
            pos@ == self@.origin,
    {
        self.pos
    }

    /// Which of its four orientations the piece is in.
    pub fn orientation(&self) -> (orientation: usize)
        ensures
            orientation == self@.orientation,
    {
        self.orientation
    }

    /// The kind of the piece.
    pub fn kind(&self) -> (kind: PieceKind)
        ensures
            kind == self@.kind,
    {
        self.kind
    }

    /// The colour of the piece, which is that of its kind.
    pub fn color(&self) -> (color: Color)
        requires
            self.wf(),
        ensures
            color == kind_color(self@.kind),
    {
        self.color
    }
}

/// How far a walk over a piece's cells has come.
pub ghost struct WalkView {
    pub block: int,
    pub piece: PieceView,
}

/// A walk over the cells of a piece, one block at a time.
pub struct TetrisPieceIter<'a> {
    block_num: usize,
    piece: &'a TetrisPiece,
}

impl<'a> View for TetrisPieceIter<'a> {
    type V = WalkView;

    closed spec fn view(&self) -> WalkView {
        WalkView { block: self.block_num as int, piece: self.piece@ }
    }
}

impl<'a> TetrisPieceIter<'a> {
    /// The walk has handed out four cells at most, and its piece is well
    /// formed.
    pub closed spec fn wf(&self) -> bool {
        self.block_num <= 4 && self.piece.wf()
    }

    /// The next cell of the piece, or `None` once all four have been handed
    /// out.
    pub fn next(&mut self) -> (cell: Option<Pos2D>)
        requires
            old(self).wf(),
            old(self)@.block < 4 ==> {
                &&& i32::MIN <= old(self)@.piece.cell(old(self)@.block).0 <= i32::MAX
                &&& i32::MIN <= old(self)@.piece.cell(old(self)@.block).1 <= i32::MAX
            },
        ensures
            final(self).wf(),
            final(self)@.piece == old(self)@.piece,
            0 <= old(self)@.block <= 4,
            old(self)@.block == 4 ==> cell.is_none() && final(self)@.block == 4,
            old(self)@.block < 4 ==> final(self)@.block == old(self)@.block + 1,
            old(self)@.block < 4 ==> cell.is_some() && cell.unwrap()@ == old(self)@.piece.cell(
                old(self)@.block,
            ),
    {
        if self.block_num == 4 {
            return None;
        }
        let diff: Pos2D = self.piece.shape[self.piece.orientation][self.block_num];
        assert(diff@ == shape_table(self.piece.kind)[self.piece.orientation as int][self.block_num as int]);
        let mut pos: Pos2D = Pos2D::xy(self.piece.pos.x, self.piece.pos.y);

        pos.x = pos.x + diff.x;
        pos.y = pos.y + diff.y;

        self.block_num = self.block_num + 1;

        Some(pos)
    }
}

} // verus!
