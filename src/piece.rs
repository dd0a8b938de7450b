use vstd::prelude::*;

use crate::position::{valid_template, Position, Template};

verus! {

#[derive(Clone, Copy, PartialEq, Eq, Structural, Hash, Debug)]
pub enum PieceKind {
    Pawn,
    Knight,
    Bishop,
    Rook,
    Queen,
    King,
}

/// A unit on the board: its kind, its color and the square it stands on.
#[derive(Clone, Copy, PartialEq, Eq, Structural, Hash, Debug)]
pub struct Piece {
    pub kind: PieceKind,
    pub white: bool,
    pub position: Position,
}

/// The fixed list of templates of each kind. Pawns step forward for their own
/// color and have a two-square first move; the king's two repeatable
/// horizontal templates serve only to probe castling.
pub open spec fn templates(kind: PieceKind, white: bool) -> Seq<Template> {
    match kind {
        PieceKind::Pawn => if white {
            seq![(0i32, 1i32, false), (1i32, 1i32, false), (-1i32, 1i32, false), (0i32, 2i32, false)]
        } else {
            seq![(0i32, -1i32, false), (-1i32, -1i32, false), (1i32, -1i32, false), (0i32, -2i32, false)]
        },
        PieceKind::Knight => seq![
            (2i32, 1i32, false),
            (2i32, -1i32, false),
            (-2i32, 1i32, false),
            (-2i32, -1i32, false),
            (1i32, 2i32, false),
            (-1i32, 2i32, false),
            (1i32, -2i32, false),
            (-1i32, -2i32, false),
        ],
        PieceKind::Bishop => seq![(1i32, 1i32, true), (1i32, -1i32, true), (-1i32, 1i32, true), (-1i32, -1i32, true)],
        PieceKind::Rook => seq![(-1i32, 0i32, true), (0i32, -1i32, true), (1i32, 0i32, true), (0i32, 1i32, true)],
        PieceKind::Queen => seq![
            (1i32, 1i32, true),
            (1i32, -1i32, true),
            (-1i32, 1i32, true),
            (-1i32, -1i32, true),
            (1i32, 0i32, true),
            (-1i32, 0i32, true),
            (0i32, 1i32, true),
            (0i32, -1i32, true),
        ],
        PieceKind::King => seq![
            (1i32, 1i32, false),
            (1i32, -1i32, false),
            (-1i32, 1i32, false),
            (-1i32, -1i32, false),
            (1i32, 0i32, false),
            (-1i32, 0i32, false),
            (0i32, 1i32, false),
            (0i32, -1i32, false),
            (1i32, 0i32, true),
            (-1i32, 0i32, true),
        ],
    }
}

/// Every template of every kind is a valid one.
pub proof fn lemma_templates_valid(kind: PieceKind, white: bool)
    ensures
        forall|j: int|
            0 <= j < templates(kind, white).len() ==> #[trigger] valid_template(
                templates(kind, white)[j],
            ),
{
}

impl Piece {
    pub open spec fn moves(self) -> Seq<Template> {
        templates(self.kind, self.white)
    }

    /// The templates of this piece.
    pub fn ways_to_move(&self) -> (r: Vec<Template>)
        ensures
            r@ == self.moves(),
    {
        let mut v: Vec<Template> = Vec::new();
        match self.kind {
            PieceKind::Pawn => {
                if self.white {
                    v.push((0, 1, false));
                    v.push((1, 1, false));
                    v.push((-1, 1, false));
                    v.push((0, 2, false));
                } else {
                    v.push((0, -1, false));
                    v.push((-1, -1, false));
                    v.push((1, -1, false));
                    v.push((0, -2, false));
                }
            },
            PieceKind::Knight => {
                v.push((2, 1, false));
                v.push((2, -1, false));
                v.push((-2, 1, false));
                v.push((-2, -1, false));
                v.push((1, 2, false));
                v.push((-1, 2, false));
                v.push((1, -2, false));
                v.push((-1, -2, false));
            },
            PieceKind::Bishop => {
                v.push((1, 1, true));
                v.push((1, -1, true));
                v.push((-1, 1, true));
                v.push((-1, -1, true));
            },
            PieceKind::Rook => {
                v.push((-1, 0, true));
                v.push((0, -1, true));
                v.push((1, 0, true));
                v.push((0, 1, true));
            },
            PieceKind::Queen => {
                v.push((1, 1, true));
                v.push((1, -1, true));
                v.push((-1, 1, true));
                v.push((-1, -1, true));
                v.push((1, 0, true));
                v.push((-1, 0, true));
                v.push((0, 1, true));
                v.push((0, -1, true));
            },
            PieceKind::King => {
                v.push((1, 1, false));
                v.push((1, -1, false));
                v.push((-1, 1, false));
                v.push((-1, -1, false));
                v.push((1, 0, false));
                v.push((-1, 0, false));
                v.push((0, 1, false));
                v.push((0, -1, false));
                v.push((1, 0, true));
                v.push((-1, 0, true));
            },
        }
        assert(v@ =~= self.moves());
        v
    }
}

} // verus!
