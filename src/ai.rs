use vstd::prelude::*;

use crate::game::Game;
use crate::piece::{Piece, PieceKind};

verus! {

pub open spec fn piece_value(kind: PieceKind) -> int {
    match kind {
        PieceKind::Pawn => 1,
        PieceKind::Knight => 3,
        PieceKind::Bishop => 3,
        PieceKind::Rook => 5,
        PieceKind::Queen => 9,
        PieceKind::King => 1000,
    }
}

/// What one piece adds to the score: one for white or minus one for black,
/// plus the value of its kind.
pub open spec fn piece_score(p: Piece) -> int {
    (if p.white {
        1int
    } else {
        -1int
    }) + piece_value(p.kind)
}

/// The sum of the scores of the pieces in `s`.
pub open spec fn material_score(s: Seq<Option<Piece>>) -> int
    decreases s.len(),
{
    if s.len() == 0 {
        0
    } else {
        material_score(s.drop_last()) + match s.last() {
            Some(p) => piece_score(p),
            None => 0,
        }
    }
}

/// A material count of the position.
pub fn evaluate(game: &Game) -> (r: i32)
    requires
        game@.wf(),
    ensures
        r == material_score(game.pieces@),
{
    let ghost sq = game.pieces@;
    let mut score: i32 = 0;
    let mut i: usize = 0;
    while i < game.pieces.len()
        invariant
            sq == game.pieces@,
            sq.len() == 64,
            i <= sq.len(),
            score == material_score(sq.subrange(0, i as int)),
            -1001 * i <= score <= 1001 * i,
        decreases sq.len() - i,
    {
        proof {
            assert(sq.subrange(0, i as int + 1).drop_last() =~= sq.subrange(0, i as int));
        }
        match game.pieces[i] {
            Some(piece) => {
                let mut piece_score: i32 = 0;
                if piece.white {
                    piece_score = piece_score + 1;
                } else {
                    piece_score = piece_score - 1;
                }
                piece_score = piece_score + match piece.kind {
                    PieceKind::Pawn => 1,
                    PieceKind::Knight => 3,
                    PieceKind::Bishop => 3,
                    PieceKind::Rook => 5,
                    PieceKind::Queen => 9,
                    PieceKind::King => 1000,
                };
                score = score + piece_score;
            },
            None => {},
        }
        i = i + 1;
    }
    proof {
        assert(sq.subrange(0, 64) =~= sq);
    }
    score
}

} // verus!
