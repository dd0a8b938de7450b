use vstd::prelude::*;

use crate::board::{
    edge_distance, home_rank, initial_board, initial_piece, pawn_rank, rook_dir, rook_home,
    rook_target, Board,
};
use crate::piece::{Piece, PieceKind};
use crate::position::{square, valid_template, Position, Template};

verus! {

/// A move request is accepted exactly when a piece of the side to move
/// stands on `from`, `to` is among the squares that piece can move to (those
/// `Game::playable_pos` lists), and the resulting position does not leave
/// the mover's king in check.
pub proof fn lemma_move_iff_playable(b: Board, from: Position, to: Position)
    requires
        b.wf(),
    ensures
        b.accepts_move(from, to) <==> {
            &&& b.at(from) is Some
            &&& b.at(from)->0.white == b.white_to_move
            &&& b.can_reach(b.at(from)->0, to)
            &&& !b.after_move(b.at(from)->0, to).in_check(b.white_to_move)
        },
{
}

/// The king's starting square.
pub open spec fn king_home(white: bool) -> Position {
    square(5, home_rank(white))
}

/// The square the king lands on when it castles on a side.
pub open spec fn castle_square(white: bool, kingside: bool) -> Position {
    square(if kingside { 7 } else { 3 }, home_rank(white))
}

/// The squares between the king and the rook are empty.
pub open spec fn castle_path_empty(b: Board, white: bool, kingside: bool) -> bool {
    let r = home_rank(white);
    if kingside {
        b.at(square(6, r)) is None && b.at(square(7, r)) is None
    } else {
        b.at(square(2, r)) is None && b.at(square(3, r)) is None && b.at(square(4, r)) is None
    }
}

/// Castling: with the king and the rook of a side on their home squares and
/// unmoved, the squares between them empty, and no square on the king's way
/// attacked, the king's two-square move is accepted and moves the rook too:
/// the king lands two squares over and the rook on the square the king
/// crossed. In this engine a pawn attacks only an occupied square, so the
/// square the king lands on may be attacked only once the king stands
/// there; such positions are left out by asking that the castled king is not
/// in check.
pub proof fn lemma_castling(b: Board, white: bool, kingside: bool)
    requires
        b.wf(),
        b.white_to_move == white,
        b.at(king_home(white)) == Some(
            Piece { kind: PieceKind::King, white, position: king_home(white) },
        ),
        b.at(rook_home(white, kingside)) == Some(
            Piece { kind: PieceKind::Rook, white, position: rook_home(white, kingside) },
        ),
        !b.king_moved(white),
        !b.rook_moved(white, kingside),
        castle_path_empty(b, white, kingside),
        !b.attacked(king_home(white), !white),
        !b.attacked(rook_target(white, kingside), !white),
        !b.attacked(castle_square(white, kingside), !white),
        !b.after_move(b.at(king_home(white))->0, castle_square(white, kingside)).in_check(white),
    ensures
        b.accepts_move(king_home(white), castle_square(white, kingside)),
        b.play(king_home(white), castle_square(white, kingside)).at(castle_square(white, kingside))
            == Some(
            Piece { kind: PieceKind::King, white, position: castle_square(white, kingside) },
        ),
        b.play(king_home(white), castle_square(white, kingside)).at(rook_target(white, kingside))
            == Some(
            Piece { kind: PieceKind::Rook, white, position: rook_target(white, kingside) },
        ),
        b.play(king_home(white), castle_square(white, kingside)).at(king_home(white)) is None,
        b.play(king_home(white), castle_square(white, kingside)).at(rook_home(white, kingside)) is None,
{
    let r = home_rank(white);
    let king = b.at(king_home(white))->0;
    let rook = b.at(rook_home(white, kingside))->0;
    let dest = castle_square(white, kingside);
    let j: int = if kingside { 8 } else { 9 };
    let mov = king.moves()[j];
    assert(b.accepts(king, mov, dest));
    let dir: Template = rook_dir(kingside);
    if kingside {
        assert(b.slide_walk(dir, square(7, r), rook_target(white, kingside), rook));
        assert(b.slide_walk(dir, rook.position, rook_target(white, kingside), rook));
    } else {
        assert(b.slide_walk(dir, square(3, r), rook_target(white, kingside), rook));
        assert(b.slide_walk(dir, square(2, r), rook_target(white, kingside), rook));
        assert(b.slide_walk(dir, rook.position, rook_target(white, kingside), rook));
    }
    assert(b.rook_ready(white, kingside));
    assert(b.can_reach(king, dest));
}

/// Once the king or the rook of a side has moved, the king's two-square
/// move toward that side is refused.
pub proof fn lemma_castling_needs_rights(b: Board, white: bool, kingside: bool)
    requires
        b.wf(),
        b.at(king_home(white)) == Some(
            Piece { kind: PieceKind::King, white, position: king_home(white) },
        ),
        b.king_moved(white) || b.rook_moved(white, kingside),
    ensures
        !b.accepts_move(king_home(white), castle_square(white, kingside)),
{
    let king = b.at(king_home(white))->0;
    let dest = castle_square(white, kingside);
    assert forall|j: int| 0 <= j < king.moves().len() implies !#[trigger] b.accepts(
        king,
        king.moves()[j],
        dest,
    ) by {}
}

/// A pawn's two-square template is refused off the pawn's starting rank,
/// whatever stands on the squares.
pub proof fn lemma_pawn_double_template(
    b: Board,
    mov: Template,
    pawn: Piece,
    to: Position,
    is_last: bool,
)
    requires
        pawn.kind == PieceKind::Pawn,
        mov.1 == 2 || mov.1 == -2,
        pawn.position.row != pawn_rank(pawn.white),
    ensures
        !b.step_allowed(mov, pawn.position, to, pawn, is_last),
{
}

/// A pawn moves two squares forward only from its starting rank, and only
/// when the square it passes and the square it lands on are both empty.
pub proof fn lemma_pawn_double_step(b: Board, from: Position, to: Position)
    requires
        b.wf(),
        b.at(from) is Some,
        b.at(from)->0.kind == PieceKind::Pawn,
        to.col() == from.col(),
        to.row == from.row + (if b.at(from)->0.white {
            2int
        } else {
            -2int
        }),
        b.accepts_move(from, to),
    ensures
        from.row == pawn_rank(b.at(from)->0.white),
        b.at(from.shifted(
            0,
            if b.at(from)->0.white {
                1
            } else {
                -1
            },
        )) is None,
        b.at(to) is None,
{
    crate::board::lemma_at_position(b, from);
    let pawn = b.at(from)->0;
    let j = choose|j: int|
        0 <= j < pawn.moves().len() && #[trigger] b.accepts(pawn, pawn.moves()[j], to);
    assert(j == 3);
}

/// A walk depends on the squares alone.
proof fn lemma_walk_same_squares(
    b1: Board,
    b2: Board,
    mov: Template,
    cur: Position,
    end: Position,
    piece: Piece,
)
    requires
        b1.squares == b2.squares,
    ensures
        b1.slide_walk(mov, cur, end, piece) == b2.slide_walk(mov, cur, end, piece),
    decreases edge_distance(cur, mov),
{
    if cur.on_board() && valid_template(mov) {
        let next = cur.shifted(mov.0 as int, mov.1 as int);
        if b1.step_allowed(mov, cur, next, piece, next == end) && next != end {
            lemma_walk_same_squares(b1, b2, mov, next, end, piece);
        }
    }
}

/// Whose turn it is does not change which squares are attacked.
proof fn lemma_check_ignores_turn(b1: Board, b2: Board, white: bool)
    requires
        b1.squares == b2.squares,
        b1.kings == b2.kings,
        b1.has_king_moved == b2.has_king_moved,
        b1.has_rook_moved == b2.has_rook_moved,
    ensures
        b1.in_check(white) == b2.in_check(white),
{
    assert forall|q: Piece, mov: Template, t: Position| #[trigger]
        b1.accepts(q, mov, t) == b2.accepts(q, mov, t) by {
        lemma_walk_same_squares(b1, b2, mov, q.position, t, q);
    }
    assert forall|q: Piece, t: Position| #[trigger] b1.reaches(q, t) == b2.reaches(q, t) by {
        if b1.reaches(q, t) {
            let j = choose|j: int| 0 <= j < q.moves().len() && #[trigger] b1.accepts(q, q.moves()[j], t);
            assert(b2.accepts(q, q.moves()[j], t));
        }
        if b2.reaches(q, t) {
            let j = choose|j: int| 0 <= j < q.moves().len() && #[trigger] b2.accepts(q, q.moves()[j], t);
            assert(b1.accepts(q, q.moves()[j], t));
        }
    }
}

/// A piece of the board that reaches a square attacks it.
proof fn lemma_reaching_attacks(b: Board, q: Piece, t: Position)
    requires
        b.wf(),
        b.at(q.position) == Some(q),
        b.reaches(q, t),
    ensures
        b.attacked(t, q.white),
{
    assert(b.squares[q.position.index()] == Some(q));
}

/// Every accepted move keeps a position legal: both kings stay on the board,
/// each on the square kept for it, and the mover's king is not left in check.
pub proof fn lemma_play_keeps_legal(b: Board, from: Position, to: Position)
    requires
        b.legal_position(),
        b.accepts_move(from, to),
    ensures
        b.play(from, to).legal_position(),
{
    crate::board::lemma_at_position(b, from);
    let p = b.at(from)->0;
    let w = p.white;
    let j = choose|j: int| 0 <= j < p.moves().len() && #[trigger] b.accepts(p, p.moves()[j], to);
    crate::board::lemma_accepts_target(b, p, p.moves()[j], to);
    let their_king = b.king_of(!w);
    crate::board::lemma_at_position(b, their_king);
    if to == their_king {
        lemma_reaching_attacks(b, p, to);
    }
    let b1 = match Board::castle_rook(p, to) {
        Some(rm) => match b.at(rm.0) {
            Some(r) => b.relocate(r, rm.1),
            None => b,
        },
        None => b,
    };
    if Board::castling(p, to) {
        let ks = Board::kingside(p, to);
        let rf = rook_home(w, ks);
        let rt = rook_target(w, ks);
        crate::board::lemma_at_position(b, rf);
        let rook = b.at(rf)->0;
        crate::board::lemma_walk_target(b, rook_dir(ks), rook.position, rt, rook);
        if rt.index() == from.index() {
            crate::position::lemma_index_injective(rt, from);
        }
        if rf.index() == from.index() {
            crate::position::lemma_index_injective(rf, from);
        }
        if rt == their_king {
            let k: int = if ks { 0 } else { 2 };
            assert(b.accepts(rook, rook.moves()[k], rt));
            lemma_reaching_attacks(b, rook, rt);
        }
        if rt.index() == their_king.index() {
            crate::position::lemma_index_injective(rt, their_king);
        }
        crate::board::lemma_relocate_wf(b, rook, rt);
        assert(b1 == b.relocate(rook, rt));
    }
    if to.index() == their_king.index() {
        crate::position::lemma_index_injective(to, their_king);
    }
    if from.index() == their_king.index() {
        crate::position::lemma_index_injective(from, their_king);
    }
    assert(b1.at(from) == Some(p));
    crate::board::lemma_relocate_wf(b1, p, to);
    let b2 = b1.relocate(p, to);
    assert(b2 == b.after_move(p, to));
    lemma_check_ignores_turn(b2, b.play(from, to), w);
    let my_king = b.king_of(w);
    if p.kind != PieceKind::King {
        crate::board::lemma_at_position(b, my_king);
        if to.index() == my_king.index() {
            crate::position::lemma_index_injective(to, my_king);
        }
        if from.index() == my_king.index() {
            crate::position::lemma_index_injective(from, my_king);
        }
        assert(b2.at(my_king) == b.at(my_king));
    }
    assert(b2.at(their_king) == b.at(their_king));
}

/// What stands on a square of the starting position.
proof fn lemma_initial_at()
    ensures
        forall|p: Position|
            p.on_board() ==> #[trigger] initial_board().at(p) == initial_piece(p.col(), p.row as int),
{
    assert forall|p: Position| p.on_board() implies #[trigger] initial_board().at(p)
        == initial_piece(p.col(), p.row as int) by {
        vstd::arithmetic::div_mod::lemma_fundamental_div_mod_converse(
            p.index(),
            8,
            p.col() - 1,
            p.row - 1,
        );
    }
}

/// The starting position is a legal one: both kings stand on their squares
/// and neither is attacked.
pub proof fn lemma_initial_legal()
    ensures
        initial_board().legal_position(),
{
    let b = initial_board();
    crate::board::lemma_initial_wf();
    lemma_initial_at();
    assert(b.at(square(5, 1)) == initial_piece(5, 1));
    assert(b.at(square(5, 8)) == initial_piece(5, 8));
    let target = b.king_of(false);
    assert forall|i: int|
        0 <= i < 64 && (#[trigger] b.squares[i]) is Some && b.squares[i]->0.white implies !b.reaches(
        b.squares[i]->0,
        target,
    ) by {
        let q = b.squares[i]->0;
        assert(b.at(q.position) == Some(q));
        assert forall|j: int| 0 <= j < q.moves().len() implies !#[trigger] b.accepts(
            q,
            q.moves()[j],
            target,
        ) by {
            let mov = q.moves()[j];
            let next = q.position.shifted(mov.0 as int, mov.1 as int);
            if next.on_board() {
                assert(b.at(next) == initial_piece(next.col(), next.row as int));
            }
        }
    }
}

} // verus!
