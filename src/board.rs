use vstd::prelude::*;

use crate::piece::{Piece, PieceKind};
use crate::position::{square, valid_template, Position, Template};

verus! {

/// How the game stands for the side to move.
#[derive(Clone, Copy, PartialEq, Eq, Structural, Debug)]
pub enum GameStatus {
    /// The side to move has a legal move.
    Playable,
    /// No legal move, and the king is in check.
    Checkmate,
    /// No legal move, and the king is not in check.
    Stalemate,
}

/// The mathematical view of a game: what stands on each of the 64 squares
/// (indexed by `Position::index`), whose turn it is, where each king stands
/// (white first), and the castling-rights flags.
pub struct Board {
    pub squares: Seq<Option<Piece>>,
    pub white_to_move: bool,
    pub kings: (Position, Position),
    pub has_king_moved: (bool, bool),
    /// ((white queenside, white kingside), (black queenside, black kingside))
    pub has_rook_moved: ((bool, bool), (bool, bool)),
}

pub open spec fn abs(x: int) -> int {
    if x < 0 {
        -x
    } else {
        x
    }
}

/// The rank on which the pieces of a color start.
pub open spec fn home_rank(white: bool) -> int {
    if white {
        1
    } else {
        8
    }
}

/// The rank on which the pawns of a color start.
pub open spec fn pawn_rank(white: bool) -> int {
    if white {
        2
    } else {
        7
    }
}

pub open spec fn rook_home(white: bool, kingside: bool) -> Position {
    square(if kingside { 8 } else { 1 }, home_rank(white))
}

/// Where the rook lands when its side castles.
pub open spec fn rook_target(white: bool, kingside: bool) -> Position {
    square(if kingside { 6 } else { 4 }, home_rank(white))
}

/// The direction in which the rook travels when its side castles.
pub open spec fn rook_dir(kingside: bool) -> Template {
    if kingside {
        (-1i32, 0i32, true)
    } else {
        (1i32, 0i32, true)
    }
}

/// How many more squares a walk along `mov` can cover from `p` before leaving the board.
pub open spec fn edge_distance(p: Position, mov: Template) -> int {
    if mov.0 > 0 {
        9 - p.col()
    } else if mov.0 < 0 {
        p.col()
    } else if mov.1 > 0 {
        9 - p.row
    } else {
        p.row as int
    }
}

/// How many pieces of the color stand in `s`.
pub open spec fn count_color(s: Seq<Option<Piece>>, white: bool) -> nat
    decreases s.len(),
{
    if s.len() == 0 {
        0
    } else {
        count_color(s.drop_last(), white) + if s.last() is Some && s.last()->0.white == white {
            1nat
        } else {
            0nat
        }
    }
}

/// How many pieces of the color and kind stand in `s`.
pub open spec fn count_kind(s: Seq<Option<Piece>>, white: bool, kind: PieceKind) -> nat
    decreases s.len(),
{
    if s.len() == 0 {
        0
    } else {
        count_kind(s.drop_last(), white, kind) + if s.last() is Some && s.last()->0.white == white
            && s.last()->0.kind == kind {
            1nat
        } else {
            0nat
        }
    }
}

/// The kind of piece that starts on a column of the back rank.
pub open spec fn back_rank_kind(c: int) -> PieceKind {
    if c == 1 || c == 8 {
        PieceKind::Rook
    } else if c == 2 || c == 7 {
        PieceKind::Knight
    } else if c == 3 || c == 6 {
        PieceKind::Bishop
    } else if c == 4 {
        PieceKind::Queen
    } else {
        PieceKind::King
    }
}

/// What stands on column `c`, rank `r` at the start of a game.
pub open spec fn initial_piece(c: int, r: int) -> Option<Piece> {
    if r == 1 || r == 8 {
        Some(Piece { kind: back_rank_kind(c), white: r == 1, position: square(c, r) })
    } else if r == 2 || r == 7 {
        Some(Piece { kind: PieceKind::Pawn, white: r == 2, position: square(c, r) })
    } else {
        None
    }
}

/// The standard starting position, white to move, no piece moved.
pub open spec fn initial_board() -> Board {
    Board {
        squares: Seq::new(64, |i: int| initial_piece(i / 8 + 1, i % 8 + 1)),
        white_to_move: true,
        kings: (square(5, 1), square(5, 8)),
        has_king_moved: (false, false),
        has_rook_moved: ((false, false), (false, false)),
    }
}

impl Board {
    pub open spec fn at(self, p: Position) -> Option<Piece> {
        if p.on_board() {
            self.squares[p.index()]
        } else {
            None
        }
    }

    pub open spec fn king_of(self, white: bool) -> Position {
        if white {
            self.kings.0
        } else {
            self.kings.1
        }
    }

    pub open spec fn king_moved(self, white: bool) -> bool {
        if white {
            self.has_king_moved.0
        } else {
            self.has_king_moved.1
        }
    }

    pub open spec fn rook_moved(self, white: bool, kingside: bool) -> bool {
        let flags = if white {
            self.has_rook_moved.0
        } else {
            self.has_rook_moved.1
        };
        if kingside {
            flags.1
        } else {
            flags.0
        }
    }

    /// Each piece stands on the square it names, both king squares are on
    /// the board, and every king stands on the square kept for its color.
    pub open spec fn wf(self) -> bool {
        &&& self.squares.len() == 64
        &&& forall|i: int|
            0 <= i < 64 && (#[trigger] self.squares[i]) is Some ==> {
                &&& self.squares[i]->0.position.on_board()
                &&& self.squares[i]->0.position.index() == i
            }
        &&& self.kings.0.on_board()
        &&& self.kings.1.on_board()
        &&& forall|i: int|
            0 <= i < 64 && (#[trigger] self.squares[i]) is Some && self.squares[i]->0.kind
                == PieceKind::King ==> self.squares[i]->0.position == self.king_of(
                self.squares[i]->0.white,
            )
    }

    /// One application of a template from `from` to `to` is allowed: `to` is
    /// on the board and one template away; a pawn's two-square template is
    /// used only from its starting rank over an empty square; a piece never
    /// lands on its own color; a capture ends a move; a pawn captures
    /// diagonally only, and moves diagonally only to capture.
    pub open spec fn step_allowed(
        self,
        mov: Template,
        from: Position,
        to: Position,
        piece: Piece,
        is_last: bool,
    ) -> bool {
        let pawn = piece.kind == PieceKind::Pawn;
        let diagonal = abs(mov.0 as int) == abs(mov.1 as int);
        &&& to.on_board()
        &&& to.col() - from.col() == mov.0
        &&& to.row - from.row == mov.1
        &&& (pawn && abs(mov.1 as int) == 2) ==> {
            &&& from.row == pawn_rank(piece.white)
            &&& self.at(from.shifted(0, if mov.1 > 0 { 1 } else { -1 })) is None
        }
        &&& match self.at(to) {
            Some(q) => q.white != piece.white && is_last && !(pawn && !diagonal),
            None => !(pawn && diagonal),
        }
    }

    /// Repeating the template from `cur` reaches `end`, every square before
    /// it being empty.
    pub open spec fn slide_walk(self, mov: Template, cur: Position, end: Position, piece: Piece) -> bool
        decreases edge_distance(cur, mov),
    {
        if !cur.on_board() || !valid_template(mov) {
            false
        } else {
            let next = cur.shifted(mov.0 as int, mov.1 as int);
            if !self.step_allowed(mov, cur, next, piece, next == end) {
                false
            } else if next == end {
                true
            } else {
                self.slide_walk(mov, next, end, piece)
            }
        }
    }

    /// The king's repeatable template used as a castling probe: neither the
    /// king nor the rook on that side has moved, and `end` lies two squares
    /// over, past an empty square.
    pub open spec fn castle_probe(self, mov: Template, end: Position, king: Piece) -> bool {
        let from = king.position;
        let mid = from.shifted(mov.0 as int, mov.1 as int);
        &&& from.on_board()
        &&& valid_template(mov)
        &&& !self.king_moved(king.white)
        &&& !(mov.0 > 0 && self.rook_moved(king.white, true))
        &&& !(mov.0 < 0 && self.rook_moved(king.white, false))
        &&& self.step_allowed(mov, from, mid, king, false)
        &&& end == mid.shifted(mov.0 as int, mov.1 as int)
        &&& self.step_allowed(mov, mid, end, king, true)
    }

    pub open spec fn can_slide(self, mov: Template, end: Position, piece: Piece) -> bool {
        if piece.kind == PieceKind::King {
            self.castle_probe(mov, end, piece)
        } else {
            self.slide_walk(mov, piece.position, end, piece)
        }
    }

    /// The template takes the piece from its square to `end`.
    pub open spec fn accepts(self, piece: Piece, mov: Template, end: Position) -> bool {
        if mov.2 {
            self.can_slide(mov, end, piece)
        } else {
            self.step_allowed(mov, piece.position, end, piece, true)
        }
    }

    /// Some template of the piece takes it to `end`.
    pub open spec fn reaches(self, piece: Piece, end: Position) -> bool {
        exists|j: int|
            0 <= j < piece.moves().len() && #[trigger] self.accepts(piece, piece.moves()[j], end)
    }

    /// Some piece of the given color reaches `target`.
    pub open spec fn attacked(self, target: Position, by_white: bool) -> bool {
        exists|i: int|
            0 <= i < 64 && (#[trigger] self.squares[i]) is Some && self.squares[i]->0.white
                == by_white && self.reaches(self.squares[i]->0, target)
    }

    pub open spec fn in_check(self, white: bool) -> bool {
        self.attacked(self.king_of(white), !white)
    }

    /// A king move of two or more columns is a castling move.
    pub open spec fn castling(piece: Piece, end: Position) -> bool {
        piece.kind == PieceKind::King && abs(end.col() - piece.position.col()) >= 2
    }

    pub open spec fn kingside(piece: Piece, end: Position) -> bool {
        end.col() > piece.position.col()
    }

    /// A rook of the color stands on its home square on that side and can
    /// slide to the square where castling puts it.
    pub open spec fn rook_ready(self, white: bool, kingside: bool) -> bool {
        &&& self.at(rook_home(white, kingside)) is Some
        &&& self.at(rook_home(white, kingside))->0.kind == PieceKind::Rook
        &&& self.at(rook_home(white, kingside))->0.white == white
        &&& self.can_slide(
            rook_dir(kingside),
            rook_target(white, kingside),
            self.at(rook_home(white, kingside))->0,
        )
    }

    /// Where the rook comes from and goes to, for a castling move.
    pub open spec fn castle_rook(piece: Piece, end: Position) -> Option<(Position, Position)> {
        if Self::castling(piece, end) {
            let ks = Self::kingside(piece, end);
            Some((rook_home(piece.white, ks), rook_target(piece.white, ks)))
        } else {
            None
        }
    }

    /// The move is pseudo-legal: a template reaches `end` and, for castling,
    /// the rook can follow.
    pub open spec fn can_reach(self, piece: Piece, end: Position) -> bool {
        &&& self.reaches(piece, end)
        &&& Self::castling(piece, end) ==> self.rook_ready(piece.white, Self::kingside(piece, end))
    }

    /// The piece is taken off its square and put on `to`, replacing whatever
    /// stood there; a king updates its square and its moved flag, a rook
    /// leaving a corner sets the flag of that corner.
    pub open spec fn relocate(self, piece: Piece, to: Position) -> Board {
        let moved = Piece { kind: piece.kind, white: piece.white, position: to };
        let from = piece.position;
        let king = piece.kind == PieceKind::King;
        let rook = piece.kind == PieceKind::Rook;
        let w = piece.white;
        Board {
            squares: self.squares.update(from.index(), None).update(to.index(), Some(moved)),
            white_to_move: self.white_to_move,
            kings: if king && w {
                (to, self.kings.1)
            } else if king {
                (self.kings.0, to)
            } else {
                self.kings
            },
            has_king_moved: if king && w {
                (true, self.has_king_moved.1)
            } else if king {
                (self.has_king_moved.0, true)
            } else {
                self.has_king_moved
            },
            has_rook_moved: (
                (
                    self.has_rook_moved.0.0 || (rook && w && from == rook_home(true, false)),
                    self.has_rook_moved.0.1 || (rook && w && from == rook_home(true, true)),
                ),
                (
                    self.has_rook_moved.1.0 || (rook && !w && from == rook_home(false, false)),
                    self.has_rook_moved.1.1 || (rook && !w && from == rook_home(false, true)),
                ),
            ),
        }
    }

    /// The position after the piece moves to `end`, with the rook first when castling.
    pub open spec fn after_move(self, piece: Piece, end: Position) -> Board {
        let b = match Self::castle_rook(piece, end) {
            Some(rm) => match self.at(rm.0) {
                Some(r) => self.relocate(r, rm.1),
                None => self,
            },
            None => self,
        };
        b.relocate(piece, end)
    }

    /// A legal move: pseudo-legal and not leaving the mover's own king in check.
    pub open spec fn move_legal(self, piece: Piece, end: Position) -> bool {
        &&& self.can_reach(piece, end)
        &&& !self.after_move(piece, end).in_check(piece.white)
    }

    /// A move request from `from` to `to` is accepted: a piece of the side to
    /// move stands on `from` and the move is legal.
    pub open spec fn accepts_move(self, from: Position, to: Position) -> bool {
        &&& self.at(from) is Some
        &&& self.at(from)->0.white == self.white_to_move
        &&& self.move_legal(self.at(from)->0, to)
    }

    /// The position after an accepted move: the move is made and the turn passes.
    pub open spec fn play(self, from: Position, to: Position) -> Board {
        let b = self.after_move(self.at(from)->0, to);
        Board {
            squares: b.squares,
            white_to_move: !self.white_to_move,
            kings: b.kings,
            has_king_moved: b.has_king_moved,
            has_rook_moved: b.has_rook_moved,
        }
    }

    pub open spec fn status(self, white: bool) -> GameStatus {
        if self.has_legal_move(white) {
            GameStatus::Playable
        } else if self.in_check(white) {
            GameStatus::Checkmate
        } else {
            GameStatus::Stalemate
        }
    }

    /// The color has a single knight or a single bishop.
    pub open spec fn lone_minor(self, white: bool) -> bool {
        count_kind(self.squares, white, PieceKind::Knight) == 1 || count_kind(
            self.squares,
            white,
            PieceKind::Bishop,
        ) == 1
    }

    /// Drawn by insufficient material: a lone piece against a lone piece, two
    /// pieces one of which is a lone knight or bishop against a lone piece, or
    /// two such pairs.
    pub open spec fn insufficient_material(self) -> bool {
        let w = count_color(self.squares, true);
        let b = count_color(self.squares, false);
        ||| w == 1 && b == 1
        ||| w == 2 && b == 1 && self.lone_minor(true)
        ||| w == 1 && b == 2 && self.lone_minor(false)
        ||| w == 2 && b == 2 && self.lone_minor(true) && self.lone_minor(false)
    }

    /// A king of the color stands on the square kept for it.
    pub open spec fn king_present(self, white: bool) -> bool {
        &&& self.at(self.king_of(white)) is Some
        &&& self.at(self.king_of(white))->0.kind == PieceKind::King
        &&& self.at(self.king_of(white))->0.white == white
    }

    /// The board with the piece added on its square; a king's square is kept
    /// for its color.
    pub open spec fn with_piece(self, piece: Piece) -> Board {
        let king = piece.kind == PieceKind::King;
        Board {
            squares: self.squares.update(piece.position.index(), Some(piece)),
            kings: if king && piece.white {
                (piece.position, self.kings.1)
            } else if king {
                (self.kings.0, piece.position)
            } else {
                self.kings
            },
            ..self
        }
    }

    /// A position that play can reach: well-formed, a king of each color on
    /// the board, and the side that has just moved not in check.
    pub open spec fn legal_position(self) -> bool {
        &&& self.wf()
        &&& self.king_present(true)
        &&& self.king_present(false)
        &&& !self.in_check(!self.white_to_move)
    }

    /// Some piece of the color has a legal move.
    pub open spec fn has_legal_move(self, white: bool) -> bool {
        exists|i: int, d: Position|
            0 <= i < 64 && (#[trigger] self.squares[i]) is Some && self.squares[i]->0.white == white
                && #[trigger] self.move_legal(self.squares[i]->0, d)
    }
}

/// A walk ends on the board, on an empty square or on a piece of the other color.
pub proof fn lemma_walk_target(b: Board, mov: Template, cur: Position, end: Position, piece: Piece)
    requires
        b.slide_walk(mov, cur, end, piece),
    ensures
        end.on_board(),
        b.at(end) is None || b.at(end)->0.white != piece.white,
    decreases edge_distance(cur, mov),
{
    let next = cur.shifted(mov.0 as int, mov.1 as int);
    if next != end {
        lemma_walk_target(b, mov, next, end, piece);
    }
}

/// A template ends on the board, on an empty square or on a piece of the other color.
pub proof fn lemma_accepts_target(b: Board, piece: Piece, mov: Template, end: Position)
    requires
        b.accepts(piece, mov, end),
    ensures
        end.on_board(),
        b.at(end) is None || b.at(end)->0.white != piece.white,
{
    if mov.2 && piece.kind != PieceKind::King {
        lemma_walk_target(b, mov, piece.position, end, piece);
    }
}

/// Moving a piece of a well-formed board to a square of the board keeps it well-formed.
pub proof fn lemma_relocate_wf(b: Board, piece: Piece, to: Position)
    requires
        b.wf(),
        b.at(piece.position) == Some(piece),
        to.on_board(),
    ensures
        b.relocate(piece, to).wf(),
{
    let nb = b.relocate(piece, to);
    let from = piece.position;
    assert forall|i: int|
        0 <= i < 64 && (#[trigger] nb.squares[i]) is Some && nb.squares[i]->0.kind
            == PieceKind::King implies nb.squares[i]->0.position == nb.king_of(
        nb.squares[i]->0.white,
    ) by {
        if i != to.index() && i != from.index() {
            let q = b.squares[i]->0;
            assert(q.position == b.king_of(q.white));
            if piece.kind == PieceKind::King && q.white == piece.white {
                assert(b.squares[from.index()] == Some(piece));
                assert(piece.position == b.king_of(piece.white));
                assert(false);
            }
        }
    }
}

/// On a well-formed board a piece stands on the square it names.
pub proof fn lemma_at_position(b: Board, p: Position)
    requires
        b.wf(),
        b.at(p) is Some,
    ensures
        b.at(p)->0.position == p,
{
    let q = b.at(p)->0.position;
    assert(b.squares[p.index()] is Some);
    crate::position::lemma_index_injective(p, q);
}

/// Adding a piece on an empty square, and a king only where its color has
/// none, keeps a board well-formed.
pub proof fn lemma_with_piece_wf(b: Board, piece: Piece)
    requires
        b.wf(),
        piece.position.on_board(),
        b.at(piece.position) is None,
        piece.kind == PieceKind::King ==> !b.king_present(piece.white),
    ensures
        b.with_piece(piece).wf(),
{
    let nb = b.with_piece(piece);
    assert forall|i: int|
        0 <= i < 64 && (#[trigger] nb.squares[i]) is Some && nb.squares[i]->0.kind
            == PieceKind::King implies nb.squares[i]->0.position == nb.king_of(
        nb.squares[i]->0.white,
    ) by {
        if i != piece.position.index() && piece.kind == PieceKind::King {
            let q = b.squares[i]->0;
            if q.white == piece.white {
                assert(q.position == b.king_of(q.white));
                assert(b.at(q.position) == Some(q));
            }
        }
    }
}

/// The starting position is well-formed.
pub proof fn lemma_initial_wf()
    ensures
        initial_board().wf(),
{
    let b = initial_board();
    assert forall|i: int| 0 <= i < 64 && (#[trigger] b.squares[i]) is Some implies {
        &&& b.squares[i]->0.position.on_board()
        &&& b.squares[i]->0.position.index() == i
        &&& b.squares[i]->0.kind == PieceKind::King ==> b.squares[i]->0.position == b.king_of(
            b.squares[i]->0.white,
        )
    } by {
        let c = i / 8 + 1;
        let r = i % 8 + 1;
        assert(i == (c - 1) * 8 + (r - 1));
        if b.squares[i]->0.kind == PieceKind::King {
            assert(back_rank_kind(c) == PieceKind::King);
            assert(c == 5);
        }
    }
}

/// Pieces of each color in the first `n` squares of the starting position:
/// the first two and the last two squares of each column hold white and
/// black pieces.
proof fn lemma_initial_counts_prefix(n: int)
    requires
        0 <= n <= 64,
    ensures
        count_color(initial_board().squares.subrange(0, n), true) == 2 * (n / 8) + if n % 8 < 2 {
            n % 8
        } else {
            2
        },
        count_color(initial_board().squares.subrange(0, n), false) == 2 * (n / 8) + if n % 8 < 6 {
            0
        } else {
            n % 8 - 6
        },
    decreases n,
{
    let sq = initial_board().squares;
    if n > 0 {
        lemma_initial_counts_prefix(n - 1);
        assert(sq.subrange(0, n).drop_last() =~= sq.subrange(0, n - 1));
        vstd::arithmetic::div_mod::lemma_fundamental_div_mod(n - 1, 8);
        vstd::arithmetic::div_mod::lemma_fundamental_div_mod(n, 8);
        if (n - 1) % 8 == 7 {
            vstd::arithmetic::div_mod::lemma_fundamental_div_mod_converse(n, 8, (n - 1) / 8 + 1, 0);
        } else {
            vstd::arithmetic::div_mod::lemma_fundamental_div_mod_converse(
                n,
                8,
                (n - 1) / 8,
                (n - 1) % 8 + 1,
            );
        }
    }
}

/// The starting position holds sixteen pieces of each color.
pub proof fn lemma_initial_counts()
    ensures
        count_color(initial_board().squares, true) == 16,
        count_color(initial_board().squares, false) == 16,
{
    lemma_initial_counts_prefix(64);
    assert(initial_board().squares.subrange(0, 64) =~= initial_board().squares);
}

} // verus!
