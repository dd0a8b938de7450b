use vstd::prelude::*;

use crate::aux_func::{int_to_letter, letter_to_int};
use crate::board::{
    count_color, count_kind, edge_distance, initial_board, initial_piece, Board, GameStatus,
};
use crate::piece::{Piece, PieceKind};
use crate::position::{valid_template, Position, Template};

verus! {

/// A game in progress: the 64 squares in column-major order (`Position::index`),
/// whose turn it is, where each king stands (white first), and the
/// castling-rights flags.
#[derive(Debug, PartialEq, Eq)]
pub struct Game {
    pub pieces: Vec<Option<Piece>>,
    pub white_to_move: bool,
    pub kings: (Position, Position),
    pub has_king_moved: (bool, bool),
    /// ((white queenside, white kingside), (black queenside, black kingside))
    pub has_rook_moved: ((bool, bool), (bool, bool)),
}

impl View for Game {
    type V = Board;

    open spec fn view(&self) -> Board {
        Board {
            squares: self.pieces@,
            white_to_move: self.white_to_move,
            kings: self.kings,
            has_king_moved: self.has_king_moved,
            has_rook_moved: self.has_rook_moved,
        }
    }
}

fn square_index(p: &Position) -> (r: usize)
    requires
        p.on_board(),
    ensures
        r == p.index(),
        r < 64,
{
    ((letter_to_int(p.column) - 1) * 8 + (p.row - 1)) as usize
}

impl Game {
    /// What stands on a square; nothing for a square off the board.
    pub fn piece_at(&self, p: &Position) -> (r: Option<Piece>)
        requires
            self@.wf(),
        ensures
            r == self@.at(*p),
    {
        if p.is_within_bounds() {
            self.pieces[square_index(p)]
        } else {
            None
        }
    }

    /// A board with no pieces, the given side to move, and every castling
    /// flag set. Pieces are added with `place`.
    pub fn empty(white_to_move: bool) -> (r: Game)
        ensures
            r@.wf(),
            r@.squares == Seq::new(64, |i: int| None::<Piece>),
            r.white_to_move == white_to_move,
            r.kings == (Position { column: 'E', row: 1 }, Position { column: 'E', row: 8 }),
            r.has_king_moved == (true, true),
            r.has_rook_moved == ((true, true), (true, true)),
    {
        let mut pieces: Vec<Option<Piece>> = Vec::new();
        let mut i: usize = 0;
        while i < 64
            invariant
                i <= 64,
                pieces@ == Seq::new(i as nat, |k: int| None::<Piece>),
            decreases 64 - i,
        {
            pieces.push(None);
            i = i + 1;
            assert(pieces@ =~= Seq::new(i as nat, |k: int| None::<Piece>));
        }
        Game {
            pieces,
            white_to_move,
            kings: (Position { column: 'E', row: 1 }, Position { column: 'E', row: 8 }),
            has_king_moved: (true, true),
            has_rook_moved: ((true, true), (true, true)),
        }
    }

    /// Puts a piece on its square if that square is on the board and empty
    /// and, for a king, no king of its color is on the board yet.
    pub fn place(&mut self, piece: Piece) -> (r: bool)
        requires
            old(self)@.wf(),
        ensures
            r == (piece.position.on_board() && old(self)@.at(piece.position) is None && (piece.kind
                == PieceKind::King ==> !old(self)@.king_present(piece.white))),
            r ==> final(self)@ == old(self)@.with_piece(piece),
            !r ==> *final(self) == *old(self),
            final(self)@.wf(),
    {
        if !piece.position.is_within_bounds() || self.piece_at(&piece.position).is_some() {
            return false;
        }
        if piece.kind == PieceKind::King {
            let home = if piece.white {
                self.kings.0
            } else {
                self.kings.1
            };
            match self.piece_at(&home) {
                Some(k) => {
                    if k.kind == PieceKind::King && k.white == piece.white {
                        return false;
                    }
                },
                None => {},
            }
            if piece.white {
                self.kings = (piece.position, self.kings.1);
            } else {
                self.kings = (self.kings.0, piece.position);
            }
        }
        proof {
            crate::board::lemma_with_piece_wf(self@, piece);
        }
        let index = square_index(&piece.position);
        self.pieces.set(index, Some(piece));
        true
    }

    /// Takes away what stands on a square, and returns it.
    pub fn remove(&mut self, pos: Position) -> (r: Option<Piece>)
        requires
            old(self)@.wf(),
        ensures
            r == old(self)@.at(pos),
            final(self)@ == (Board {
                squares: if pos.on_board() {
                    old(self)@.squares.update(pos.index(), None)
                } else {
                    old(self)@.squares
                },
                ..old(self)@
            }),
            final(self)@.wf(),
    {
        let r = self.piece_at(&pos);
        if pos.is_within_bounds() {
            let index = square_index(&pos);
            self.pieces.set(index, None);
        }
        r
    }

    /// Whether one application of `mov` takes `piece` from `current_pos` to
    /// `end_pos`; `is_last` says whether the move would end there.
    pub fn can_make_single_move(
        &self,
        mov: &Template,
        current_pos: &Position,
        end_pos: &Position,
        piece: &Piece,
        is_last: bool,
    ) -> (r: bool)
        requires
            self@.wf(),
            current_pos.on_board(),
            valid_template(*mov),
        ensures
            r == self@.step_allowed(*mov, *current_pos, *end_pos, *piece, is_last),
    {
        if !end_pos.is_within_bounds() {
            return false;
        }
        let end_column: i32 = letter_to_int(end_pos.column);
        let start_column: i32 = letter_to_int(current_pos.column);
        if end_column - start_column != mov.0 || end_pos.row - current_pos.row != mov.1 {
            return false;
        }
        let is_pawn = piece.kind == PieceKind::Pawn;
        if is_pawn && (mov.1 == 2 || mov.1 == -2) {
            let start_row: i32 = if piece.white {
                2
            } else {
                7
            };
            if current_pos.row != start_row {
                return false;
            }
            let forward: i32 = if mov.1 > 0 {
                1
            } else {
                -1
            };
            let between = current_pos.next_move(&(0, forward, false));
            if self.piece_at(&between).is_some() {
                return false;
            }
        }
        let dx: i32 = if mov.0 < 0 {
            -mov.0
        } else {
            mov.0
        };
        let dy: i32 = if mov.1 < 0 {
            -mov.1
        } else {
            mov.1
        };
        let diagonal = dx == dy;
        match self.piece_at(end_pos) {
            Some(q) => q.white != piece.white && is_last && !(is_pawn && !diagonal),
            None => !(is_pawn && diagonal),
        }
    }

    /// Whether repeating `mov` takes `piece` to `end_pos` over empty squares.
    /// For a king this is the castling probe: neither the king nor the rook on
    /// that side has moved, and `end_pos` lies two squares over.
    pub fn can_make_multiple_move(&self, mov: &Template, end_pos: &Position, piece: &Piece) -> (r:
        bool)
        requires
            self@.wf(),
            piece.position.on_board(),
            valid_template(*mov),
        ensures
            r == self@.can_slide(*mov, *end_pos, *piece),
    {
        let start = piece.position;
        if piece.kind == PieceKind::King {
            let moved = if piece.white {
                self.has_king_moved.0
            } else {
                self.has_king_moved.1
            };
            let rooks = if piece.white {
                self.has_rook_moved.0
            } else {
                self.has_rook_moved.1
            };
            if moved || (mov.0 > 0 && rooks.1) || (mov.0 < 0 && rooks.0) {
                return false;
            }
            let mid = start.next_move(mov);
            if !self.can_make_single_move(mov, &start, &mid, piece, false) {
                return false;
            }
            let dest = mid.next_move(mov);
            if !dest.equals(end_pos) {
                return false;
            }
            return self.can_make_single_move(mov, &mid, &dest, piece, true);
        }
        let mut cur: Position = start;
        loop
            invariant
                self@.wf(),
                cur.on_board(),
                valid_template(*mov),
                piece.kind != PieceKind::King,
                self@.slide_walk(*mov, start, *end_pos, *piece) == self@.slide_walk(
                    *mov,
                    cur,
                    *end_pos,
                    *piece,
                ),
                start == piece.position,
            decreases edge_distance(cur, *mov),
        {
            let next = cur.next_move(mov);
            let is_last = next.equals(end_pos);
            if !self.can_make_single_move(mov, &cur, &next, piece, is_last) {
                return false;
            }
            if is_last {
                return true;
            }
            cur = next;
        }
    }

    /// Whether the template takes the piece from its square to `end`.
    fn template_accepts(&self, piece: &Piece, mov: &Template, end: &Position) -> (r: bool)
        requires
            self@.wf(),
            piece.position.on_board(),
            valid_template(*mov),
        ensures
            r == self@.accepts(*piece, *mov, *end),
    {
        if mov.2 {
            self.can_make_multiple_move(mov, end, piece)
        } else {
            self.can_make_single_move(mov, &piece.position, end, piece, true)
        }
    }

    /// Whether some template of the piece takes it to `end`.
    fn piece_reaches(&self, piece: &Piece, end: &Position) -> (r: bool)
        requires
            self@.wf(),
            piece.position.on_board(),
        ensures
            r == self@.reaches(*piece, *end),
    {
        let moves = piece.ways_to_move();
        proof {
            crate::piece::lemma_templates_valid(piece.kind, piece.white);
        }
        let mut j: usize = 0;
        while j < moves.len()
            invariant
                self@.wf(),
                piece.position.on_board(),
                moves@ == piece.moves(),
                j <= moves.len(),
                forall|k: int| 0 <= k < moves.len() ==> #[trigger] valid_template(moves@[k]),
                forall|k: int| 0 <= k < j ==> !#[trigger] self@.accepts(*piece, moves@[k], *end),
            decreases moves.len() - j,
        {
            if self.template_accepts(piece, &moves[j], end) {
                return true;
            }
            j = j + 1;
        }
        false
    }

    /// Whether the king of the given color is attacked: some piece of the
    /// other color has a template that reaches the king's square.
    pub fn is_in_check(&self, king_color: bool) -> (r: bool)
        requires
            self@.wf(),
        ensures
            r == self@.in_check(king_color),
    {
        let king: Position = if king_color {
            self.kings.0
        } else {
            self.kings.1
        };
        let mut i: usize = 0;
        while i < 64
            invariant
                self@.wf(),
                king == self@.king_of(king_color),
                i <= 64,
                forall|k: int|
                    0 <= k < i ==> !((#[trigger] self@.squares[k]) is Some
                        && self@.squares[k]->0.white == !king_color && self@.reaches(
                        self@.squares[k]->0,
                        king,
                    )),
            decreases 64 - i,
        {
            match self.pieces[i] {
                Some(q) => {
                    if q.white != king_color && self.piece_reaches(&q, &king) {
                        return true;
                    }
                },
                None => {},
            }
            i = i + 1;
        }
        false
    }

    /// Where the rook of the piece's color comes from and goes to when it
    /// castles on the side of `mov` (kingside for a positive column delta),
    /// and whether it can: a rook of that color stands on its home square and
    /// can slide to its castling square.
    pub fn check_can_castle(&self, piece: &Piece, mov: &Template) -> (r: (bool, Position, Position))
        requires
            self@.wf(),
        ensures
            r.0 == self@.rook_ready(piece.white, mov.0 > 0),
            r.1 == crate::board::rook_home(piece.white, mov.0 > 0),
            r.2 == crate::board::rook_target(piece.white, mov.0 > 0),
    {
        let kingside = mov.0 > 0;
        let rank: i32 = if piece.white {
            1
        } else {
            8
        };
        let from = Position {
            column: if kingside {
                'H'
            } else {
                'A'
            },
            row: rank,
        };
        let to = Position {
            column: if kingside {
                'F'
            } else {
                'D'
            },
            row: rank,
        };
        let dir: Template = if kingside {
            (-1, 0, true)
        } else {
            (1, 0, true)
        };
        let ok = match self.piece_at(&from) {
            Some(rook) => rook.kind == PieceKind::Rook && rook.white == piece.white
                && self.can_make_multiple_move(&dir, &to, &rook),
            None => false,
        };
        (ok, from, to)
    }

    /// A copy of the game that can be changed without touching this one.
    pub fn duplicate(&self) -> (r: Game)
        ensures
            r@ == self@,
    {
        let mut pieces: Vec<Option<Piece>> = Vec::new();
        let mut i: usize = 0;
        while i < self.pieces.len()
            invariant
                i <= self.pieces.len(),
                pieces@ == self.pieces@.subrange(0, i as int),
            decreases self.pieces.len() - i,
        {
            pieces.push(self.pieces[i]);
            i = i + 1;
            assert(pieces@ =~= self.pieces@.subrange(0, i as int));
        }
        assert(pieces@ =~= self.pieces@);
        Game {
            pieces,
            white_to_move: self.white_to_move,
            kings: self.kings,
            has_king_moved: self.has_king_moved,
            has_rook_moved: self.has_rook_moved,
        }
    }

    /// Moves a piece of the board to `pos`, replacing whatever stood there.
    /// Moving a king records its new square and that it has moved; moving a
    /// rook off its home corner records that that rook has moved.
    pub fn update_piece(&mut self, piece: &Piece, pos: Position)
        requires
            old(self)@.wf(),
            old(self)@.at(piece.position) == Some(*piece),
            pos.on_board(),
        ensures
            final(self)@ == old(self)@.relocate(*piece, pos),
            final(self)@.wf(),
    {
        proof {
            crate::board::lemma_relocate_wf(self@, *piece, pos);
        }
        let init_pos: Position = piece.position;
        if piece.kind == PieceKind::King {
            if piece.white {
                self.kings = (pos, self.kings.1);
                self.has_king_moved = (true, self.has_king_moved.1);
            } else {
                self.kings = (self.kings.0, pos);
                self.has_king_moved = (self.has_king_moved.0, true);
            }
        }
        if piece.kind == PieceKind::Rook {
            let a1 = init_pos.equals(&Position { column: 'A', row: 1 });
            let h1 = init_pos.equals(&Position { column: 'H', row: 1 });
            let a8 = init_pos.equals(&Position { column: 'A', row: 8 });
            let h8 = init_pos.equals(&Position { column: 'H', row: 8 });
            let w = piece.white;
            let flags = self.has_rook_moved;
            self.has_rook_moved = (
                (flags.0.0 || (w && a1), flags.0.1 || (w && h1)),
                (flags.1.0 || (!w && a8), flags.1.1 || (!w && h8)),
            );
        }
        let from_index = square_index(&init_pos);
        let to_index = square_index(&pos);
        self.pieces.set(from_index, None);
        self.pieces.set(to_index, Some(Piece { kind: piece.kind, white: piece.white, position: pos }));
    }

    /// Whether the piece may move to `end_pos`: some template reaches it, a
    /// castling rook can follow, and the mover's king is not in check on the
    /// position that results, which is worked out on a copy. For an accepted
    /// castling move, also where the rook comes from and goes to.
    pub fn is_move_legal(&self, piece: &Piece, end_pos: Position) -> (r: (
        bool,
        Option<(Position, Position)>,
    ))
        requires
            self@.wf(),
            self@.at(piece.position) == Some(*piece),
        ensures
            r.0 == self@.move_legal(*piece, end_pos),
            r.1 == (if r.0 {
                Board::castle_rook(*piece, end_pos)
            } else {
                None
            }),
    {
        if !self.piece_reaches(piece, &end_pos) {
            return (false, None);
        }
        let dx: i32 = letter_to_int(end_pos.column) - letter_to_int(piece.position.column);
        let mut castle: Option<(Position, Position)> = None;
        if piece.kind == PieceKind::King && (dx >= 2 || dx <= -2) {
            let side: Template = (
                if dx > 0 {
                    1
                } else {
                    -1
                },
                0,
                true,
            );
            let (ok, rook_from, rook_to) = self.check_can_castle(piece, &side);
            if !ok {
                return (false, None);
            }
            castle = Some((rook_from, rook_to));
        }
        let mut probe = self.duplicate();
        probe.apply_move(piece, end_pos, castle);
        if probe.is_in_check(piece.white) {
            (false, None)
        } else {
            (true, castle)
        }
    }

    /// Carries out a pseudo-legal move: the castling rook first, if any, then the piece.
    fn apply_move(&mut self, piece: &Piece, end_pos: Position, castle: Option<(Position, Position)>)
        requires
            old(self)@.wf(),
            old(self)@.at(piece.position) == Some(*piece),
            old(self)@.can_reach(*piece, end_pos),
            castle == Board::castle_rook(*piece, end_pos),
        ensures
            final(self)@ == old(self)@.after_move(*piece, end_pos),
            final(self)@.wf(),
    {
        proof {
            let j = choose|j: int|
                0 <= j < piece.moves().len() && #[trigger] self@.accepts(
                    *piece,
                    piece.moves()[j],
                    end_pos,
                );
            crate::board::lemma_accepts_target(self@, *piece, piece.moves()[j], end_pos);
        }
        match castle {
            Some((rook_from, rook_to)) => {
                match self.piece_at(&rook_from) {
                    Some(rook) => {
                        proof {
                            let ks = Board::kingside(*piece, end_pos);
                            crate::board::lemma_at_position(self@, rook_from);
                            crate::board::lemma_walk_target(
                                self@,
                                crate::board::rook_dir(ks),
                                rook.position,
                                rook_to,
                                rook,
                            );
                            if rook_to.index() == piece.position.index() {
                                crate::position::lemma_index_injective(rook_to, piece.position);
                            }
                            if rook_from.index() == piece.position.index() {
                                crate::position::lemma_index_injective(rook_from, piece.position);
                            }
                        }
                        self.update_piece(&rook, rook_to);
                    },
                    None => {},
                }
            },
            None => {},
        }
        self.update_piece(piece, end_pos);
    }

    /// Plays the move from `start` to `end` if a piece of the side to move
    /// stands on `start` and the move is legal, castling included; the turn
    /// then passes. A refused move leaves the game as it was.
    pub fn make_move(&mut self, start: Position, end: Position) -> (r: bool)
        requires
            old(self)@.wf(),
        ensures
            r == old(self)@.accepts_move(start, end),
            r ==> final(self)@ == old(self)@.play(start, end),
            !r ==> *final(self) == *old(self),
            final(self)@.wf(),
            old(self)@.legal_position() ==> final(self)@.legal_position(),
    {
        proof {
            if old(self)@.legal_position() && old(self)@.accepts_move(start, end) {
                crate::laws::lemma_play_keeps_legal(old(self)@, start, end);
            }
        }
        let piece = match self.piece_at(&start) {
            Some(p) => p,
            None => {
                return false;
            },
        };
        proof {
            crate::board::lemma_at_position(self@, start);
        }
        if piece.white != self.white_to_move {
            return false;
        }
        let (ok, castle) = self.is_move_legal(&piece, end);
        if !ok {
            return false;
        }
        self.apply_move(&piece, end, castle);
        self.white_to_move = !self.white_to_move;
        true
    }

    /// Whether a castling move to `end` has a rook that can follow; true of
    /// every other move.
    fn rook_can_follow(&self, piece: &Piece, end: &Position) -> (r: bool)
        requires
            self@.wf(),
        ensures
            r == (Board::castling(*piece, *end) ==> self@.rook_ready(
                piece.white,
                Board::kingside(*piece, *end),
            )),
    {
        let dx: i32 = letter_to_int(end.column) - letter_to_int(piece.position.column);
        if piece.kind == PieceKind::King && (dx >= 2 || dx <= -2) {
            let side: Template = (
                if dx > 0 {
                    1
                } else {
                    -1
                },
                0,
                true,
            );
            self.check_can_castle(piece, &side).0
        } else {
            true
        }
    }

    /// Appends each square that repeating `mov` takes the piece to: the walk
    /// goes on over empty squares and stops after a capture.
    fn push_slide_targets(&self, piece: &Piece, mov: &Template, out: &mut Vec<Position>)
        requires
            self@.wf(),
            piece.position.on_board(),
            piece.kind != PieceKind::King,
            valid_template(*mov),
        ensures
            forall|d: Position|
                #[trigger] final(out)@.contains(d) <==> (old(out)@.contains(d) || self@.slide_walk(
                    *mov,
                    piece.position,
                    d,
                    *piece,
                )),
    {
        let mut cur: Position = piece.position;
        loop
            invariant
                self@.wf(),
                cur.on_board(),
                valid_template(*mov),
                forall|d: Position|
                    (old(out)@.contains(d) || self@.slide_walk(*mov, piece.position, d, *piece))
                        <==> (#[trigger] out@.contains(d) || self@.slide_walk(
                        *mov,
                        cur,
                        d,
                        *piece,
                    )),
            decreases edge_distance(cur, *mov),
        {
            let next = cur.next_move(mov);
            if !self.can_make_single_move(mov, &cur, &next, piece, true) {
                assert forall|d: Position| !self@.slide_walk(*mov, cur, d, *piece) by {}
                return ;
            }
            let ghost before = out@;
            out.push(next);
            proof {
                assert forall|d: Position| #[trigger] out@.contains(d) <==> (before.contains(d) || d
                    == next) by {
                    if d == next {
                        assert(out@[out@.len() - 1] == d);
                    }
                    if before.contains(d) {
                        let k = choose|k: int| 0 <= k < before.len() && before[k] == d;
                        assert(out@[k] == d);
                    }
                    if out@.contains(d) && d != next {
                        let k = choose|k: int| 0 <= k < out@.len() && out@[k] == d;
                        assert(before[k] == d);
                    }
                }
            }
            if self.piece_at(&next).is_some() {
                assert forall|d: Position| self@.slide_walk(*mov, cur, d, *piece) <==> d == next by {}
                return ;
            }
            assert forall|d: Position| self@.slide_walk(*mov, cur, d, *piece) <==> (d == next
                || self@.slide_walk(*mov, next, d, *piece)) by {}
            cur = next;
        }
    }

    /// The squares the piece can move to, before the check on its own king:
    /// every square that one of its templates reaches, a castling square only
    /// where the rook can follow.
    pub fn playable_pos(&self, piece: &Piece) -> (r: Vec<Position>)
        requires
            self@.wf(),
            self@.at(piece.position) == Some(*piece),
        ensures
            forall|d: Position| #[trigger] r@.contains(d) <==> self@.can_reach(*piece, d),
    {
        let mut pos: Vec<Position> = Vec::new();
        let start = piece.position;
        let moves = piece.ways_to_move();
        proof {
            crate::piece::lemma_templates_valid(piece.kind, piece.white);
        }
        let mut j: usize = 0;
        while j < moves.len()
            invariant
                self@.wf(),
                start == piece.position,
                start.on_board(),
                moves@ == piece.moves(),
                j <= moves.len(),
                forall|k: int| 0 <= k < moves.len() ==> #[trigger] valid_template(moves@[k]),
                forall|d: Position|
                    #[trigger] pos@.contains(d) <==> ((exists|k: int|
                        0 <= k < j && #[trigger] self@.accepts(*piece, moves@[k], d)) && (
                    Board::castling(*piece, d) ==> self@.rook_ready(
                        piece.white,
                        Board::kingside(*piece, d),
                    ))),
            decreases moves.len() - j,
        {
            let mov = moves[j];
            let ghost before = pos@;
            if mov.2 && piece.kind != PieceKind::King {
                self.push_slide_targets(piece, &mov, &mut pos);
                assert forall|d: Position| #[trigger] pos@.contains(d) <==> (before.contains(d) || (
                self@.accepts(*piece, moves@[j as int], d) && (Board::castling(*piece, d)
                    ==> self@.rook_ready(piece.white, Board::kingside(*piece, d))))) by {}
            } else {
                let next = if mov.2 {
                    start.next_move(&mov).next_move(&mov)
                } else {
                    start.next_move(&mov)
                };
                if self.template_accepts(piece, &mov, &next) && self.rook_can_follow(piece, &next) {
                    pos.push(next);
                }
                proof {
                    assert forall|d: Position| #[trigger] pos@.contains(d) <==> (before.contains(d) || (
                    self@.accepts(*piece, moves@[j as int], d) && (Board::castling(*piece, d)
                        ==> self@.rook_ready(piece.white, Board::kingside(*piece, d))))) by {
                        if pos@.contains(d) && !before.contains(d) {
                            let k = choose|k: int| 0 <= k < pos@.len() && pos@[k] == d;
                            assert(k == before.len());
                        }
                        if before.contains(d) {
                            let k = choose|k: int| 0 <= k < before.len() && before[k] == d;
                            assert(pos@[k] == d);
                        }
                        if self@.accepts(*piece, moves@[j as int], d) && (Board::castling(*piece, d)
                            ==> self@.rook_ready(piece.white, Board::kingside(*piece, d))) {
                            assert(d == next);
                            assert(pos@[pos@.len() - 1] == d);
                        }
                    }
                }
            }
            proof {
                assert forall|d: Position| #[trigger] pos@.contains(d) <==> ((exists|k: int|
                    0 <= k < j + 1 && #[trigger] self@.accepts(*piece, moves@[k], d)) && (
                Board::castling(*piece, d) ==> self@.rook_ready(
                    piece.white,
                    Board::kingside(*piece, d),
                ))) by {
                    if exists|k: int| 0 <= k < j + 1 && #[trigger] self@.accepts(*piece, moves@[k], d) {
                        let k = choose|k: int| 0 <= k < j + 1 && #[trigger] self@.accepts(*piece, moves@[k], d);
                        if k < j {
                            assert(exists|k: int| 0 <= k < j && #[trigger] self@.accepts(*piece, moves@[k], d));
                        }
                    }
                }
            }
            j = j + 1;
        }
        pos
    }

    /// How the game stands for the side to move.
    pub fn is_mate(&self) -> (r: GameStatus)
        requires
            self@.wf(),
        ensures
            r == self@.status(self.white_to_move),
    {
        self.classify(self.white_to_move)
    }

    /// How the game stands for a color: `Playable` if some piece of that
    /// color has a legal move, else `Checkmate` if its king is in check, else
    /// `Stalemate`.
    pub fn classify(&self, side: bool) -> (r: GameStatus)
        requires
            self@.wf(),
        ensures
            r == self@.status(side),
    {
        let mut i: usize = 0;
        while i < 64
            invariant
                self@.wf(),
                i <= 64,
                forall|k: int, d: Position|
                    0 <= k < i && (#[trigger] self@.squares[k]) is Some && self@.squares[k]->0.white
                        == side ==> !#[trigger] self@.move_legal(self@.squares[k]->0, d),
            decreases 64 - i,
        {
            match self.pieces[i] {
                Some(q) => {
                    if q.white == side {
                        proof {
                            assert(self@.squares[i as int] == Some(q));
                            assert(self@.at(q.position) == Some(q));
                        }
                        let targets = self.playable_pos(&q);
                        let mut k: usize = 0;
                        while k < targets.len()
                            invariant
                                self@.wf(),
                                self@.at(q.position) == Some(q),
                                i < 64,
                                self@.squares[i as int] == Some(q),
                                q.white == side,
                                k <= targets.len(),
                                forall|m: int|
                                    0 <= m < k ==> !#[trigger] self@.move_legal(q, targets@[m]),
                            decreases targets.len() - k,
                        {
                            if self.is_move_legal(&q, targets[k]).0 {
                                proof {
                                    assert(self@.squares[i as int] == Some(q));
                                    assert(self@.move_legal(self@.squares[i as int]->0, targets@[k as int]));
                                }
                                return GameStatus::Playable;
                            }
                            k = k + 1;
                        }
                        proof {
                            assert forall|d: Position| !#[trigger] self@.move_legal(q, d) by {
                                if self@.move_legal(q, d) {
                                    assert(targets@.contains(d));
                                    let m = choose|m: int| 0 <= m < targets@.len() && targets@[m] == d;
                                    assert(!self@.move_legal(q, targets@[m]));
                                }
                            }
                        }
                    }
                },
                None => {},
            }
            i = i + 1;
        }
        if self.is_in_check(side) {
            GameStatus::Checkmate
        } else {
            GameStatus::Stalemate
        }
    }

    /// Whether the position is drawn by insufficient material: king against
    /// king, a king and a single minor piece against a king, or a king and a
    /// single minor piece on each side.
    pub fn is_draw(&self) -> (r: bool)
        requires
            self@.wf(),
        ensures
            r == self@.insufficient_material(),
    {
        let ghost sq = self@.squares;
        let mut white_total: u32 = 0;
        let mut white_knights: u32 = 0;
        let mut white_bishops: u32 = 0;
        let mut black_total: u32 = 0;
        let mut black_knights: u32 = 0;
        let mut black_bishops: u32 = 0;
        let mut i: usize = 0;
        while i < 64
            invariant
                self@.wf(),
                sq == self@.squares,
                i <= 64,
                white_total == count_color(sq.subrange(0, i as int), true),
                black_total == count_color(sq.subrange(0, i as int), false),
                white_knights == count_kind(sq.subrange(0, i as int), true, PieceKind::Knight),
                white_bishops == count_kind(sq.subrange(0, i as int), true, PieceKind::Bishop),
                black_knights == count_kind(sq.subrange(0, i as int), false, PieceKind::Knight),
                black_bishops == count_kind(sq.subrange(0, i as int), false, PieceKind::Bishop),
                white_total <= i,
                black_total <= i,
                white_knights <= i,
                white_bishops <= i,
                black_knights <= i,
                black_bishops <= i,
            decreases 64 - i,
        {
            proof {
                assert(sq.subrange(0, i as int + 1).drop_last() =~= sq.subrange(0, i as int));
            }
            match self.pieces[i] {
                Some(q) => {
                    if q.white {
                        white_total = white_total + 1;
                        if q.kind == PieceKind::Knight {
                            white_knights = white_knights + 1;
                        }
                        if q.kind == PieceKind::Bishop {
                            white_bishops = white_bishops + 1;
                        }
                    } else {
                        black_total = black_total + 1;
                        if q.kind == PieceKind::Knight {
                            black_knights = black_knights + 1;
                        }
                        if q.kind == PieceKind::Bishop {
                            black_bishops = black_bishops + 1;
                        }
                    }
                },
                None => {},
            }
            i = i + 1;
        }
        proof {
            assert(sq.subrange(0, 64) =~= sq);
        }
        let white_minor = white_knights == 1 || white_bishops == 1;
        let black_minor = black_knights == 1 || black_bishops == 1;
        (white_total == 1 && black_total == 1) || (white_total == 2 && black_total == 1
            && white_minor) || (white_total == 1 && black_total == 2 && black_minor) || (
        white_total == 2 && black_total == 2 && white_minor && black_minor)
    }
}

/// What stands on column `col`, rank `row` at the start of a game.
fn start_piece(col: i32, row: i32) -> (r: Option<Piece>)
    requires
        1 <= col <= 8,
        1 <= row <= 8,
    ensures
        r == initial_piece(col as int, row as int),
{
    let position = Position { column: int_to_letter(col), row };
    if row == 1 || row == 8 {
        let kind = if col == 1 || col == 8 {
            PieceKind::Rook
        } else if col == 2 || col == 7 {
            PieceKind::Knight
        } else if col == 3 || col == 6 {
            PieceKind::Bishop
        } else if col == 4 {
            PieceKind::Queen
        } else {
            PieceKind::King
        };
        Some(Piece { kind, white: row == 1, position })
    } else if row == 2 || row == 7 {
        Some(Piece { kind: PieceKind::Pawn, white: row == 2, position })
    } else {
        None
    }
}

/// The standard starting position: sixteen pieces a side, white to move,
/// no king or rook moved.
pub fn init_pieces() -> (r: Game)
    ensures
        r@ == initial_board(),
        r@.legal_position(),
        count_color(r@.squares, true) == 16,
        count_color(r@.squares, false) == 16,
{
    let mut pieces: Vec<Option<Piece>> = Vec::new();
    let mut i: usize = 0;
    while i < 64
        invariant
            i <= 64,
            pieces@.len() == i,
            forall|k: int| 0 <= k < i ==> #[trigger] pieces@[k] == initial_piece(k / 8 + 1, k % 8 + 1),
        decreases 64 - i,
    {
        let col = (i / 8 + 1) as i32;
        let row = (i % 8 + 1) as i32;
        pieces.push(start_piece(col, row));
        i = i + 1;
    }
    let game = Game {
        pieces,
        white_to_move: true,
        kings: (Position { column: 'E', row: 1 }, Position { column: 'E', row: 8 }),
        has_king_moved: (false, false),
        has_rook_moved: ((false, false), (false, false)),
    };
    assert(game@.squares =~= initial_board().squares);
    proof {
        crate::laws::lemma_initial_legal();
        crate::board::lemma_initial_counts();
    }
    game
}

} // verus!
