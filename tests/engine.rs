use chess::{
    evaluate, init_pieces, int_to_letter, letter_to_int, Game, GameStatus, Piece, PieceKind,
    Position,
};

fn sq(name: &str) -> Position {
    let c: Vec<char> = name.chars().collect();
    Position::from_chars(c[0], c[1]).unwrap()
}

fn piece(kind: PieceKind, white: bool, at: &str) -> Piece {
    Piece { kind, white, position: sq(at) }
}

fn count(game: &Game, white: bool) -> usize {
    game.pieces.iter().filter(|p| matches!(p, Some(q) if q.white == white)).count()
}

fn all_squares() -> Vec<Position> {
    let mut v = Vec::new();
    for c in 1..=8 {
        for r in 1..=8 {
            v.push(Position { column: int_to_letter(c), row: r });
        }
    }
    v
}

fn play(game: &mut Game, from: &str, to: &str) -> bool {
    game.make_move(sq(from), sq(to))
}

#[test]
fn letters_and_columns() {
    assert_eq!(letter_to_int('A'), 1);
    assert_eq!(letter_to_int('H'), 8);
    assert_eq!(int_to_letter(1), 'A');
    assert_eq!(int_to_letter(8), 'H');
    assert_eq!(int_to_letter(0), '@');
}

#[test]
fn position_arithmetic() {
    let e2 = sq("E2");
    assert!(e2.is_within_bounds());
    assert_eq!(e2.next_move(&(0, 2, false)), sq("E4"));
    assert_eq!(e2.next_move(&(-1, 1, false)), sq("D3"));
    let off = sq("A1").next_move(&(-1, 0, false));
    assert!(!off.is_within_bounds());
    assert!(!Position { column: 'E', row: 9 }.is_within_bounds());
    assert!(e2.equals(&Position { column: 'E', row: 2 }));
    assert!(!e2.equals(&sq("E3")));
}

#[test]
fn square_names() {
    assert_eq!(Position::from_chars('E', '2'), Some(Position { column: 'E', row: 2 }));
    assert_eq!(Position::from_chars('H', '8'), Some(Position { column: 'H', row: 8 }));
    assert_eq!(Position::from_chars('I', '2'), None);
    assert_eq!(Position::from_chars('e', '2'), None);
    assert_eq!(Position::from_chars('E', '9'), None);
    assert_eq!(Position::from_chars('E', '0'), None);
}

#[test]
fn starting_position() {
    let game = init_pieces();
    assert_eq!(count(&game, true), 16);
    assert_eq!(count(&game, false), 16);
    assert!(game.white_to_move);
    assert_eq!(game.pieces.len(), 64);
    let back = [
        PieceKind::Rook,
        PieceKind::Knight,
        PieceKind::Bishop,
        PieceKind::Queen,
        PieceKind::King,
        PieceKind::Bishop,
        PieceKind::Knight,
        PieceKind::Rook,
    ];
    for c in 1..=8 {
        let col = int_to_letter(c);
        let k = back[(c - 1) as usize];
        assert_eq!(game.piece_at(&Position { column: col, row: 1 }), Some(Piece { kind: k, white: true, position: Position { column: col, row: 1 } }));
        assert_eq!(game.piece_at(&Position { column: col, row: 8 }), Some(Piece { kind: k, white: false, position: Position { column: col, row: 8 } }));
        assert_eq!(game.piece_at(&Position { column: col, row: 2 }).map(|p| (p.kind, p.white)), Some((PieceKind::Pawn, true)));
        assert_eq!(game.piece_at(&Position { column: col, row: 7 }).map(|p| (p.kind, p.white)), Some((PieceKind::Pawn, false)));
        for r in 3..=6 {
            assert_eq!(game.piece_at(&Position { column: col, row: r }), None);
        }
    }
    assert_eq!(game.kings, (sq("E1"), sq("E8")));
    assert_eq!(game.has_king_moved, (false, false));
    assert_eq!(game.has_rook_moved, ((false, false), (false, false)));
    assert_eq!(game.is_mate(), GameStatus::Playable);
    assert!(!game.is_in_check(true));
    assert!(!game.is_draw());
}

#[test]
fn templates_of_each_kind() {
    let pawn = piece(PieceKind::Pawn, true, "E2");
    assert_eq!(pawn.ways_to_move(), vec![(0, 1, false), (1, 1, false), (-1, 1, false), (0, 2, false)]);
    let black_pawn = piece(PieceKind::Pawn, false, "E7");
    assert_eq!(black_pawn.ways_to_move(), vec![(0, -1, false), (-1, -1, false), (1, -1, false), (0, -2, false)]);
    assert_eq!(piece(PieceKind::Knight, true, "B1").ways_to_move().len(), 8);
    assert_eq!(piece(PieceKind::Queen, true, "D1").ways_to_move().len(), 8);
    let king = piece(PieceKind::King, true, "E1").ways_to_move();
    assert_eq!(king.len(), 10);
    assert!(king.contains(&(1, 0, true)) && king.contains(&(-1, 0, true)));
    assert!(king.contains(&(1, 0, false)) && king.contains(&(-1, 0, false)));
}

#[test]
fn twenty_opening_moves() {
    let game = init_pieces();
    let mut legal = 0;
    for p in game.pieces.iter().flatten().filter(|p| p.white) {
        for d in game.playable_pos(p) {
            if game.is_move_legal(p, d).0 {
                legal += 1;
            }
        }
    }
    assert_eq!(legal, 20);
    let knight = game.piece_at(&sq("G1")).unwrap();
    let mut targets = game.playable_pos(&knight);
    targets.sort_by_key(|p| (p.column, p.row));
    assert_eq!(targets, vec![sq("F3"), sq("H3")]);
}

#[test]
fn move_accepted_iff_playable_and_safe() {
    let mut game = init_pieces();
    assert!(play(&mut game, "E2", "E4"));
    assert!(play(&mut game, "D7", "D5"));
    assert!(play(&mut game, "F1", "B5"));
    for from in all_squares() {
        for to in all_squares() {
            let mut trial = game.duplicate();
            let accepted = trial.make_move(from, to);
            let expected = match game.piece_at(&from) {
                Some(p) if p.white == game.white_to_move => {
                    game.playable_pos(&p).contains(&to) && game.is_move_legal(&p, to).0
                }
                _ => false,
            };
            assert_eq!(accepted, expected, "{:?} -> {:?}", from, to);
        }
    }
    // The black king is in check from the bishop on B5: a move that does
    // not answer the check is refused, a block on C6 is accepted.
    assert!(game.is_in_check(false));
    let mut trial = game.duplicate();
    assert!(!trial.make_move(sq("A7"), sq("A6")));
    assert!(trial.make_move(sq("C7"), sq("C6")));
}

#[test]
fn refused_move_changes_nothing() {
    let mut game = init_pieces();
    let before = game.duplicate();
    assert!(!play(&mut game, "E2", "E5"));
    assert!(game == before);
    assert!(!play(&mut game, "E7", "E5"));
    assert!(game == before);
    assert!(!play(&mut game, "E4", "E5"));
    assert!(game == before);
    assert!(!play(&mut game, "A1", "A3"));
    assert!(game == before);
    assert!(!play(&mut game, "E1", "G1"));
    assert!(game == before);
    assert!(!game.make_move(Position { column: 'Z', row: -1 }, sq("E4")));
    assert!(game == before);
    assert!(play(&mut game, "E2", "E4"));
    assert!(game != before);
    assert!(!game.white_to_move);
}

#[test]
fn pawn_double_step() {
    let mut game = init_pieces();
    assert!(play(&mut game, "E2", "E4"));
    assert!(play(&mut game, "D7", "D5"));
    // From a rank other than the starting one, never.
    let e4 = game.piece_at(&sq("E4")).unwrap();
    assert!(!game.can_make_single_move(&(0, 2, false), &sq("E4"), &sq("E6"), &e4, true));
    assert!(!play(&mut game, "E4", "E6"));
    // Blocked on the square passed over.
    let mut blocked = init_pieces();
    assert!(blocked.place(piece(PieceKind::Knight, false, "C3")));
    assert!(!play(&mut blocked, "C2", "C4"));
    assert!(play(&mut blocked, "C2", "C3") == false);
    // Blocked on the landing square.
    let mut landing = init_pieces();
    assert!(landing.place(piece(PieceKind::Knight, false, "C4")));
    assert!(!play(&mut landing, "C2", "C4"));
    assert!(play(&mut landing, "C2", "C3"));
    // Black pawns step down the board, two squares from rank 7.
    assert!(play(&mut landing, "C7", "C5"));
    assert_eq!(landing.piece_at(&sq("C5")).map(|p| p.kind), Some(PieceKind::Pawn));
}

#[test]
fn pawn_captures_diagonally_only() {
    let mut game = init_pieces();
    assert!(play(&mut game, "E2", "E4"));
    assert!(play(&mut game, "E7", "E5"));
    assert!(!play(&mut game, "E4", "E5"));
    assert!(!play(&mut game, "E4", "D5"));
    assert!(play(&mut game, "D2", "D4"));
    assert!(play(&mut game, "D7", "D5"));
    assert!(play(&mut game, "E4", "D5"));
    assert_eq!(game.piece_at(&sq("D5")), Some(piece(PieceKind::Pawn, true, "D5")));
    assert_eq!(count(&game, false), 15);
}

#[test]
fn sliding_pieces_stop_at_blockers() {
    let game = init_pieces();
    let rook = game.piece_at(&sq("A1")).unwrap();
    assert!(!game.can_make_multiple_move(&(0, 1, true), &sq("A3"), &rook));
    let mut open = init_pieces();
    open.remove(sq("A2"));
    let rook = open.piece_at(&sq("A1")).unwrap();
    assert!(open.can_make_multiple_move(&(0, 1, true), &sq("A3"), &rook));
    assert!(open.can_make_multiple_move(&(0, 1, true), &sq("A7"), &rook));
    assert!(!open.can_make_multiple_move(&(0, 1, true), &sq("A8"), &rook));
    let mut targets = open.playable_pos(&rook);
    targets.sort_by_key(|p| p.row);
    assert_eq!(targets, vec![sq("A2"), sq("A3"), sq("A4"), sq("A5"), sq("A6"), sq("A7")]);
}

#[test]
fn kingside_castling() {
    let mut game = init_pieces();
    game.remove(sq("F1"));
    game.remove(sq("G1"));
    let king = game.piece_at(&sq("E1")).unwrap();
    assert_eq!(game.check_can_castle(&king, &(1, 0, true)), (true, sq("H1"), sq("F1")));
    assert_eq!(game.is_move_legal(&king, sq("G1")), (true, Some((sq("H1"), sq("F1")))));
    assert!(play(&mut game, "E1", "G1"));
    assert_eq!(game.piece_at(&sq("G1")), Some(piece(PieceKind::King, true, "G1")));
    assert_eq!(game.piece_at(&sq("F1")), Some(piece(PieceKind::Rook, true, "F1")));
    assert_eq!(game.piece_at(&sq("E1")), None);
    assert_eq!(game.piece_at(&sq("H1")), None);
    assert_eq!(game.kings.0, sq("G1"));
    assert_eq!(game.has_king_moved, (true, false));
    assert!(!game.white_to_move);
}

#[test]
fn queenside_and_black_castling() {
    let mut game = init_pieces();
    for s in ["B1", "C1", "D1", "F8", "G8"] {
        game.remove(sq(s));
    }
    assert!(play(&mut game, "E1", "C1"));
    assert_eq!(game.piece_at(&sq("C1")), Some(piece(PieceKind::King, true, "C1")));
    assert_eq!(game.piece_at(&sq("D1")), Some(piece(PieceKind::Rook, true, "D1")));
    assert_eq!(game.piece_at(&sq("A1")), None);
    assert!(play(&mut game, "E8", "G8"));
    assert_eq!(game.piece_at(&sq("G8")), Some(piece(PieceKind::King, false, "G8")));
    assert_eq!(game.piece_at(&sq("F8")), Some(piece(PieceKind::Rook, false, "F8")));
    assert_eq!(game.piece_at(&sq("H8")), None);
    assert_eq!(game.kings, (sq("C1"), sq("G8")));
}

#[test]
fn castling_needs_unmoved_king_and_rook() {
    let mut base = init_pieces();
    base.remove(sq("F1"));
    base.remove(sq("G1"));

    let mut king_moved = base.duplicate();
    king_moved.has_king_moved.0 = true;
    assert!(!play(&mut king_moved, "E1", "G1"));

    let mut rook_moved = base.duplicate();
    rook_moved.has_rook_moved.0 .1 = true;
    assert!(!play(&mut rook_moved, "E1", "G1"));

    // The queenside flag does not matter for kingside castling.
    let mut other_rook = base.duplicate();
    other_rook.has_rook_moved.0 .0 = true;
    assert!(play(&mut other_rook, "E1", "G1"));

    // Moving the king there and back also loses the right.
    let mut walked = base.duplicate();
    assert!(play(&mut walked, "E1", "F1"));
    assert!(play(&mut walked, "A7", "A6"));
    assert!(play(&mut walked, "F1", "E1"));
    assert!(play(&mut walked, "A6", "A5"));
    assert!(!play(&mut walked, "E1", "G1"));

    // So does moving the rook off its corner and back.
    let mut rook_walk = base.duplicate();
    assert!(play(&mut rook_walk, "H1", "G1"));
    assert!(play(&mut rook_walk, "A7", "A6"));
    assert!(play(&mut rook_walk, "G1", "H1"));
    assert!(play(&mut rook_walk, "A6", "A5"));
    assert_eq!(rook_walk.has_rook_moved, ((false, true), (false, false)));
    assert!(!play(&mut rook_walk, "E1", "G1"));
}

#[test]
fn castling_blocked_path_or_check() {
    let mut game = init_pieces();
    game.remove(sq("G1"));
    assert!(!play(&mut game, "E1", "G1"));
    // A black rook on the G file makes the landing square unsafe.
    let mut attacked = init_pieces();
    attacked.remove(sq("F1"));
    attacked.remove(sq("G1"));
    attacked.remove(sq("G2"));
    assert!(attacked.place(piece(PieceKind::Rook, false, "G5")));
    assert!(!play(&mut attacked, "E1", "G1"));
    assert_eq!(attacked.piece_at(&sq("E1")).map(|p| p.kind), Some(PieceKind::King));
}

#[test]
fn back_rank_mate() {
    let mut game = Game::empty(true);
    assert!(game.place(piece(PieceKind::King, true, "H1")));
    assert!(game.place(piece(PieceKind::Pawn, true, "G2")));
    assert!(game.place(piece(PieceKind::Pawn, true, "H2")));
    assert!(game.place(piece(PieceKind::King, false, "A8")));
    assert!(game.place(piece(PieceKind::Queen, false, "A1")));
    assert!(game.is_in_check(true));
    assert_eq!(game.is_mate(), GameStatus::Checkmate);
    assert_eq!(game.remove(sq("A1")), Some(piece(PieceKind::Queen, false, "A1")));
    assert!(!game.is_in_check(true));
    assert_eq!(game.is_mate(), GameStatus::Playable);
}

#[test]
fn fools_mate() {
    let mut game = init_pieces();
    assert!(play(&mut game, "F2", "F3"));
    assert!(play(&mut game, "E7", "E5"));
    assert!(play(&mut game, "G2", "G4"));
    assert!(play(&mut game, "D8", "H4"));
    assert!(game.is_in_check(true));
    assert_eq!(game.is_mate(), GameStatus::Checkmate);
    assert_eq!(game.classify(true), GameStatus::Checkmate);
    assert_eq!(game.classify(false), GameStatus::Playable);
}

#[test]
fn king_only_stalemate() {
    let mut game = Game::empty(false);
    assert!(game.place(piece(PieceKind::King, false, "A8")));
    assert!(game.place(piece(PieceKind::King, true, "C7")));
    assert!(game.place(piece(PieceKind::Queen, true, "B6")));
    assert!(!game.is_in_check(false));
    assert_eq!(game.is_mate(), GameStatus::Stalemate);
    assert_eq!(game.classify(false), GameStatus::Stalemate);
    assert_eq!(game.classify(true), GameStatus::Playable);
    let king = game.piece_at(&sq("A8")).unwrap();
    for d in game.playable_pos(&king) {
        assert!(!game.is_move_legal(&king, d).0);
    }
}

#[test]
fn cannot_move_into_check() {
    let mut game = Game::empty(true);
    assert!(game.place(piece(PieceKind::King, true, "E1")));
    assert!(game.place(piece(PieceKind::Bishop, true, "E2")));
    assert!(game.place(piece(PieceKind::Rook, false, "E8")));
    assert!(game.place(piece(PieceKind::King, false, "A8")));
    // The bishop is pinned.
    assert!(!play(&mut game, "E2", "D3"));
    // The king may not step onto the rook's file.
    assert!(play(&mut game, "E1", "D1"));
    assert!(!game.is_in_check(true));
}

#[test]
fn insufficient_material() {
    let mut kb = Game::empty(true);
    assert!(kb.place(piece(PieceKind::King, true, "E1")));
    assert!(kb.place(piece(PieceKind::Bishop, true, "C1")));
    assert!(kb.place(piece(PieceKind::King, false, "E8")));
    assert!(kb.is_draw());

    let mut kr = Game::empty(true);
    assert!(kr.place(piece(PieceKind::King, true, "E1")));
    assert!(kr.place(piece(PieceKind::Rook, true, "A1")));
    assert!(kr.place(piece(PieceKind::King, false, "E8")));
    assert!(!kr.is_draw());

    let mut kk = Game::empty(true);
    assert!(kk.place(piece(PieceKind::King, true, "E1")));
    assert!(kk.place(piece(PieceKind::King, false, "E8")));
    assert!(kk.is_draw());

    let mut minors = Game::empty(true);
    assert!(minors.place(piece(PieceKind::King, true, "E1")));
    assert!(minors.place(piece(PieceKind::Knight, true, "B1")));
    assert!(minors.place(piece(PieceKind::King, false, "E8")));
    assert!(minors.place(piece(PieceKind::Bishop, false, "C8")));
    assert!(minors.is_draw());

    let mut black_minor = Game::empty(true);
    assert!(black_minor.place(piece(PieceKind::King, true, "E1")));
    assert!(black_minor.place(piece(PieceKind::King, false, "E8")));
    assert!(black_minor.place(piece(PieceKind::Knight, false, "G8")));
    assert!(black_minor.is_draw());

    let mut kp = Game::empty(true);
    assert!(kp.place(piece(PieceKind::King, true, "E1")));
    assert!(kp.place(piece(PieceKind::Pawn, true, "E2")));
    assert!(kp.place(piece(PieceKind::King, false, "E8")));
    assert!(!kp.is_draw());

    assert!(!init_pieces().is_draw());
}

#[test]
fn placing_and_removing() {
    let mut game = Game::empty(true);
    assert!(game.place(piece(PieceKind::King, true, "D4")));
    assert_eq!(game.kings.0, sq("D4"));
    // A second white king, an occupied square, an off-board square: refused.
    assert!(!game.place(piece(PieceKind::King, true, "A1")));
    assert!(!game.place(piece(PieceKind::Rook, false, "D4")));
    assert!(!game.place(Piece { kind: PieceKind::Rook, white: false, position: Position { column: 'I', row: 1 } }));
    assert!(game.place(piece(PieceKind::King, false, "D6")));
    assert_eq!(game.remove(sq("D6")), Some(piece(PieceKind::King, false, "D6")));
    assert_eq!(game.remove(sq("D6")), None);
    assert_eq!(count(&game, true), 1);
    assert_eq!(count(&game, false), 0);
}

#[test]
fn update_piece_records_moves() {
    let mut game = init_pieces();
    let rook = game.piece_at(&sq("A8")).unwrap();
    game.update_piece(&rook, sq("A5"));
    assert_eq!(game.piece_at(&sq("A5")), Some(piece(PieceKind::Rook, false, "A5")));
    assert_eq!(game.piece_at(&sq("A8")), None);
    assert_eq!(game.has_rook_moved, ((false, false), (true, false)));
    let king = game.piece_at(&sq("E8")).unwrap();
    game.update_piece(&king, sq("D6"));
    assert_eq!(game.kings, (sq("E1"), sq("D6")));
    assert_eq!(game.has_king_moved, (false, true));
    // Moving onto an occupied square replaces what stood there.
    let queen = game.piece_at(&sq("D1")).unwrap();
    game.update_piece(&queen, sq("D7"));
    assert_eq!(game.piece_at(&sq("D7")), Some(piece(PieceKind::Queen, true, "D7")));
    assert_eq!(count(&game, false), 15);
}

#[test]
fn castle_rook_check() {
    let game = init_pieces();
    let king = game.piece_at(&sq("E8")).unwrap();
    assert_eq!(game.check_can_castle(&king, &(-1, 0, true)), (false, sq("A8"), sq("D8")));
    let mut open = init_pieces();
    for s in ["B8", "C8", "D8"] {
        open.remove(sq(s));
    }
    assert_eq!(open.check_can_castle(&king, &(-1, 0, true)), (true, sq("A8"), sq("D8")));
    // Without a rook on the corner there is nothing to castle with.
    open.remove(sq("A8"));
    assert_eq!(open.check_can_castle(&king, &(-1, 0, true)), (false, sq("A8"), sq("D8")));
}

#[test]
fn material_score() {
    let game = init_pieces();
    assert_eq!(evaluate(&game), 2078);
    let mut kings = Game::empty(true);
    assert!(kings.place(piece(PieceKind::King, true, "E1")));
    assert!(kings.place(piece(PieceKind::King, false, "E8")));
    assert_eq!(evaluate(&kings), 2000);
    assert!(kings.place(piece(PieceKind::Queen, false, "D8")));
    assert_eq!(evaluate(&kings), 2008);
    assert_eq!(evaluate(&Game::empty(true)), 0);
}
