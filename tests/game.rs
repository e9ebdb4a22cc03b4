use chess::board::{square_from_string, Board};
use chess::error::ParseError;
use chess::piece::{char_to_piece_type, piece_type_to_char, Piece, PieceColor, PieceType};

const START: &str = "rnbqkbnr/pppppppp/8/8/8/8/PPPPPPPP/RNBQKBNR w KQkq - 0 1";

#[test]
fn test_new_from_fen() {
    let board = Board::new_from_fen(String::from("rnbqkbnr/pppppppp/8/8/8/8/PPPPPPPP/RNBQKBNR w KQkq - 0 1")).expect("");
    assert_eq!(Board {
        pieces: vec![Piece { x: 0, y: 0, ptype: PieceType::Rook, color: PieceColor::Black },
                     Piece { x: 1, y: 0, ptype: PieceType::Knight, color: PieceColor::Black },
                     Piece { x: 2, y: 0, ptype: PieceType::Bishop, color: PieceColor::Black },
                     Piece { x: 3, y: 0, ptype: PieceType::Queen, color: PieceColor::Black },
                     Piece { x: 4, y: 0, ptype: PieceType::King, color: PieceColor::Black },
                     Piece { x: 5, y: 0, ptype: PieceType::Bishop, color: PieceColor::Black },
                     Piece { x: 6, y: 0, ptype: PieceType::Knight, color: PieceColor::Black },
                     Piece { x: 7, y: 0, ptype: PieceType::Rook, color: PieceColor::Black },
                     Piece { x: 0, y: 1, ptype: PieceType::Pawn, color: PieceColor::Black },
                     Piece { x: 1, y: 1, ptype: PieceType::Pawn, color: PieceColor::Black },
                     Piece { x: 2, y: 1, ptype: PieceType::Pawn, color: PieceColor::Black },
                     Piece { x: 3, y: 1, ptype: PieceType::Pawn, color: PieceColor::Black },
                     Piece { x: 4, y: 1, ptype: PieceType::Pawn, color: PieceColor::Black },
                     Piece { x: 5, y: 1, ptype: PieceType::Pawn, color: PieceColor::Black },
                     Piece { x: 6, y: 1, ptype: PieceType::Pawn, color: PieceColor::Black },
                     Piece { x: 7, y: 1, ptype: PieceType::Pawn, color: PieceColor::Black },
                     Piece { x: 0, y: 6, ptype: PieceType::Pawn, color: PieceColor::White },
                     Piece { x: 1, y: 6, ptype: PieceType::Pawn, color: PieceColor::White },
                     Piece { x: 2, y: 6, ptype: PieceType::Pawn, color: PieceColor::White },
                     Piece { x: 3, y: 6, ptype: PieceType::Pawn, color: PieceColor::White },
                     Piece { x: 4, y: 6, ptype: PieceType::Pawn, color: PieceColor::White },
                     Piece { x: 5, y: 6, ptype: PieceType::Pawn, color: PieceColor::White },
                     Piece { x: 6, y: 6, ptype: PieceType::Pawn, color: PieceColor::White },
                     Piece { x: 7, y: 6, ptype: PieceType::Pawn, color: PieceColor::White },
                     Piece { x: 0, y: 7, ptype: PieceType::Rook, color: PieceColor::White },
                     Piece { x: 1, y: 7, ptype: PieceType::Knight, color: PieceColor::White },
                     Piece { x: 2, y: 7, ptype: PieceType::Bishop, color: PieceColor::White },
                     Piece { x: 3, y: 7, ptype: PieceType::Queen, color: PieceColor::White },
                     Piece { x: 4, y: 7, ptype: PieceType::King, color: PieceColor::White },
                     Piece { x: 5, y: 7, ptype: PieceType::Bishop, color: PieceColor::White },
                     Piece { x: 6, y: 7, ptype: PieceType::Knight, color: PieceColor::White },
                     Piece { x: 7, y: 7, ptype: PieceType::Rook, color: PieceColor::White }],
        current_move: PieceColor::White,
        can_white_king_castle: true,
        can_white_queen_castle: true,
        can_black_king_castle: true,
        can_black_queen_castle: true,
        en_passant_square: None,
        halfmove_clock: 0,
        fullmove_num: 1,
    }, board);
}

#[test]
fn test_char_to_piece_type() {
    assert_eq!(char_to_piece_type('p'), Ok(PieceType::Pawn));
    assert_eq!(char_to_piece_type('r'), Ok(PieceType::Rook));
    assert_eq!(char_to_piece_type('n'), Ok(PieceType::Knight));
    assert_eq!(char_to_piece_type('b'), Ok(PieceType::Bishop));
    assert_eq!(char_to_piece_type('q'), Ok(PieceType::Queen));
    assert_eq!(char_to_piece_type('k'), Ok(PieceType::King));
    assert_eq!(char_to_piece_type('z').map_err(|e| e.message()), Err(String::from("Invalid piece char")));
    assert_eq!(char_to_piece_type('a').map_err(|e| e.message()), Err(String::from("Invalid piece char")));
}

fn parse(s: &str) -> Result<Board, ParseError> {
    Board::new_from_fen(String::from(s))
}

fn count(board: &Board, ptype: PieceType, color: PieceColor) -> usize {
    board.pieces.iter().filter(|p| p.ptype == ptype && p.color == color).count()
}

#[test]
fn initial_position_summary() {
    let b = parse(START).unwrap();
    assert_eq!(b.pieces.len(), 32);
    assert_eq!(b.current_move, PieceColor::White);
    assert!(b.can_white_king_castle && b.can_white_queen_castle);
    assert!(b.can_black_king_castle && b.can_black_queen_castle);
    assert_eq!(b.en_passant_square, None);
    assert_eq!(b.halfmove_clock, 0);
    assert_eq!(b.fullmove_num, 1);
    assert!(b.pieces.iter().filter(|p| p.y == 0).all(|p| p.color == PieceColor::Black));
    assert!(b.pieces.iter().filter(|p| p.y == 7).all(|p| p.color == PieceColor::White));
}

#[test]
fn piece_counts_follow_letters() {
    let b = parse("r3k2r/p1ppqpb1/bn2pnp1/3PN3/1p2P3/2N2Q1p/PPPBBPPP/R3K2R b KQkq - 0 1").unwrap();
    assert_eq!(count(&b, PieceType::Pawn, PieceColor::White), 8);
    assert_eq!(count(&b, PieceType::Pawn, PieceColor::Black), 8);
    assert_eq!(count(&b, PieceType::Knight, PieceColor::White), 2);
    assert_eq!(count(&b, PieceType::Knight, PieceColor::Black), 2);
    assert_eq!(count(&b, PieceType::Bishop, PieceColor::White), 2);
    assert_eq!(count(&b, PieceType::Bishop, PieceColor::Black), 2);
    assert_eq!(count(&b, PieceType::Queen, PieceColor::White), 1);
    assert_eq!(count(&b, PieceType::Queen, PieceColor::Black), 1);
    assert_eq!(count(&b, PieceType::King, PieceColor::White), 1);
    assert_eq!(count(&b, PieceType::King, PieceColor::Black), 1);
    assert_eq!(count(&b, PieceType::Rook, PieceColor::White), 2);
    assert_eq!(count(&b, PieceType::Rook, PieceColor::Black), 2);
    assert_eq!(b.current_move, PieceColor::Black);
}

#[test]
fn black_to_move_is_recognised() {
    let b = parse("8/8/8/8/8/8/8/4K2k b - - 12 40").unwrap();
    assert_eq!(b.current_move, PieceColor::Black);
    assert_eq!(b.pieces, vec![
        Piece { x: 4, y: 7, ptype: PieceType::King, color: PieceColor::White },
        Piece { x: 7, y: 7, ptype: PieceType::King, color: PieceColor::Black },
    ]);
    assert!(!b.can_white_king_castle && !b.can_white_queen_castle);
    assert!(!b.can_black_king_castle && !b.can_black_queen_castle);
    assert_eq!(b.halfmove_clock, 12);
    assert_eq!(b.fullmove_num, 40);
}

#[test]
fn castling_flags_are_independent() {
    let b = parse("8/8/8/8/8/8/8/8 w Kq - 0 1").unwrap();
    assert!(b.can_white_king_castle);
    assert!(!b.can_white_queen_castle);
    assert!(!b.can_black_king_castle);
    assert!(b.can_black_queen_castle);
}

#[test]
fn letter_mapping_round_trips() {
    for c in ['p', 'r', 'n', 'b', 'q', 'k'] {
        assert_eq!(piece_type_to_char(char_to_piece_type(c).unwrap()), c);
    }
    assert_eq!(piece_type_to_char(PieceType::Knight), 'n');
}

#[test]
fn other_letters_are_refused() {
    for c in ['z', 'a', '1', 'P', 'K', '/', ' '] {
        assert_eq!(char_to_piece_type(c), Err(ParseError::InvalidPieceLetter));
    }
}

#[test]
fn missing_rank_is_refused() {
    assert_eq!(parse("rnbqkbnr/pppppppp/8/8/8/PPPPPPPP/RNBQKBNR w KQkq - 0 1"), Err(ParseError::RankOverflow));
    assert_eq!(parse(" w KQkq - 0 1"), Err(ParseError::RankOverflow));
}

#[test]
fn extra_rank_is_refused() {
    assert_eq!(parse("8/8/8/8/8/8/8/8/8 w - - 0 1"), Err(ParseError::RankOverflow));
}

#[test]
fn long_rank_is_refused() {
    assert_eq!(parse("rnbqkbnr/pppppppp/81/8/8/8/PPPPPPPP/RNBQKBNR w KQkq - 0 1"), Err(ParseError::FileOverflow));
    assert_eq!(parse("rnbqkbnrp/pppppppp/8/8/8/8/PPPPPPPP/RNBQKBNR w KQkq - 0 1"), Err(ParseError::FileOverflow));
    assert_eq!(parse("44p/8/8/8/8/8/8/8 w - - 0 1"), Err(ParseError::FileOverflow));
}

#[test]
fn bad_board_letter_is_refused() {
    assert_eq!(parse("rnbqkbnx/pppppppp/8/8/8/8/PPPPPPPP/RNBQKBNR w KQkq - 0 1"), Err(ParseError::InvalidPieceLetter));
    assert_eq!(parse("9/8/8/8/8/8/8/8 w - - 0 1"), Err(ParseError::InvalidPieceLetter));
}

#[test]
fn en_passant_target() {
    assert_eq!(parse(START).unwrap().en_passant_square, None);
    let b = parse("rnbqkbnr/pppppppp/8/8/4P3/8/PPPP1PPP/RNBQKBNR b KQkq e3 0 1").unwrap();
    assert_eq!(b.en_passant_square, Some((4, 2)));
    assert_eq!(square_from_string("e3"), Ok((4, 2)));
    assert_eq!(square_from_string("a1"), Ok((0, 0)));
    assert_eq!(square_from_string("h8"), Ok((7, 7)));
}

#[test]
fn bad_en_passant_is_refused() {
    for s in ["i3", "e9", "e0", "e", "e33", "", "E3"] {
        assert_eq!(square_from_string(s), Err(ParseError::InvalidSquare));
    }
    assert_eq!(parse("8/8/8/8/8/8/8/8 w - x9 0 1"), Err(ParseError::InvalidSquare));
}

#[test]
fn too_few_fields_are_refused() {
    assert_eq!(parse("rnbqkbnr/pppppppp/8/8/8/8/PPPPPPPP/RNBQKBNR w KQkq -"), Err(ParseError::MalformedFieldCount));
    assert_eq!(parse(""), Err(ParseError::MalformedFieldCount));
    assert_eq!(parse("8/8/8/8/8/8/8/8 w - - 0 1 extra"), Err(ParseError::MalformedFieldCount));
    assert_eq!(parse("8/8/8/8/8/8/8/8  w - - 0 1"), Err(ParseError::MalformedFieldCount));
}

#[test]
fn bad_side_to_move_is_refused() {
    assert_eq!(parse("8/8/8/8/8/8/8/8 x - - 0 1"), Err(ParseError::InvalidSideToMove));
    assert_eq!(parse("8/8/8/8/8/8/8/8 W - - 0 1"), Err(ParseError::InvalidSideToMove));
}

#[test]
fn bad_counters_are_refused() {
    assert_eq!(parse("8/8/8/8/8/8/8/8 w - - x 1"), Err(ParseError::InvalidCounter));
    assert_eq!(parse("8/8/8/8/8/8/8/8 w - - 0 -1"), Err(ParseError::InvalidCounter));
    assert_eq!(parse("8/8/8/8/8/8/8/8 w - - 256 1"), Err(ParseError::InvalidCounter));
    assert_eq!(parse("8/8/8/8/8/8/8/8 w - - 0 4294967296"), Err(ParseError::InvalidCounter));
    let b = parse("8/8/8/8/8/8/8/8 w - - 255 4294967295").unwrap();
    assert_eq!(b.halfmove_clock, 255);
    assert_eq!(b.fullmove_num, 4294967295);
}

#[test]
fn render_initial_position() {
    let text = parse(START).unwrap().render();
    let lines: Vec<&str> = text.lines().collect();
    assert_eq!(lines.len(), 8);
    for line in &lines {
        assert_eq!(line.split_whitespace().count(), 8);
    }
    assert_eq!(lines[0], "r n b q k b n r ");
    assert_eq!(lines[1], "p p p p p p p p ");
    for line in &lines[2..6] {
        assert_eq!(*line, "* * * * * * * * ");
    }
    assert_eq!(lines[6], "P P P P P P P P ");
    assert_eq!(lines[7], "R N B Q K B N R ");
}

#[test]
fn render_picks_first_of_overlapping_pieces() {
    let b = Board {
        pieces: vec![
            Piece { x: 2, y: 3, ptype: PieceType::Queen, color: PieceColor::White },
            Piece { x: 2, y: 3, ptype: PieceType::Pawn, color: PieceColor::Black },
        ],
        current_move: PieceColor::White,
        can_white_king_castle: false,
        can_white_queen_castle: false,
        can_black_king_castle: false,
        can_black_queen_castle: false,
        en_passant_square: None,
        halfmove_clock: 0,
        fullmove_num: 1,
    };
    let text = b.render();
    assert_eq!(text.lines().nth(3), Some("* * Q * * * * * "));
    assert_eq!(b.piece_on(2, 3), Some(b.pieces[0]));
    assert_eq!(b.piece_on(0, 0), None);
}

#[test]
fn error_messages_are_distinct() {
    let all = [
        ParseError::MalformedFieldCount,
        ParseError::InvalidPieceLetter,
        ParseError::InvalidSideToMove,
        ParseError::InvalidSquare,
        ParseError::InvalidCounter,
        ParseError::RankOverflow,
        ParseError::FileOverflow,
    ];
    for (i, a) in all.iter().enumerate() {
        for b in &all[i + 1..] {
            assert_ne!(a.message(), b.message());
        }
    }
}
