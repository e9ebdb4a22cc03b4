use vstd::prelude::*;

use crate::error::ParseError;
use crate::piece::{
    ascii_lower, ascii_upper, char_to_piece_type, color_of_letter,
    kind_of_letter, letter_of_piece, lower_of, piece_type_to_char, Piece, PieceColor,
};
use crate::text::{
    contains_char, decimal_value, digit_value, is_decimal, occurs, parse_decimal, push_char,
    split_fields, split_spaces,
};

verus! {

/// A decoded position: the pieces in the order the board field lists them,
/// the side to move, the four castling flags, the en-passant target and the
/// two move counters.
#[derive(Debug, PartialEq)]
pub struct Board {
    pub pieces: Vec<Piece>,
    /// Whose move it is.
    pub current_move: PieceColor,
    /// True while the side may still castle on that wing in the future.
    pub can_white_king_castle: bool,
    pub can_white_queen_castle: bool,
    pub can_black_king_castle: bool,
    pub can_black_queen_castle: bool,
    /// The square a pawn skipped over on a two-square advance, as (file, row).
    pub en_passant_square: Option<(u8, u8)>,
    /// Half-moves since the last capture or pawn advance.
    pub halfmove_clock: u8,
    /// Starts at one and grows after each move of Black.
    pub fullmove_num: u32,
}

/// The mathematical value of a `Board`.
pub struct BoardView {
    pub pieces: Seq<Piece>,
    pub current_move: PieceColor,
    pub can_white_king_castle: bool,
    pub can_white_queen_castle: bool,
    pub can_black_king_castle: bool,
    pub can_black_queen_castle: bool,
    pub en_passant_square: Option<(u8, u8)>,
    pub halfmove_clock: u8,
    pub fullmove_num: u32,
}

impl View for Board {
    type V = BoardView;

    open spec fn view(&self) -> BoardView {
        BoardView {
            pieces: self.pieces@,
            current_move: self.current_move,
            can_white_king_castle: self.can_white_king_castle,
            can_white_queen_castle: self.can_white_queen_castle,
            can_black_king_castle: self.can_black_king_castle,
            can_black_queen_castle: self.can_black_queen_castle,
            en_passant_square: self.en_passant_square,
            halfmove_clock: self.halfmove_clock,
            fullmove_num: self.fullmove_num,
        }
    }
}

/// Where the scan of a board field stands: the pieces met so far and the
/// square that comes next.
pub struct ScanState {
    pub pieces: Seq<Piece>,
    pub file: int,
    pub rank: int,
}

/// One character of the board field applied to the scan.
pub open spec fn scan_step(st: ScanState, c: char) -> Result<ScanState, ParseError> {
    if '1' <= c <= '8' {
        if st.file + digit_value(c) > 8 {
            Err(ParseError::FileOverflow)
        } else {
            Ok(ScanState { file: st.file + digit_value(c), ..st })
        }
    } else if c == '/' {
        if st.rank >= 7 {
            Err(ParseError::RankOverflow)
        } else {
            Ok(ScanState { file: 0, rank: st.rank + 1, ..st })
        }
    } else {
        match kind_of_letter(lower_of(c)) {
            Err(e) => Err(e),
            Ok(k) => if st.file >= 8 {
                Err(ParseError::FileOverflow)
            } else {
                let p = Piece {
                    x: st.file as u32,
                    y: st.rank as u32,
                    ptype: k,
                    color: color_of_letter(c),
                };
                Ok(ScanState { pieces: st.pieces.push(p), file: st.file + 1, rank: st.rank })
            },
        }
    }
}

/// The scan of a whole board field, left to right, from the top-left square.
pub open spec fn scan_board(s: Seq<char>) -> Result<ScanState, ParseError>
    decreases s.len(),
{
    if s.len() == 0 {
        Ok(ScanState { pieces: Seq::empty(), file: 0, rank: 0 })
    } else {
        match scan_board(s.drop_last()) {
            Err(e) => Err(e),
            Ok(st) => scan_step(st, s.last()),
        }
    }
}

/// The pieces that a board field lists, provided it describes all eight ranks.
pub open spec fn board_layout(s: Seq<char>) -> Result<Seq<Piece>, ParseError> {
    match scan_board(s) {
        Err(e) => Err(e),
        Ok(st) => if st.rank == 7 {
            Ok(st.pieces)
        } else {
            Err(ParseError::RankOverflow)
        },
    }
}

pub open spec fn side_of_field(f: Seq<char>) -> Result<PieceColor, ParseError> {
    if f == seq!['w'] {
        Ok(PieceColor::White)
    } else if f == seq!['b'] {
        Ok(PieceColor::Black)
    } else {
        Err(ParseError::InvalidSideToMove)
    }
}

/// A square written as a file letter `a`-`h` and a rank digit `1`-`8`,
/// as (file, rank) counted from zero.
pub open spec fn square_of(f: Seq<char>) -> Result<(u8, u8), ParseError> {
    if f.len() == 2 && 'a' <= f[0] <= 'h' && '1' <= f[1] <= '8' {
        Ok(((f[0] as int - 'a' as int) as u8, (f[1] as int - '1' as int) as u8))
    } else {
        Err(ParseError::InvalidSquare)
    }
}

pub open spec fn en_passant_of(f: Seq<char>) -> Result<Option<(u8, u8)>, ParseError> {
    if f == seq!['-'] {
        Ok(None)
    } else {
        match square_of(f) {
            Err(e) => Err(e),
            Ok(sq) => Ok(Some(sq)),
        }
    }
}

pub open spec fn counter_of(f: Seq<char>, max: int) -> Result<int, ParseError> {
    if is_decimal(f) && decimal_value(f) <= max {
        Ok(decimal_value(f))
    } else {
        Err(ParseError::InvalidCounter)
    }
}

/// The position that an encoding describes, or the first reason it is refused.
pub open spec fn parse_position(s: Seq<char>) -> Result<BoardView, ParseError> {
    let fs = split_spaces(s);
    if fs.len() != 6 {
        Err(ParseError::MalformedFieldCount)
    } else {
        let layout = board_layout(fs[0]);
        let side = side_of_field(fs[1]);
        let ep = en_passant_of(fs[3]);
        let half = counter_of(fs[4], u8::MAX as int);
        let full = counter_of(fs[5], u32::MAX as int);
        if layout is Err {
            Err(layout->Err_0)
        } else if side is Err {
            Err(side->Err_0)
        } else if ep is Err {
            Err(ep->Err_0)
        } else if half is Err {
            Err(half->Err_0)
        } else if full is Err {
            Err(full->Err_0)
        } else {
            Ok(BoardView {
                pieces: layout->Ok_0,
                current_move: side->Ok_0,
                can_white_king_castle: occurs(fs[2], 'K'),
                can_white_queen_castle: occurs(fs[2], 'Q'),
                can_black_king_castle: occurs(fs[2], 'k'),
                can_black_queen_castle: occurs(fs[2], 'q'),
                en_passant_square: ep->Ok_0,
                halfmove_clock: (half->Ok_0) as u8,
                fullmove_num: (full->Ok_0) as u32,
            })
        }
    }
}

/// Once the scan of a prefix fails, the scan of the whole field fails the same way.
pub proof fn lemma_scan_error_persists(s: Seq<char>, k: int)
    requires
        0 <= k <= s.len(),
        scan_board(s.take(k)) is Err,
    ensures
        scan_board(s) == scan_board(s.take(k)),
    decreases s.len() - k,
{
    if k < s.len() {
        assert(s.take(k + 1).drop_last() == s.take(k));
        lemma_scan_error_persists(s, k + 1);
    } else {
        assert(s.take(k) == s);
    }
}

/// Decodes the board field into its pieces.
pub fn parse_board_field(field: &str) -> (r: Result<Vec<Piece>, ParseError>)
    ensures
        match r {
            Ok(v) => board_layout(field@) == Ok::<Seq<Piece>, ParseError>(v@),
            Err(e) => board_layout(field@) == Err::<Seq<Piece>, ParseError>(e),
        },
{
    let mut pieces: Vec<Piece> = Vec::new();
    let mut file: u32 = 0;
    let mut rank: u32 = 0;
    for c in it: field.chars()
        invariant
            it.seq() == field@,
            file <= 8,
            rank <= 7,
            scan_board(field@.take(it.index() as int)) == Ok::<ScanState, ParseError>(
                ScanState { pieces: pieces@, file: file as int, rank: rank as int },
            ),
    {
        let ghost k = it.index() as int;
        assert(field@.take(k + 1).drop_last() == field@.take(k));
        assert(field@.take(k + 1).last() == c);
        if '1' <= c && c <= '8' {
            let n = (c as u32) - ('0' as u32);
            if file + n > 8 {
                proof { lemma_scan_error_persists(field@, k + 1); }
                return Err(ParseError::FileOverflow);
            }
            file = file + n;
        } else if c == '/' {
            if rank >= 7 {
                proof { lemma_scan_error_persists(field@, k + 1); }
                return Err(ParseError::RankOverflow);
            }
            rank = rank + 1;
            file = 0;
        } else {
            match char_to_piece_type(ascii_lower(c)) {
                Err(e) => {
                    proof { lemma_scan_error_persists(field@, k + 1); }
                    return Err(e);
                },
                Ok(ptype) => {
                    if file >= 8 {
                        proof { lemma_scan_error_persists(field@, k + 1); }
                        return Err(ParseError::FileOverflow);
                    }
                    let color = if 'a' <= c && c <= 'z' {
                        PieceColor::Black
                    } else {
                        PieceColor::White
                    };
                    pieces.push(Piece { x: file, y: rank, ptype, color });
                    file = file + 1;
                },
            }
        }
    }
    assert(field@.take(field@.len() as int) == field@);
    if rank != 7 {
        return Err(ParseError::RankOverflow);
    }
    Ok(pieces)
}

/// Reads an en-passant target such as `e3` as (file, rank) counted from zero.
pub fn square_from_string(s: &str) -> (r: Result<(u8, u8), ParseError>)
    ensures
        r == square_of(s@),
{
    if s.unicode_len() != 2 {
        return Err(ParseError::InvalidSquare);
    }
    let f = s.get_char(0);
    let r = s.get_char(1);
    if !('a' <= f && f <= 'h' && '1' <= r && r <= '8') {
        return Err(ParseError::InvalidSquare);
    }
    Ok(((f as u8) - ('a' as u8), (r as u8) - ('1' as u8)))
}

/// The first piece, in list order, that stands on (x, y).
pub open spec fn piece_at(ps: Seq<Piece>, x: int, y: int) -> Option<Piece>
    decreases ps.len(),
{
    if ps.len() == 0 {
        None
    } else {
        let earlier = piece_at(ps.drop_last(), x, y);
        if earlier is Some {
            earlier
        } else if ps.last().x == x && ps.last().y == y {
            Some(ps.last())
        } else {
            None
        }
    }
}

/// What a square shows: the piece's letter, or `*` when it is empty.
pub open spec fn square_token(p: Option<Piece>) -> char {
    match p {
        None => '*',
        Some(p) => letter_of_piece(p.ptype, p.color),
    }
}

/// The first `n` squares of row `y`, each followed by a space.
pub open spec fn rank_text(ps: Seq<Piece>, y: int, n: nat) -> Seq<char>
    decreases n,
{
    if n == 0 {
        Seq::empty()
    } else {
        rank_text(ps, y, (n - 1) as nat) + seq![square_token(piece_at(ps, n - 1, y)), ' ']
    }
}

/// The first `n` rows of the grid, each ended by a newline.
pub open spec fn grid_text(ps: Seq<Piece>, n: nat) -> Seq<char>
    decreases n,
{
    if n == 0 {
        Seq::empty()
    } else {
        grid_text(ps, (n - 1) as nat) + rank_text(ps, n - 1, 8) + seq!['\n']
    }
}

impl Board {
    /// Decodes a position from its six-field text encoding.
    pub fn new_from_fen(fen: String) -> (r: Result<Board, ParseError>)
        ensures
            match r {
                Ok(b) => parse_position(fen@) == Ok::<BoardView, ParseError>(b@),
                Err(e) => parse_position(fen@) == Err::<BoardView, ParseError>(e),
            },
    {
        let fields = split_fields(fen.as_str());
        if fields.len() != 6 {
            return Err(ParseError::MalformedFieldCount);
        }
        let ghost fs = split_spaces(fen@);
        assert(fields@[0]@ == fs[0] && fields@[1]@ == fs[1] && fields@[2]@ == fs[2]);
        assert(fields@[3]@ == fs[3] && fields@[4]@ == fs[4] && fields@[5]@ == fs[5]);
        let pieces = match parse_board_field(fields[0]) {
            Ok(v) => v,
            Err(e) => return Err(e),
        };
        let side = fields[1];
        let current_move = if side.unicode_len() == 1 && side.get_char(0) == 'w' {
            PieceColor::White
        } else if side.unicode_len() == 1 && side.get_char(0) == 'b' {
            PieceColor::Black
        } else {
            return Err(ParseError::InvalidSideToMove);
        };
        proof {
            if current_move == PieceColor::White {
                assert(side@ == seq!['w']);
            } else {
                assert(side@ == seq!['b']);
            }
        }
        let castling = fields[2];
        let ep = fields[3];
        let en_passant_square = if ep.unicode_len() == 1 && ep.get_char(0) == '-' {
            assert(ep@ == seq!['-']);
            None
        } else {
            match square_from_string(ep) {
                Ok(sq) => Some(sq),
                Err(e) => return Err(e),
            }
        };
        let halfmove_clock = match parse_decimal(fields[4], u8::MAX as u64) {
            Some(n) => n as u8,
            None => return Err(ParseError::InvalidCounter),
        };
        let fullmove_num = match parse_decimal(fields[5], u32::MAX as u64) {
            Some(n) => n as u32,
            None => return Err(ParseError::InvalidCounter),
        };
        Ok(Board {
            pieces,
            current_move,
            can_white_king_castle: contains_char(castling, 'K'),
            can_white_queen_castle: contains_char(castling, 'Q'),
            can_black_king_castle: contains_char(castling, 'k'),
            can_black_queen_castle: contains_char(castling, 'q'),
            en_passant_square,
            halfmove_clock,
            fullmove_num,
        })
    }

    /// The first piece, in list order, that stands on (x, y).
    pub fn piece_on(&self, x: u32, y: u32) -> (r: Option<Piece>)
        ensures
            r == piece_at(self.pieces@, x as int, y as int),
    {
        let mut found: Option<Piece> = None;
        for i in 0..self.pieces.len()
            invariant
                found == piece_at(self.pieces@.take(i as int), x as int, y as int),
        {
            assert(self.pieces@.take(i + 1).drop_last() == self.pieces@.take(i as int));
            if found.is_none() {
                let p = self.pieces[i];
                if p.x == x && p.y == y {
                    found = Some(p);
                }
            }
        }
        assert(self.pieces@.take(self.pieces@.len() as int) == self.pieces@);
        found
    }

    /// The board as eight lines, top row first; each square shows its piece's
    /// letter (upper case for White) or `*`, followed by a space.
    pub fn render(&self) -> (r: String)
        ensures
            r@ == grid_text(self.pieces@, 8),
    {
        let mut out = String::new();
        for y in 0..8u32
            invariant
                out@ == grid_text(self.pieces@, y as nat),
        {
            for x in 0..8u32
                invariant
                    out@ == grid_text(self.pieces@, y as nat) + rank_text(
                        self.pieces@,
                        y as int,
                        x as nat,
                    ),
            {
                let token = match self.piece_on(x, y) {
                    None => '*',
                    Some(p) => {
                        let c = piece_type_to_char(p.ptype);
                        match p.color {
                            PieceColor::White => ascii_upper(c),
                            PieceColor::Black => c,
                        }
                    },
                };
                push_char(&mut out, token);
                push_char(&mut out, ' ');
                assert(out@ == grid_text(self.pieces@, y as nat) + rank_text(
                    self.pieces@,
                    y as int,
                    (x + 1) as nat,
                ));
            }
            push_char(&mut out, '\n');
            assert(out@ == grid_text(self.pieces@, (y + 1) as nat));
        }
        out
    }
}

} // verus!
