use vstd::prelude::*;

use crate::error::ParseError;

verus! {

/// The kind of a chess piece.
#[derive(PartialEq, Eq, Structural, Debug, Clone, Copy)]
pub enum PieceType {
    Pawn,
    Rook,
    Knight,
    Bishop,
    Queen,
    King,
}

/// The side a piece belongs to, or the side to move.
#[derive(PartialEq, Eq, Structural, Debug, Clone, Copy)]
pub enum PieceColor {
    Black,
    White,
}

/// A piece standing on a square: `x` is the file counted from the left edge,
/// `y` the row counted from the top of the encoding (rank 8 is row 0).
#[derive(PartialEq, Eq, Structural, Debug, Clone, Copy)]
pub struct Piece {
    pub x: u32,
    pub y: u32,
    pub ptype: PieceType,
    pub color: PieceColor,
}

impl Piece {
    /// Both coordinates lie on the board.
    pub open spec fn on_board(self) -> bool {
        self.x < 8 && self.y < 8
    }
}

pub open spec fn is_ascii_upper(c: char) -> bool {
    'A' <= c <= 'Z'
}

pub open spec fn is_ascii_lower(c: char) -> bool {
    'a' <= c <= 'z'
}

/// ASCII lower case of `c`; any other character is kept.
pub open spec fn lower_of(c: char) -> char {
    if is_ascii_upper(c) {
        ((c as u8) + 32) as char
    } else {
        c
    }
}

/// ASCII upper case of `c`; any other character is kept.
pub open spec fn upper_of(c: char) -> char {
    if is_ascii_lower(c) {
        ((c as u8) - 32) as char
    } else {
        c
    }
}

/// The kind that a lower-case piece letter names.
pub open spec fn kind_of_letter(c: char) -> Result<PieceType, ParseError> {
    if c == 'p' {
        Ok(PieceType::Pawn)
    } else if c == 'r' {
        Ok(PieceType::Rook)
    } else if c == 'n' {
        Ok(PieceType::Knight)
    } else if c == 'b' {
        Ok(PieceType::Bishop)
    } else if c == 'q' {
        Ok(PieceType::Queen)
    } else if c == 'k' {
        Ok(PieceType::King)
    } else {
        Err(ParseError::InvalidPieceLetter)
    }
}

/// The lower-case letter of a kind.
pub open spec fn letter_of_kind(k: PieceType) -> char {
    match k {
        PieceType::Pawn => 'p',
        PieceType::Rook => 'r',
        PieceType::Knight => 'n',
        PieceType::Bishop => 'b',
        PieceType::Queen => 'q',
        PieceType::King => 'k',
    }
}

/// The letter that shows a piece: upper case for White, lower case for Black.
pub open spec fn letter_of_piece(k: PieceType, color: PieceColor) -> char {
    match color {
        PieceColor::White => upper_of(letter_of_kind(k)),
        PieceColor::Black => letter_of_kind(k),
    }
}

/// The side that the case of a board letter selects.
pub open spec fn color_of_letter(c: char) -> PieceColor {
    if is_ascii_lower(c) {
        PieceColor::Black
    } else {
        PieceColor::White
    }
}

pub fn ascii_lower(c: char) -> (r: char)
    ensures
        r == lower_of(c),
{
    if 'A' <= c && c <= 'Z' {
        ((c as u8) + 32) as char
    } else {
        c
    }
}

pub fn ascii_upper(c: char) -> (r: char)
    ensures
        r == upper_of(c),
{
    if 'a' <= c && c <= 'z' {
        ((c as u8) - 32) as char
    } else {
        c
    }
}

/// Maps the lower-case letters `p r n b q k` to their kinds; any other
/// character is an `InvalidPieceLetter` error.
pub fn char_to_piece_type(c: char) -> (r: Result<PieceType, ParseError>)
    ensures
        r == kind_of_letter(c),
{
    match c {
        'p' => Ok(PieceType::Pawn),
        'r' => Ok(PieceType::Rook),
        'n' => Ok(PieceType::Knight),
        'b' => Ok(PieceType::Bishop),
        'q' => Ok(PieceType::Queen),
        'k' => Ok(PieceType::King),
        _ => Err(ParseError::InvalidPieceLetter),
    }
}

/// The lower-case letter of a kind.
pub fn piece_type_to_char(c: PieceType) -> (r: char)
    ensures
        r == letter_of_kind(c),
{
    match c {
        PieceType::Pawn => 'p',
        PieceType::Rook => 'r',
        PieceType::Knight => 'n',
        PieceType::Bishop => 'b',
        PieceType::Queen => 'q',
        PieceType::King => 'k',
    }
}

} // verus!
