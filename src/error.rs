use vstd::prelude::*;

verus! {

/// Why an encoding could not be decoded.
#[derive(PartialEq, Eq, Structural, Debug, Clone, Copy)]
pub enum ParseError {
    /// The encoding does not split into exactly six space-separated fields.
    MalformedFieldCount,
    /// A character of the board field is neither a digit run, a `/` nor a piece letter.
    InvalidPieceLetter,
    /// The side-to-move field is neither `w` nor `b`.
    InvalidSideToMove,
    /// The en-passant field is neither `-` nor a square such as `e3`.
    InvalidSquare,
    /// A move counter is not a decimal number that fits its type.
    InvalidCounter,
    /// The board field describes more or fewer than eight ranks.
    RankOverflow,
    /// A rank of the board field runs past its eighth file.
    FileOverflow,
}

impl ParseError {
    /// A short human-readable description of the error.
    pub fn message(&self) -> String {
        match self {
            ParseError::MalformedFieldCount => String::from_str("Wrong number of fields"),
            ParseError::InvalidPieceLetter => String::from_str("Invalid piece char"),
            ParseError::InvalidSideToMove => String::from_str("Invalid side to move"),
            ParseError::InvalidSquare => String::from_str("Invalid string to turn into square."),
            ParseError::InvalidCounter => String::from_str("Invalid move counter"),
            ParseError::RankOverflow => String::from_str("Board does not have eight ranks"),
            ParseError::FileOverflow => String::from_str("Rank has more than eight files"),
        }
    }
}

} // verus!
