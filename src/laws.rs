use vstd::prelude::*;

use crate::board::{parse_position, scan_board, scan_step};
use crate::error::ParseError;
use crate::piece::{color_of_letter, kind_of_letter, letter_of_kind, lower_of, Piece, PieceColor, PieceType};
use crate::text::split_spaces;

verus! {

/// The piece that a board letter stands for, if it is one.
pub open spec fn letter_piece(c: char) -> Option<(PieceType, PieceColor)> {
    match kind_of_letter(lower_of(c)) {
        Ok(k) => Some((k, color_of_letter(c))),
        Err(_) => None,
    }
}

/// How many letters of `s` stand for a piece of kind `k` and side `col`.
pub open spec fn count_letters(s: Seq<char>, k: PieceType, col: PieceColor) -> nat
    decreases s.len(),
{
    if s.len() == 0 {
        0
    } else {
        count_letters(s.drop_last(), k, col) + if letter_piece(s.last()) == Some((k, col)) {
            1nat
        } else {
            0nat
        }
    }
}

/// How many pieces of `ps` have kind `k` and side `col`.
pub open spec fn count_pieces(ps: Seq<Piece>, k: PieceType, col: PieceColor) -> nat
    decreases ps.len(),
{
    if ps.len() == 0 {
        0
    } else {
        count_pieces(ps.drop_last(), k, col) + if ps.last().ptype == k && ps.last().color == col {
            1nat
        } else {
            0nat
        }
    }
}

/// How many times `c` occurs in `s`.
pub open spec fn count_of(s: Seq<char>, c: char) -> nat
    decreases s.len(),
{
    if s.len() == 0 {
        0
    } else {
        count_of(s.drop_last(), c) + if s.last() == c {
            1nat
        } else {
            0nat
        }
    }
}

proof fn lemma_scan_facts(s: Seq<char>, k: PieceType, col: PieceColor)
    requires
        scan_board(s) is Ok,
    ensures
        ({
            let st = scan_board(s)->Ok_0;
            &&& count_pieces(st.pieces, k, col) == count_letters(s, k, col)
            &&& st.rank == count_of(s, '/')
            &&& 0 <= st.file <= 8
            &&& 0 <= st.rank <= 7
            &&& forall|i: int| 0 <= i < st.pieces.len() ==> (#[trigger] st.pieces[i]).on_board()
        }),
    decreases s.len(),
{
    if s.len() > 0 {
        let prev = s.drop_last();
        lemma_scan_facts(prev, k, col);
        let st = scan_board(prev)->Ok_0;
        let next = scan_step(st, s.last());
        assert(next is Ok);
        let nst = next->Ok_0;
        if nst.pieces.len() > st.pieces.len() {
            assert(nst.pieces.drop_last() == st.pieces);
            assert forall|i: int| 0 <= i < nst.pieces.len() implies (
            #[trigger] nst.pieces[i]).on_board() by {
                if i < st.pieces.len() {
                    assert(nst.pieces[i] == st.pieces[i]);
                }
            }
        }
    }
}

/// Decoding keeps every piece letter of the board field: for each kind and
/// side, the position holds exactly as many pieces as the field has letters
/// for them.
pub proof fn lemma_piece_counts_match_letters(s: Seq<char>, k: PieceType, col: PieceColor)
    requires
        parse_position(s) is Ok,
    ensures
        count_pieces(parse_position(s)->Ok_0.pieces, k, col) == count_letters(split_spaces(s)[0], k, col),
{
    lemma_scan_facts(split_spaces(s)[0], k, col);
}

/// Every piece of a decoded position stands on the board.
pub proof fn lemma_pieces_on_board(s: Seq<char>)
    requires
        parse_position(s) is Ok,
    ensures
        forall|i: int| 0 <= i < parse_position(s)->Ok_0.pieces.len()
            ==> (#[trigger] parse_position(s)->Ok_0.pieces[i]).on_board(),
{
    lemma_scan_facts(split_spaces(s)[0], PieceType::Pawn, PieceColor::White);
}

/// A board field that does not hold exactly seven `/` separators, that is,
/// does not describe exactly eight ranks, is refused.
pub proof fn lemma_rank_count_enforced(s: Seq<char>)
    requires
        split_spaces(s).len() == 6,
        count_of(split_spaces(s)[0], '/') != 7,
    ensures
        parse_position(s) is Err,
{
    let f = split_spaces(s)[0];
    if scan_board(f) is Ok {
        lemma_scan_facts(f, PieceType::Pawn, PieceColor::White);
    }
}

/// An encoding with fewer than six fields is refused as malformed.
pub proof fn lemma_too_few_fields(s: Seq<char>)
    requires
        split_spaces(s).len() < 6,
    ensures
        parse_position(s) == Err::<crate::board::BoardView, ParseError>(ParseError::MalformedFieldCount),
{
}

/// Each of the six piece letters maps to a kind whose letter it is.
pub proof fn lemma_letter_round_trip(c: char)
    requires
        c == 'p' || c == 'r' || c == 'n' || c == 'b' || c == 'q' || c == 'k',
    ensures
        kind_of_letter(c) is Ok,
        letter_of_kind(kind_of_letter(c)->Ok_0) == c,
{
}

/// Each kind's letter maps back to that kind.
pub proof fn lemma_kind_round_trip(k: PieceType)
    ensures
        kind_of_letter(letter_of_kind(k)) == Ok::<PieceType, ParseError>(k),
{
}

/// Every character other than the six piece letters is refused.
pub proof fn lemma_other_letters_refused(c: char)
    requires
        !(c == 'p' || c == 'r' || c == 'n' || c == 'b' || c == 'q' || c == 'k'),
    ensures
        kind_of_letter(c) == Err::<PieceType, ParseError>(ParseError::InvalidPieceLetter),
{
}

} // verus!
