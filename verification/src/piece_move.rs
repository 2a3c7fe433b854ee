//! A move of one piece: source and destination squares plus the kind of move,
//! and the long-algebraic notation (`e2e4`, `e7e8q`) used on the engine
//! protocol.

use vstd::prelude::*;
use vstd::string::*;
use crate::piece::{Piece, Player};
use crate::square::Square;

verus! {

/// How a move acts on the board, beyond relocating the moved piece.
#[derive(Clone, Copy, Debug, PartialEq, Eq, Structural)]
pub enum PieceMoveType {
    Normal,
    EnPassant,
    Castling,
    Promotion(Piece),
}

/// Why an algebraic move string was rejected.
#[derive(Clone, Copy, Debug, PartialEq, Eq, Structural)]
pub enum MoveParseError {
    WrongLength,
    BadFileLetter,
    BadRankDigit,
    BadPromotionLetter,
}

/// A move from one square to another.
#[derive(Clone, Copy, Debug, PartialEq, Eq, Structural)]
pub struct PieceMove {
    pub from: Square,
    pub to: Square,
    pub move_type: PieceMoveType,
}

/// The file of an algebraic file letter, `'a'` through `'h'`.
pub open spec fn spec_file_of_char(c: char) -> Option<u8> {
    match c {
        'a' => Option::Some(0u8),
        'b' => Option::Some(1u8),
        'c' => Option::Some(2u8),
        'd' => Option::Some(3u8),
        'e' => Option::Some(4u8),
        'f' => Option::Some(5u8),
        'g' => Option::Some(6u8),
        'h' => Option::Some(7u8),
        _ => Option::None,
    }
}

/// The rank of an algebraic rank digit, `'1'` through `'8'`.
pub open spec fn spec_rank_of_char(c: char) -> Option<u8> {
    match c {
        '1' => Option::Some(0u8),
        '2' => Option::Some(1u8),
        '3' => Option::Some(2u8),
        '4' => Option::Some(3u8),
        '5' => Option::Some(4u8),
        '6' => Option::Some(5u8),
        '7' => Option::Some(6u8),
        '8' => Option::Some(7u8),
        _ => Option::None,
    }
}

/// The algebraic letter of a file.
pub open spec fn spec_file_char(f: int) -> char {
    if f == 0 { 'a' } else if f == 1 { 'b' } else if f == 2 { 'c' } else if f == 3 { 'd' }
    else if f == 4 { 'e' } else if f == 5 { 'f' } else if f == 6 { 'g' } else { 'h' }
}

/// The algebraic digit of a rank.
pub open spec fn spec_rank_char(r: int) -> char {
    if r == 0 { '1' } else if r == 1 { '2' } else if r == 2 { '3' } else if r == 3 { '4' }
    else if r == 4 { '5' } else if r == 5 { '6' } else if r == 6 { '7' } else { '8' }
}

/// The promotion letter of a piece kind, if it is a kind pawns promote to.
pub open spec fn spec_promo_char(p: Piece) -> Option<char> {
    match p {
        Piece::WQueen | Piece::BQueen => Option::Some('q'),
        Piece::WRook | Piece::BRook => Option::Some('r'),
        Piece::WBishop | Piece::BBishop => Option::Some('b'),
        Piece::WKnight | Piece::BKnight => Option::Some('n'),
        _ => Option::None,
    }
}

#[verifier::when_used_as_spec(spec_file_of_char)]
pub fn file_of_char(c: char) -> (r: Option<u8>)
    ensures
        r == spec_file_of_char(c),
{
    match c {
        'a' => Option::Some(0u8),
        'b' => Option::Some(1u8),
        'c' => Option::Some(2u8),
        'd' => Option::Some(3u8),
        'e' => Option::Some(4u8),
        'f' => Option::Some(5u8),
        'g' => Option::Some(6u8),
        'h' => Option::Some(7u8),
        _ => Option::None,
    }
}

#[verifier::when_used_as_spec(spec_rank_of_char)]
pub fn rank_of_char(c: char) -> (r: Option<u8>)
    ensures
        r == spec_rank_of_char(c),
{
    match c {
        '1' => Option::Some(0u8),
        '2' => Option::Some(1u8),
        '3' => Option::Some(2u8),
        '4' => Option::Some(3u8),
        '5' => Option::Some(4u8),
        '6' => Option::Some(5u8),
        '7' => Option::Some(6u8),
        '8' => Option::Some(7u8),
        _ => Option::None,
    }
}

/// Append the algebraic letter of `f` to `out`.
pub fn push_file_char(out: &mut String, f: u8)
    requires
        f < 8,
    ensures
        final(out)@ == old(out)@.push(spec_file_char(f as int)),
{
    proof {
        reveal_strlit("a");
        reveal_strlit("b");
        reveal_strlit("c");
        reveal_strlit("d");
        reveal_strlit("e");
        reveal_strlit("f");
        reveal_strlit("g");
        reveal_strlit("h");
    }
    match f {
        0 => out.append("a"),
        1 => out.append("b"),
        2 => out.append("c"),
        3 => out.append("d"),
        4 => out.append("e"),
        5 => out.append("f"),
        6 => out.append("g"),
        _ => out.append("h"),
    }
    proof {
        assert(out@ =~= old(out)@.push(spec_file_char(f as int)));
    }
}

/// Append the algebraic digit of `r` to `out`.
pub fn push_rank_char(out: &mut String, r: u8)
    requires
        r < 8,
    ensures
        final(out)@ == old(out)@.push(spec_rank_char(r as int)),
{
    proof {
        reveal_strlit("1");
        reveal_strlit("2");
        reveal_strlit("3");
        reveal_strlit("4");
        reveal_strlit("5");
        reveal_strlit("6");
        reveal_strlit("7");
        reveal_strlit("8");
    }
    match r {
        0 => out.append("1"),
        1 => out.append("2"),
        2 => out.append("3"),
        3 => out.append("4"),
        4 => out.append("5"),
        5 => out.append("6"),
        6 => out.append("7"),
        _ => out.append("8"),
    }
    proof {
        assert(out@ =~= old(out)@.push(spec_rank_char(r as int)));
    }
}

impl PieceMove {
    /// A plain move between two squares.
    pub fn new(from: Square, to: Square) -> (r: PieceMove)
        ensures
            r == (PieceMove { from, to, move_type: PieceMoveType::Normal }),
    {
        PieceMove { from, to, move_type: PieceMoveType::Normal }
    }

    /// A move between two squares with an explicit move kind.
    pub fn new_with_type(from: Square, to: Square, move_type: PieceMoveType) -> (r: PieceMove)
        ensures
            r == (PieceMove { from, to, move_type }),
    {
        PieceMove { from, to, move_type }
    }

    /// Source and destination on the board, and a promotion names a real
    /// piece kind.
    pub open spec fn wf(self) -> bool {
        self.from.wf() && self.to.wf() && match self.move_type {
            PieceMoveType::Promotion(p) => spec_promo_char(p).is_some(),
            _ => true,
        }
    }

    /// The same move with source and destination swapped, used when a move is
    /// undone.
    pub fn rev(self) -> (r: PieceMove)
        ensures
            r == (PieceMove { from: self.to, to: self.from, move_type: self.move_type }),
    {
        PieceMove { from: self.to, to: self.from, move_type: self.move_type }
    }

    /// The long-algebraic notation of this move.
    pub open spec fn spec_algebraic(self) -> Seq<char> {
        let base = seq![
            spec_file_char(self.from.file as int),
            spec_rank_char(self.from.rank as int),
            spec_file_char(self.to.file as int),
            spec_rank_char(self.to.rank as int),
        ];
        match self.move_type {
            PieceMoveType::Promotion(p) => base.push(spec_promo_char(p).unwrap()),
            _ => base,
        }
    }

    /// Write this move in long-algebraic notation: the source square, the
    /// destination square, and for a promotion the promoted kind's letter.
    pub fn to_algebraic(self) -> (r: String)
        requires
            self.wf(),
        ensures
            r@ == self.spec_algebraic(),
    {
        let mut out = String::new();
        push_file_char(&mut out, self.from.file);
        push_rank_char(&mut out, self.from.rank);
        push_file_char(&mut out, self.to.file);
        push_rank_char(&mut out, self.to.rank);
        match self.move_type {
            PieceMoveType::Promotion(p) => {
                proof {
                    reveal_strlit("q");
                    reveal_strlit("r");
                    reveal_strlit("b");
                    reveal_strlit("n");
                }
                match p {
                    Piece::WQueen | Piece::BQueen => out.append("q"),
                    Piece::WRook | Piece::BRook => out.append("r"),
                    Piece::WBishop | Piece::BBishop => out.append("b"),
                    _ => out.append("n"),
                }
            }
            _ => {}
        }
        proof {
            assert(out@ =~= self.spec_algebraic());
        }
        out
    }

    /// The move an algebraic string denotes, or the reason it denotes none.
    ///
    /// A four-letter string gives a `Normal` move; a fifth letter must be a
    /// promotion letter, the destination must lie on a back rank, and the
    /// promoted piece takes the promoting player's color.
    pub open spec fn spec_from_algebraic(s: Seq<char>) -> Result<PieceMove, MoveParseError> {
        if s.len() != 4 && s.len() != 5 {
            Result::Err(MoveParseError::WrongLength)
        } else if spec_file_of_char(s[0]).is_none() || spec_file_of_char(s[2]).is_none() {
            Result::Err(MoveParseError::BadFileLetter)
        } else if spec_rank_of_char(s[1]).is_none() || spec_rank_of_char(s[3]).is_none() {
            Result::Err(MoveParseError::BadRankDigit)
        } else {
            let from = Square {
                file: spec_file_of_char(s[0]).unwrap(),
                rank: spec_rank_of_char(s[1]).unwrap(),
            };
            let to = Square {
                file: spec_file_of_char(s[2]).unwrap(),
                rank: spec_rank_of_char(s[3]).unwrap(),
            };
            if s.len() == 4 {
                Result::Ok(PieceMove { from, to, move_type: PieceMoveType::Normal })
            } else {
                let player = if to.rank == 7 {
                    Player::White
                } else {
                    Player::Black
                };
                let kind = match s[4] {
                    'q' => Option::Some(Piece::WQueen),
                    'r' => Option::Some(Piece::WRook),
                    'b' => Option::Some(Piece::WBishop),
                    'n' => Option::Some(Piece::WKnight),
                    _ => Option::None,
                };
                if (to.rank == 7 || to.rank == 0) && kind.is_some() {
                    Result::Ok(
                        PieceMove {
                            from,
                            to,
                            move_type: PieceMoveType::Promotion(
                                Piece::spec_player_piece(player, kind.unwrap()),
                            ),
                        },
                    )
                } else {
                    Result::Err(MoveParseError::BadPromotionLetter)
                }
            }
        }
    }

    /// Parse a long-algebraic move string.
    pub fn from_algebraic(s: &str) -> (r: Result<PieceMove, MoveParseError>)
        ensures
            r == Self::spec_from_algebraic(s@),
            r matches Result::Ok(m) ==> m.wf(),
    {
        let n = s.unicode_len();
        if n != 4 && n != 5 {
            return Result::Err(MoveParseError::WrongLength);
        }
        let c0 = s.get_char(0);
        let c1 = s.get_char(1);
        let c2 = s.get_char(2);
        let c3 = s.get_char(3);
        let ff = file_of_char(c0);
        let tf = file_of_char(c2);
        if ff.is_none() || tf.is_none() {
            return Result::Err(MoveParseError::BadFileLetter);
        }
        let fr = rank_of_char(c1);
        let tr = rank_of_char(c3);
        if fr.is_none() || tr.is_none() {
            return Result::Err(MoveParseError::BadRankDigit);
        }
        let from = Square { file: ff.unwrap(), rank: fr.unwrap() };
        let to = Square { file: tf.unwrap(), rank: tr.unwrap() };
        if n == 4 {
            return Result::Ok(PieceMove { from, to, move_type: PieceMoveType::Normal });
        }
        let player = if to.rank == 7 {
            Player::White
        } else {
            Player::Black
        };
        let c4 = s.get_char(4);
        let kind = match c4 {
            'q' => Option::Some(Piece::WQueen),
            'r' => Option::Some(Piece::WRook),
            'b' => Option::Some(Piece::WBishop),
            'n' => Option::Some(Piece::WKnight),
            _ => Option::None,
        };
        if (to.rank == 7 || to.rank == 0) && kind.is_some() {
            Result::Ok(
                PieceMove {
                    from,
                    to,
                    move_type: PieceMoveType::Promotion(
                        Piece::get_player_piece(player, kind.unwrap()),
                    ),
                },
            )
        } else {
            Result::Err(MoveParseError::BadPromotionLetter)
        }
    }
}

} // verus!
