//! The two players and the twelve piece kinds, plus the FEN letter for each
//! piece.

use vstd::prelude::*;

verus! {

/// The two sides of a chess game.
#[derive(Clone, Copy, Debug, PartialEq, Eq, Structural)]
pub enum Player {
    White,
    Black,
}

impl Player {
    /// The opponent of this player.
    pub open spec fn spec_other(self) -> Player {
        match self {
            Player::White => Player::Black,
            Player::Black => Player::White,
        }
    }

    /// The opponent of this player.
    #[verifier::when_used_as_spec(spec_other)]
    pub fn other(self) -> (r: Player)
        ensures
            r == self.spec_other(),
    {
        match self {
            Player::White => Player::Black,
            Player::Black => Player::White,
        }
    }

    /// Storage index of this player: white first.
    pub fn to_index(self) -> (r: usize)
        ensures
            r == self.spec_index(),
    {
        match self {
            Player::White => 0,
            Player::Black => 1,
        }
    }

    /// Storage index of this player: white first.
    pub open spec fn spec_index(self) -> int {
        match self {
            Player::White => 0,
            Player::Black => 1,
        }
    }
}

/// The occupant of a square: empty, or one of the six piece kinds in either
/// color.
#[derive(Clone, Copy, Debug, PartialEq, Eq, Structural)]
pub enum Piece {
    Empty,
    WPawn,
    WKnight,
    WBishop,
    WRook,
    WQueen,
    WKing,
    BPawn,
    BKnight,
    BBishop,
    BRook,
    BQueen,
    BKing,
}

impl Piece {
    /// The player owning this piece, if any.
    pub open spec fn spec_owner(self) -> Option<Player> {
        match self {
            Piece::Empty => Option::None,
            Piece::WPawn | Piece::WKnight | Piece::WBishop | Piece::WRook | Piece::WQueen
                | Piece::WKing => Option::Some(Player::White),
            _ => Option::Some(Player::Black),
        }
    }

    /// The player owning this piece, if any.
    #[verifier::when_used_as_spec(spec_owner)]
    pub fn owner(self) -> (r: Option<Player>)
        ensures
            r == self.spec_owner(),
    {
        match self {
            Piece::Empty => Option::None,
            Piece::WPawn | Piece::WKnight | Piece::WBishop | Piece::WRook | Piece::WQueen
                | Piece::WKing => Option::Some(Player::White),
            _ => Option::Some(Player::Black),
        }
    }

    /// Whether this piece belongs to `player`.
    pub fn is_player(self, player: Player) -> (r: bool)
        ensures
            r == (self.spec_owner() == Option::Some(player)),
    {
        match self.owner() {
            Option::Some(p) => p == player,
            Option::None => false,
        }
    }

    /// The given player's piece of the same kind as `piece`.
    pub open spec fn spec_player_piece(player: Player, piece: Piece) -> Piece {
        match (player, piece) {
            (_, Piece::Empty) => Piece::Empty,
            (Player::White, Piece::WPawn | Piece::BPawn) => Piece::WPawn,
            (Player::White, Piece::WKnight | Piece::BKnight) => Piece::WKnight,
            (Player::White, Piece::WBishop | Piece::BBishop) => Piece::WBishop,
            (Player::White, Piece::WRook | Piece::BRook) => Piece::WRook,
            (Player::White, Piece::WQueen | Piece::BQueen) => Piece::WQueen,
            (Player::White, Piece::WKing | Piece::BKing) => Piece::WKing,
            (Player::Black, Piece::WPawn | Piece::BPawn) => Piece::BPawn,
            (Player::Black, Piece::WKnight | Piece::BKnight) => Piece::BKnight,
            (Player::Black, Piece::WBishop | Piece::BBishop) => Piece::BBishop,
            (Player::Black, Piece::WRook | Piece::BRook) => Piece::BRook,
            (Player::Black, Piece::WQueen | Piece::BQueen) => Piece::BQueen,
            (Player::Black, Piece::WKing | Piece::BKing) => Piece::BKing,
        }
    }

    /// The given player's piece of the same kind as `piece`.
    #[verifier::when_used_as_spec(spec_player_piece)]
    pub fn get_player_piece(player: Player, piece: Piece) -> (r: Piece)
        ensures
            r == Self::spec_player_piece(player, piece),
    {
        match (player, piece) {
            (_, Piece::Empty) => Piece::Empty,
            (Player::White, Piece::WPawn | Piece::BPawn) => Piece::WPawn,
            (Player::White, Piece::WKnight | Piece::BKnight) => Piece::WKnight,
            (Player::White, Piece::WBishop | Piece::BBishop) => Piece::WBishop,
            (Player::White, Piece::WRook | Piece::BRook) => Piece::WRook,
            (Player::White, Piece::WQueen | Piece::BQueen) => Piece::WQueen,
            (Player::White, Piece::WKing | Piece::BKing) => Piece::WKing,
            (Player::Black, Piece::WPawn | Piece::BPawn) => Piece::BPawn,
            (Player::Black, Piece::WKnight | Piece::BKnight) => Piece::BKnight,
            (Player::Black, Piece::WBishop | Piece::BBishop) => Piece::BBishop,
            (Player::Black, Piece::WRook | Piece::BRook) => Piece::BRook,
            (Player::Black, Piece::WQueen | Piece::BQueen) => Piece::BQueen,
            (Player::Black, Piece::WKing | Piece::BKing) => Piece::BKing,
        }
    }

    /// Index of this piece's bitboard, in white-then-black order;
    /// also the sprite-sheet column used by a front end.
    pub open spec fn spec_bitboard_index(self) -> int {
        match self {
            Piece::Empty => 12,
            Piece::WPawn => 0,
            Piece::WKnight => 1,
            Piece::WBishop => 2,
            Piece::WRook => 3,
            Piece::WQueen => 4,
            Piece::WKing => 5,
            Piece::BPawn => 6,
            Piece::BKnight => 7,
            Piece::BBishop => 8,
            Piece::BRook => 9,
            Piece::BQueen => 10,
            Piece::BKing => 11,
        }
    }

    /// Index of this piece's bitboard, in white-then-black order.
    pub fn to_bitboard_index(self) -> (r: usize)
        requires
            self != Piece::Empty,
        ensures
            r == self.spec_bitboard_index(),
            r < 12,
    {
        match self {
            Piece::Empty => 12,
            Piece::WPawn => 0,
            Piece::WKnight => 1,
            Piece::WBishop => 2,
            Piece::WRook => 3,
            Piece::WQueen => 4,
            Piece::WKing => 5,
            Piece::BPawn => 6,
            Piece::BKnight => 7,
            Piece::BBishop => 8,
            Piece::BRook => 9,
            Piece::BQueen => 10,
            Piece::BKing => 11,
        }
    }

    /// The FEN letter of this piece: uppercase for white, lowercase for
    /// black.
    pub open spec fn spec_fen_char(self) -> char {
        match self {
            Piece::Empty => ' ',
            Piece::WPawn => 'P',
            Piece::WKnight => 'N',
            Piece::WBishop => 'B',
            Piece::WRook => 'R',
            Piece::WQueen => 'Q',
            Piece::WKing => 'K',
            Piece::BPawn => 'p',
            Piece::BKnight => 'n',
            Piece::BBishop => 'b',
            Piece::BRook => 'r',
            Piece::BQueen => 'q',
            Piece::BKing => 'k',
        }
    }

    /// The piece a FEN letter names, or `None` if the letter names no piece.
    pub open spec fn spec_from_fen_char(c: char) -> Option<Piece> {
        match c {
            'P' => Option::Some(Piece::WPawn),
            'N' => Option::Some(Piece::WKnight),
            'B' => Option::Some(Piece::WBishop),
            'R' => Option::Some(Piece::WRook),
            'Q' => Option::Some(Piece::WQueen),
            'K' => Option::Some(Piece::WKing),
            'p' => Option::Some(Piece::BPawn),
            'n' => Option::Some(Piece::BKnight),
            'b' => Option::Some(Piece::BBishop),
            'r' => Option::Some(Piece::BRook),
            'q' => Option::Some(Piece::BQueen),
            'k' => Option::Some(Piece::BKing),
            _ => Option::None,
        }
    }

    /// The piece a FEN letter names, or `None` if the letter names no piece.
    #[verifier::when_used_as_spec(spec_from_fen_char)]
    pub fn from_fen_char(c: char) -> (r: Option<Piece>)
        ensures
            r == Self::spec_from_fen_char(c),
    {
        match c {
            'P' => Option::Some(Piece::WPawn),
            'N' => Option::Some(Piece::WKnight),
            'B' => Option::Some(Piece::WBishop),
            'R' => Option::Some(Piece::WRook),
            'Q' => Option::Some(Piece::WQueen),
            'K' => Option::Some(Piece::WKing),
            'p' => Option::Some(Piece::BPawn),
            'n' => Option::Some(Piece::BKnight),
            'b' => Option::Some(Piece::BBishop),
            'r' => Option::Some(Piece::BRook),
            'q' => Option::Some(Piece::BQueen),
            'k' => Option::Some(Piece::BKing),
            _ => Option::None,
        }
    }
}

} // verus!
