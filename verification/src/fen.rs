//! FEN serialization: a four-phase character scanner for parsing and a
//! run-length encoder for writing.
//!
//! The piece-placement field lists rank 7 (the rank FEN calls `8`) first,
//! uppercase letters are white. Parsing reads the placement, side-to-move,
//! castling and en-passant fields and ignores anything after them; writing
//! emits static `0 1` halfmove/fullmove counters.

use vstd::prelude::*;
use vstd::string::*;
use crate::bitboard::{mask_set, BitBoard};
use crate::board::{mask_of, piece_on, with_mask, CastleRights, Position};
use crate::moves::{on_board, sq_at};
use crate::piece::{Piece, Player};
use crate::piece_move::{
    push_file_char, push_rank_char, spec_file_char, spec_file_of_char, spec_rank_char,
    spec_rank_of_char,
};
use crate::square::Square;

verus! {

/// The standard chess starting position.
pub const DEFAULT_FEN: &'static str = "rnbqkbnr/pppppppp/8/8/8/8/PPPPPPPP/RNBQKBNR w KQkq - 0 1";

/// Why a FEN string was rejected.
#[derive(Clone, Copy, Debug, PartialEq, Eq, Structural)]
pub enum FenParseError {
    UnrecognizedPiece,
    UnrecognizedSideToMove,
    UnrecognizedCastling,
    MalformedEnPassant,
}

/// An empty position: no pieces, white to move, no castling rights, no
/// en-passant target.
pub open spec fn spec_empty_position() -> Position {
    Position {
        wp: BitBoard(0),
        wn: BitBoard(0),
        wb: BitBoard(0),
        wr: BitBoard(0),
        wq: BitBoard(0),
        wk: BitBoard(0),
        bp: BitBoard(0),
        bn: BitBoard(0),
        bb: BitBoard(0),
        br: BitBoard(0),
        bq: BitBoard(0),
        bk: BitBoard(0),
        player: Player::White,
        castling: CastleRights {
            white_kingside: false,
            white_queenside: false,
            black_kingside: false,
            black_queenside: false,
        },
        en_passant: Option::None,
    }
}

/// `p` with `pc`'s bit set on `s`.
pub open spec fn spec_place(p: Position, pc: Piece, s: Square) -> Position {
    with_mask(p, pc, mask_set(mask_of(p, pc), s.spec_index() as u64, true))
}

/// `p` with the side to move replaced.
pub open spec fn with_player(p: Position, player: Player) -> Position {
    Position {
        wp: p.wp, wn: p.wn, wb: p.wb, wr: p.wr, wq: p.wq, wk: p.wk,
        bp: p.bp, bn: p.bn, bb: p.bb, br: p.br, bq: p.bq, bk: p.bk,
        player,
        castling: p.castling,
        en_passant: p.en_passant,
    }
}

/// `p` with the castling rights replaced.
pub open spec fn with_castling(p: Position, castling: CastleRights) -> Position {
    Position {
        wp: p.wp, wn: p.wn, wb: p.wb, wr: p.wr, wq: p.wq, wk: p.wk,
        bp: p.bp, bn: p.bn, bb: p.bb, br: p.br, bq: p.bq, bk: p.bk,
        player: p.player,
        castling,
        en_passant: p.en_passant,
    }
}

/// `p` with the en-passant target replaced.
pub open spec fn with_en_passant(p: Position, en_passant: Option<Square>) -> Position {
    Position {
        wp: p.wp, wn: p.wn, wb: p.wb, wr: p.wr, wq: p.wq, wk: p.wk,
        bp: p.bp, bn: p.bn, bb: p.bb, br: p.br, bq: p.bq, bk: p.bk,
        player: p.player,
        castling: p.castling,
        en_passant,
    }
}

/// One castling right switched on by its FEN letter.
pub open spec fn spec_add_right(c: CastleRights, letter: char) -> CastleRights {
    CastleRights {
        white_kingside: c.white_kingside || letter == 'K',
        white_queenside: c.white_queenside || letter == 'Q',
        black_kingside: c.black_kingside || letter == 'k',
        black_queenside: c.black_queenside || letter == 'q',
    }
}

/// The four-phase FEN scanner, one character at a time. `phase` 0 reads the
/// placement grid with a file/rank cursor, 1 the side to move, 2 the
/// castling rights, 3 the en-passant field (`epf` holds a seen file letter
/// awaiting its rank digit); a space advances the phase, and any phase
/// beyond 3 ignores the rest of the string.
pub open spec fn spec_parse_fen(
    s: Seq<char>,
    i: int,
    pos: Position,
    phase: int,
    file: int,
    rank: int,
    epf: Option<u8>,
) -> Result<Position, FenParseError>
    decreases s.len() - i,
{
    if i < 0 || i >= s.len() {
        Result::Ok(pos)
    } else {
        let c = s[i];
        if c == ' ' {
            let np = if phase >= 4 { 4int } else { phase + 1 };
            spec_parse_fen(s, i + 1, pos, np, file, rank, epf)
        } else if phase == 0 {
            if spec_rank_of_char(c).is_some() {
                let d = spec_rank_of_char(c).unwrap() as int + 1;
                let nf = if file + d > 9 { 9int } else { file + d };
                spec_parse_fen(s, i + 1, pos, 0, nf, rank, epf)
            } else if c == '/' {
                let nr = if rank <= 0 { -1int } else { rank - 1 };
                spec_parse_fen(s, i + 1, pos, 0, 0, nr, epf)
            } else {
                match Piece::spec_from_fen_char(c) {
                    Option::Some(pc) => if on_board(file, rank) {
                        spec_parse_fen(
                            s,
                            i + 1,
                            spec_place(pos, pc, sq_at(file, rank)),
                            0,
                            file + 1,
                            rank,
                            epf,
                        )
                    } else {
                        Result::Err(FenParseError::UnrecognizedPiece)
                    },
                    Option::None => Result::Err(FenParseError::UnrecognizedPiece),
                }
            }
        } else if phase == 1 {
            if c == 'w' {
                spec_parse_fen(s, i + 1, with_player(pos, Player::White), 1, file, rank, epf)
            } else if c == 'b' {
                spec_parse_fen(s, i + 1, with_player(pos, Player::Black), 1, file, rank, epf)
            } else {
                Result::Err(FenParseError::UnrecognizedSideToMove)
            }
        } else if phase == 2 {
            if c == 'K' || c == 'Q' || c == 'k' || c == 'q' {
                spec_parse_fen(
                    s,
                    i + 1,
                    with_castling(pos, spec_add_right(pos.castling, c)),
                    2,
                    file,
                    rank,
                    epf,
                )
            } else if c == '-' {
                spec_parse_fen(s, i + 1, pos, 2, file, rank, epf)
            } else {
                Result::Err(FenParseError::UnrecognizedCastling)
            }
        } else if phase == 3 {
            if c == '-' && epf.is_none() {
                spec_parse_fen(s, i + 1, pos, 3, file, rank, epf)
            } else if spec_file_of_char(c).is_some() && epf.is_none() {
                spec_parse_fen(s, i + 1, pos, 3, file, rank, spec_file_of_char(c))
            } else if spec_rank_of_char(c).is_some() && epf.is_some() {
                spec_parse_fen(
                    s,
                    i + 1,
                    with_en_passant(
                        pos,
                        Option::Some(
                            Square { file: epf.unwrap(), rank: spec_rank_of_char(c).unwrap() },
                        ),
                    ),
                    3,
                    file,
                    rank,
                    Option::None,
                )
            } else {
                Result::Err(FenParseError::MalformedEnPassant)
            }
        } else {
            spec_parse_fen(s, i + 1, pos, phase, file, rank, epf)
        }
    }
}

/// The position a FEN string denotes, or the reason it denotes none.
pub open spec fn spec_from_fen(s: Seq<char>) -> Result<Position, FenParseError> {
    spec_parse_fen(s, 0, spec_empty_position(), 0, 0, 7, Option::None)
}

/// Parse a FEN string. A malformed string is rejected with the phase that
/// failed; nothing after the en-passant field is read.
#[verifier::rlimit(100)]
pub fn parse_fen(s: &str) -> (r: Result<Position, FenParseError>)
    ensures
        r == spec_from_fen(s@),
{
    let n = s.unicode_len();
    let mut pos = Position {
        wp: BitBoard(0), wn: BitBoard(0), wb: BitBoard(0), wr: BitBoard(0), wq: BitBoard(0),
        wk: BitBoard(0), bp: BitBoard(0), bn: BitBoard(0), bb: BitBoard(0), br: BitBoard(0),
        bq: BitBoard(0), bk: BitBoard(0),
        player: Player::White,
        castling: CastleRights {
            white_kingside: false,
            white_queenside: false,
            black_kingside: false,
            black_queenside: false,
        },
        en_passant: Option::None,
    };
    let mut phase: u8 = 0;
    let mut file: i16 = 0;
    let mut rank: i16 = 7;
    let mut epf: Option<u8> = Option::None;
    let mut i: usize = 0;
    while i < n
        invariant
            n == s@.len(),
            i <= n,
            0 <= phase <= 4,
            -1 <= rank <= 7,
            0 <= file <= 9,
            spec_from_fen(s@) == spec_parse_fen(
                s@,
                i as int,
                pos,
                phase as int,
                file as int,
                rank as int,
                epf,
            ),
        decreases n - i,
    {
        let c = s.get_char(i);
        if c == ' ' {
            if phase < 4 {
                phase = phase + 1;
            }
        } else if phase == 0 {
            let d = crate::piece_move::rank_of_char(c);
            if d.is_some() {
                let dv = d.unwrap() as i16 + 1;
                file = if file + dv > 9 {
                    9
                } else {
                    file + dv
                };
            } else if c == '/' {
                rank = if rank <= 0 {
                    -1
                } else {
                    rank - 1
                };
                file = 0;
            } else {
                let pc = Piece::from_fen_char(c);
                match pc {
                    Option::Some(pc) => {
                        if file >= 0 && file < 8 && rank >= 0 && rank < 8 {
                            let sq = Square { file: file as u8, rank: rank as u8 };
                            pos.set_piece_bit(pc, sq, true);
                            file = file + 1;
                        } else {
                            return Result::Err(FenParseError::UnrecognizedPiece);
                        }
                    },
                    Option::None => {
                        return Result::Err(FenParseError::UnrecognizedPiece);
                    },
                }
            }
        } else if phase == 1 {
            if c == 'w' {
                pos.player = Player::White;
            } else if c == 'b' {
                pos.player = Player::Black;
            } else {
                return Result::Err(FenParseError::UnrecognizedSideToMove);
            }
        } else if phase == 2 {
            if c == 'K' {
                pos.castling = CastleRights { white_kingside: true, ..pos.castling };
            } else if c == 'Q' {
                pos.castling = CastleRights { white_queenside: true, ..pos.castling };
            } else if c == 'k' {
                pos.castling = CastleRights { black_kingside: true, ..pos.castling };
            } else if c == 'q' {
                pos.castling = CastleRights { black_queenside: true, ..pos.castling };
            } else if c != '-' {
                return Result::Err(FenParseError::UnrecognizedCastling);
            }
        } else if phase == 3 {
            let fl = crate::piece_move::file_of_char(c);
            let rk = crate::piece_move::rank_of_char(c);
            if c == '-' && epf.is_none() {
            } else if fl.is_some() && epf.is_none() {
                epf = fl;
            } else if rk.is_some() && epf.is_some() {
                pos.en_passant = Option::Some(Square { file: epf.unwrap(), rank: rk.unwrap() });
                epf = Option::None;
            } else {
                return Result::Err(FenParseError::MalformedEnPassant);
            }
        }
        i = i + 1;
    }
    Result::Ok(pos)
}

} // verus!

verus! {

/// The placement text of one rank from `file` on, with `pending` empty
/// squares seen but not yet written: empties are run-length encoded as a
/// digit, occupants as their FEN letters.
pub open spec fn spec_fen_rank(p: Position, rank: int, file: int, pending: int) -> Seq<char>
    decreases 8 - file,
{
    if file < 0 || file >= 8 {
        if pending > 0 {
            seq![spec_rank_char(pending - 1)]
        } else {
            Seq::empty()
        }
    } else {
        let pc = piece_on(p, sq_at(file, rank));
        if pc == Piece::Empty {
            spec_fen_rank(p, rank, file + 1, pending + 1)
        } else {
            (if pending > 0 {
                seq![spec_rank_char(pending - 1)]
            } else {
                Seq::empty()
            }) + seq![pc.spec_fen_char()] + spec_fen_rank(p, rank, file + 1, 0)
        }
    }
}

/// The placement field from `rank` down to rank 0, ranks separated by `/`.
pub open spec fn spec_fen_placement(p: Position, rank: int) -> Seq<char>
    decreases rank,
{
    if rank <= 0 {
        spec_fen_rank(p, 0, 0, 0)
    } else {
        spec_fen_rank(p, rank, 0, 0) + seq!['/'] + spec_fen_placement(p, rank - 1)
    }
}

/// The castling-rights field: the letters of the intact rights, `-` if none
/// is.
pub open spec fn spec_castle_chars(c: CastleRights) -> Seq<char> {
    if !c.white_kingside && !c.white_queenside && !c.black_kingside && !c.black_queenside {
        seq!['-']
    } else {
        (if c.white_kingside { seq!['K'] } else { Seq::empty() })
        + (if c.white_queenside { seq!['Q'] } else { Seq::empty() })
        + (if c.black_kingside { seq!['k'] } else { Seq::empty() })
        + (if c.black_queenside { seq!['q'] } else { Seq::empty() })
    }
}

/// The en-passant field: the target square or `-`.
pub open spec fn spec_ep_chars(ep: Option<Square>) -> Seq<char> {
    match ep {
        Option::Some(s) => seq![spec_file_char(s.file as int), spec_rank_char(s.rank as int)],
        Option::None => seq!['-'],
    }
}

/// The FEN text of a position: placement (rank 7 first), side to move,
/// castling rights, en-passant target, and static `0 1` counters.
pub open spec fn spec_to_fen(p: Position) -> Seq<char> {
    spec_fen_placement(p, 7) + seq![' '] + seq![
        if p.player == Player::White {
            'w'
        } else {
            'b'
        },
    ] + seq![' '] + spec_castle_chars(p.castling) + seq![' '] + spec_ep_chars(p.en_passant) + seq![
        ' ',
        '0',
        ' ',
        '1',
    ]
}

/// Append the FEN letter of a piece.
fn push_piece_char(out: &mut String, pc: Piece)
    requires
        pc != Piece::Empty,
    ensures
        final(out)@ == old(out)@.push(pc.spec_fen_char()),
{
    proof {
        reveal_strlit("P");
        reveal_strlit("N");
        reveal_strlit("B");
        reveal_strlit("R");
        reveal_strlit("Q");
        reveal_strlit("K");
        reveal_strlit("p");
        reveal_strlit("n");
        reveal_strlit("b");
        reveal_strlit("r");
        reveal_strlit("q");
        reveal_strlit("k");
    }
    match pc {
        Piece::Empty => {},
        Piece::WPawn => out.append("P"),
        Piece::WKnight => out.append("N"),
        Piece::WBishop => out.append("B"),
        Piece::WRook => out.append("R"),
        Piece::WQueen => out.append("Q"),
        Piece::WKing => out.append("K"),
        Piece::BPawn => out.append("p"),
        Piece::BKnight => out.append("n"),
        Piece::BBishop => out.append("b"),
        Piece::BRook => out.append("r"),
        Piece::BQueen => out.append("q"),
        Piece::BKing => out.append("k"),
    }
    proof {
        assert(out@ =~= old(out)@.push(pc.spec_fen_char()));
    }
}

/// Write one rank's placement text from `file` on.
fn write_fen_rank(p: &Position, rank: u8, file: u8, pending: u8, out: &mut String)
    requires
        rank < 8,
        file <= 8,
        pending <= file,
    ensures
        final(out)@ == old(out)@ + spec_fen_rank(*p, rank as int, file as int, pending as int),
    decreases 8 - file,
{
    if file >= 8 {
        if pending > 0 {
            push_rank_char(out, pending - 1);
        }
        proof {
            assert(out@ =~= old(out)@ + spec_fen_rank(
                *p,
                rank as int,
                file as int,
                pending as int,
            ));
        }
    } else {
        let pc = p.get_piece(Square { file, rank });
        if pc == Piece::Empty {
            write_fen_rank(p, rank, file + 1, pending + 1, out);
        } else {
            if pending > 0 {
                push_rank_char(out, pending - 1);
            }
            push_piece_char(out, pc);
            let ghost mid = out@;
            write_fen_rank(p, rank, file + 1, 0, out);
            proof {
                assert(out@ =~= old(out)@ + spec_fen_rank(
                    *p,
                    rank as int,
                    file as int,
                    pending as int,
                ));
            }
        }
    }
}

/// Write the placement field from `rank` down to rank 0.
fn write_fen_placement(p: &Position, rank: u8, out: &mut String)
    requires
        rank < 8,
    ensures
        final(out)@ == old(out)@ + spec_fen_placement(*p, rank as int),
    decreases rank,
{
    write_fen_rank(p, rank, 0, 0, out);
    if rank > 0 {
        proof {
            reveal_strlit("/");
        }
        out.append("/");
        let ghost mid = out@;
        write_fen_placement(p, rank - 1, out);
        proof {
            assert(out@ =~= old(out)@ + spec_fen_placement(*p, rank as int));
        }
    }
}

/// Write the FEN text of a position: the inverse of [`parse_fen`] on
/// round-trippable positions. The halfmove and fullmove counters are
/// written statically as `0 1`.
#[verifier::rlimit(100)]
pub fn write_fen(p: &Position) -> (r: String)
    ensures
        r@ == spec_to_fen(*p),
{
    let mut out = String::new();
    write_fen_placement(p, 7, &mut out);
    proof {
        reveal_strlit(" ");
        reveal_strlit("w");
        reveal_strlit("b");
        reveal_strlit("-");
        reveal_strlit("K");
        reveal_strlit("Q");
        reveal_strlit("k");
        reveal_strlit("q");
        reveal_strlit(" 0 1");
    }
    let ghost a0 = spec_fen_placement(*p, 7);
    out.append(" ");
    let ghost a1 = a0 + seq![' '];
    proof {
        assert(out@ =~= a1);
    }
    match p.player {
        Player::White => out.append("w"),
        Player::Black => out.append("b"),
    }
    let ghost a2 = a1 + seq![
        if p.player == Player::White {
            'w'
        } else {
            'b'
        },
    ];
    proof {
        assert(out@ =~= a2);
    }
    out.append(" ");
    let ghost a3 = a2 + seq![' '];
    proof {
        assert(out@ =~= a3);
    }
    let c = p.castling;
    if !c.white_kingside && !c.white_queenside && !c.black_kingside && !c.black_queenside {
        out.append("-");
        proof {
            assert(out@ =~= a3 + spec_castle_chars(c));
        }
    } else {
        if c.white_kingside {
            out.append("K");
        }
        let ghost b1 = a3 + (if c.white_kingside { seq!['K'] } else { Seq::<char>::empty() });
        proof {
            assert(out@ =~= b1);
        }
        if c.white_queenside {
            out.append("Q");
        }
        let ghost b2 = b1 + (if c.white_queenside { seq!['Q'] } else { Seq::<char>::empty() });
        proof {
            assert(out@ =~= b2);
        }
        if c.black_kingside {
            out.append("k");
        }
        let ghost b3 = b2 + (if c.black_kingside { seq!['k'] } else { Seq::<char>::empty() });
        proof {
            assert(out@ =~= b3);
        }
        if c.black_queenside {
            out.append("q");
        }
        let ghost b4 = b3 + (if c.black_queenside { seq!['q'] } else { Seq::<char>::empty() });
        proof {
            assert(out@ =~= b4);
            assert(out@ =~= a3 + spec_castle_chars(c));
        }
    }
    let ghost a4 = a3 + spec_castle_chars(c);
    out.append(" ");
    let ghost a5 = a4 + seq![' '];
    proof {
        assert(out@ =~= a5);
    }
    match p.en_passant {
        Option::Some(sq) => {
            let f = if sq.file < 8 {
                sq.file
            } else {
                7
            };
            let r = if sq.rank < 8 {
                sq.rank
            } else {
                7
            };
            push_file_char(&mut out, f);
            push_rank_char(&mut out, r);
            proof {
                assert(spec_file_char(f as int) == spec_file_char(sq.file as int));
                assert(spec_rank_char(r as int) == spec_rank_char(sq.rank as int));
                assert(out@ =~= a5 + spec_ep_chars(p.en_passant));
            }
        },
        Option::None => {
            out.append("-");
            proof {
                assert(out@ =~= a5 + spec_ep_chars(p.en_passant));
            }
        },
    }
    let ghost a6 = a5 + spec_ep_chars(p.en_passant);
    proof {
        assert(out@ =~= a6);
    }
    out.append(" 0 1");
    proof {
        assert(out@ =~= a6 + seq![' ', '0', ' ', '1']);
        assert(out@ =~= spec_to_fen(*p));
    }
    out
}

} // verus!
