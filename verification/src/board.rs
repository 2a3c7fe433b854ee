//! The board position: one bitboard per piece kind, side to move, castling
//! rights and en-passant target, together with the exact transition semantics
//! of applying and undoing a move.

use vstd::prelude::*;
use crate::bitboard::{mask_get, mask_set, sq_bit, BitBoard, lemma_mask_set_get, lemma_mask_get_zero, lemma_mask_clear_then_set, lemma_mask_set_then_clear, lemma_mask_move_then_unmove};

use crate::piece::{Piece, Player};
use crate::piece_move::{spec_promo_char, PieceMove, PieceMoveType};
use crate::square::Square;
use crate::move_history::{HistoryMove, MoveHistory};

verus! {

/// Which castling rights are still intact, kingside and queenside for each
/// player.
#[derive(Clone, Copy, Debug, PartialEq, Eq, Structural)]
pub struct CastleRights {
    pub white_kingside: bool,
    pub white_queenside: bool,
    pub black_kingside: bool,
    pub black_queenside: bool,
}

impl CastleRights {
    /// Rights at the start of a game: all four intact.
    pub fn all() -> (r: CastleRights)
        ensures
            r == (CastleRights {
                white_kingside: true,
                white_queenside: true,
                black_kingside: true,
                black_queenside: true,
            }),
    {
        CastleRights {
            white_kingside: true,
            white_queenside: true,
            black_kingside: true,
            black_queenside: true,
        }
    }

    /// The kingside right of `player`.
    pub open spec fn spec_kingside(self, player: Player) -> bool {
        match player {
            Player::White => self.white_kingside,
            Player::Black => self.black_kingside,
        }
    }

    /// The queenside right of `player`.
    pub open spec fn spec_queenside(self, player: Player) -> bool {
        match player {
            Player::White => self.white_queenside,
            Player::Black => self.black_queenside,
        }
    }

    /// The kingside right of `player`.
    #[verifier::when_used_as_spec(spec_kingside)]
    pub fn kingside(self, player: Player) -> (r: bool)
        ensures
            r == self.spec_kingside(player),
    {
        match player {
            Player::White => self.white_kingside,
            Player::Black => self.black_kingside,
        }
    }

    /// The queenside right of `player`.
    #[verifier::when_used_as_spec(spec_queenside)]
    pub fn queenside(self, player: Player) -> (r: bool)
        ensures
            r == self.spec_queenside(player),
    {
        match player {
            Player::White => self.white_queenside,
            Player::Black => self.black_queenside,
        }
    }
}

/// A full board position: one bitboard per piece kind, the side to move, the
/// castling rights still intact, and the en-passant target square if the last
/// move was a pawn double push.
#[derive(Clone, Copy, Debug)]
#[verifier::ext_equal]
pub struct Position {
    pub wp: BitBoard,
    pub wn: BitBoard,
    pub wb: BitBoard,
    pub wr: BitBoard,
    pub wq: BitBoard,
    pub wk: BitBoard,
    pub bp: BitBoard,
    pub bn: BitBoard,
    pub bb: BitBoard,
    pub br: BitBoard,
    pub bq: BitBoard,
    pub bk: BitBoard,
    pub player: Player,
    pub castling: CastleRights,
    pub en_passant: Option<Square>,
}

/// The bitboard mask of piece kind `pc` in `p` (the empty kind has no
/// storage and reads as the empty mask).
pub open spec fn mask_of(p: Position, pc: Piece) -> u64 {
    match pc {
        Piece::Empty => 0u64,
        Piece::WPawn => p.wp.0,
        Piece::WKnight => p.wn.0,
        Piece::WBishop => p.wb.0,
        Piece::WRook => p.wr.0,
        Piece::WQueen => p.wq.0,
        Piece::WKing => p.wk.0,
        Piece::BPawn => p.bp.0,
        Piece::BKnight => p.bn.0,
        Piece::BBishop => p.bb.0,
        Piece::BRook => p.br.0,
        Piece::BQueen => p.bq.0,
        Piece::BKing => p.bk.0,
    }
}

/// `p` with the mask of `pc` replaced by `m`; replacing the mask of the
/// empty kind changes nothing.
pub open spec fn with_mask(p: Position, pc: Piece, m: u64) -> Position {
    Position {
        wp: if pc == Piece::WPawn { BitBoard(m) } else { p.wp },
        wn: if pc == Piece::WKnight { BitBoard(m) } else { p.wn },
        wb: if pc == Piece::WBishop { BitBoard(m) } else { p.wb },
        wr: if pc == Piece::WRook { BitBoard(m) } else { p.wr },
        wq: if pc == Piece::WQueen { BitBoard(m) } else { p.wq },
        wk: if pc == Piece::WKing { BitBoard(m) } else { p.wk },
        bp: if pc == Piece::BPawn { BitBoard(m) } else { p.bp },
        bn: if pc == Piece::BKnight { BitBoard(m) } else { p.bn },
        bb: if pc == Piece::BBishop { BitBoard(m) } else { p.bb },
        br: if pc == Piece::BRook { BitBoard(m) } else { p.br },
        bq: if pc == Piece::BQueen { BitBoard(m) } else { p.bq },
        bk: if pc == Piece::BKing { BitBoard(m) } else { p.bk },
        player: p.player,
        castling: p.castling,
        en_passant: p.en_passant,
    }
}

/// The occupant of square `s` in `p`: the first piece kind whose bit is set,
/// or the empty kind if none is.
pub open spec fn piece_on(p: Position, s: Square) -> Piece {
    if sq_bit(mask_of(p, Piece::WPawn), s) { Piece::WPawn }
    else if sq_bit(mask_of(p, Piece::WKnight), s) { Piece::WKnight }
    else if sq_bit(mask_of(p, Piece::WBishop), s) { Piece::WBishop }
    else if sq_bit(mask_of(p, Piece::WRook), s) { Piece::WRook }
    else if sq_bit(mask_of(p, Piece::WQueen), s) { Piece::WQueen }
    else if sq_bit(mask_of(p, Piece::WKing), s) { Piece::WKing }
    else if sq_bit(mask_of(p, Piece::BPawn), s) { Piece::BPawn }
    else if sq_bit(mask_of(p, Piece::BKnight), s) { Piece::BKnight }
    else if sq_bit(mask_of(p, Piece::BBishop), s) { Piece::BBishop }
    else if sq_bit(mask_of(p, Piece::BRook), s) { Piece::BRook }
    else if sq_bit(mask_of(p, Piece::BQueen), s) { Piece::BQueen }
    else if sq_bit(mask_of(p, Piece::BKing), s) { Piece::BKing }
    else { Piece::Empty }
}

/// Every square holds at most one piece: no bit index is set in the masks of
/// two distinct piece kinds.
pub open spec fn disjoint(p: Position) -> bool {
    forall|s: Square, a: Piece, b: Piece|
        #![trigger sq_bit(mask_of(p, a), s), sq_bit(mask_of(p, b), s)]
        s.wf() && a != b ==> !(sq_bit(mask_of(p, a), s) && sq_bit(mask_of(p, b), s))
}

/// `player` has at least one king on the board.
pub open spec fn has_king(p: Position, player: Player) -> bool {
    exists|s: Square| s.wf() && #[trigger] sq_bit(
        mask_of(p, Piece::spec_player_piece(player, Piece::WKing)),
        s,
    )
}

/// `player` has at most one king on the board.
pub open spec fn king_unique(p: Position, player: Player) -> bool {
    forall|s: Square, t: Square|
        #![trigger sq_bit(mask_of(p, Piece::spec_player_piece(player, Piece::WKing)), s),
            sq_bit(mask_of(p, Piece::spec_player_piece(player, Piece::WKing)), t)]
        s.wf() && t.wf() && sq_bit(mask_of(p, Piece::spec_player_piece(player, Piece::WKing)), s)
            && sq_bit(mask_of(p, Piece::spec_player_piece(player, Piece::WKing)), t) ==> s == t
}

/// `player` has exactly one king on the board.
pub open spec fn one_king(p: Position, player: Player) -> bool {
    has_king(p, player) && king_unique(p, player)
}

/// The structural invariant of a position: pieces do not overlap, each side
/// has exactly one king, and any en-passant target lies on the board.
pub open spec fn position_wf(p: Position) -> bool {
    &&& disjoint(p)
    &&& one_king(p, Player::White)
    &&& one_king(p, Player::Black)
    &&& match p.en_passant {
        Option::Some(s) => s.wf(),
        Option::None => true,
    }
}

/// A set bit of a non-empty kind names exactly the occupant `piece_on`
/// reports.
pub proof fn lemma_piece_on_bit(p: Position, s: Square, a: Piece)
    requires
        disjoint(p),
        s.wf(),
        a != Piece::Empty,
    ensures
        sq_bit(mask_of(p, a), s) <==> piece_on(p, s) == a,
{
}

impl Position {
    /// The bitboard mask of piece kind `pc`.
    pub fn get_mask(&self, pc: Piece) -> (r: u64)
        ensures
            r == mask_of(*self, pc),
    {
        match pc {
            Piece::Empty => 0u64,
            Piece::WPawn => self.wp.0,
            Piece::WKnight => self.wn.0,
            Piece::WBishop => self.wb.0,
            Piece::WRook => self.wr.0,
            Piece::WQueen => self.wq.0,
            Piece::WKing => self.wk.0,
            Piece::BPawn => self.bp.0,
            Piece::BKnight => self.bn.0,
            Piece::BBishop => self.bb.0,
            Piece::BRook => self.br.0,
            Piece::BQueen => self.bq.0,
            Piece::BKing => self.bk.0,
        }
    }

    /// Replace the bitboard mask of piece kind `pc`.
    pub fn set_mask(&mut self, pc: Piece, m: u64)
        ensures
            *final(self) == with_mask(*old(self), pc, m),
    {
        match pc {
            Piece::Empty => {}
            Piece::WPawn => { self.wp = BitBoard(m); }
            Piece::WKnight => { self.wn = BitBoard(m); }
            Piece::WBishop => { self.wb = BitBoard(m); }
            Piece::WRook => { self.wr = BitBoard(m); }
            Piece::WQueen => { self.wq = BitBoard(m); }
            Piece::WKing => { self.wk = BitBoard(m); }
            Piece::BPawn => { self.bp = BitBoard(m); }
            Piece::BKnight => { self.bn = BitBoard(m); }
            Piece::BBishop => { self.bb = BitBoard(m); }
            Piece::BRook => { self.br = BitBoard(m); }
            Piece::BQueen => { self.bq = BitBoard(m); }
            Piece::BKing => { self.bk = BitBoard(m); }
        }
    }

    /// Set or clear the bit of square `s` in the mask of `pc`.
    pub fn set_piece_bit(&mut self, pc: Piece, s: Square, value: bool)
        requires
            s.wf(),
        ensures
            *final(self) == with_mask(
                *old(self),
                pc,
                mask_set(mask_of(*old(self), pc), s.spec_index() as u64, value),
            ),
    {
        let m = self.get_mask(pc);
        let i = s.index();
        self.set_mask(pc, if value {
            (m & !(1u64 << (i as u64))) | (1u64 << (i as u64))
        } else {
            m & !(1u64 << (i as u64))
        });
    }

    /// The occupant of square `s`.
    pub fn get_piece(&self, s: Square) -> (r: Piece)
        requires
            s.wf(),
        ensures
            r == piece_on(*self, s),
    {
        if self.wp.get_bit_at(s) { Piece::WPawn }
        else if self.wn.get_bit_at(s) { Piece::WKnight }
        else if self.wb.get_bit_at(s) { Piece::WBishop }
        else if self.wr.get_bit_at(s) { Piece::WRook }
        else if self.wq.get_bit_at(s) { Piece::WQueen }
        else if self.wk.get_bit_at(s) { Piece::WKing }
        else if self.bp.get_bit_at(s) { Piece::BPawn }
        else if self.bn.get_bit_at(s) { Piece::BKnight }
        else if self.bb.get_bit_at(s) { Piece::BBishop }
        else if self.br.get_bit_at(s) { Piece::BRook }
        else if self.bq.get_bit_at(s) { Piece::BQueen }
        else if self.bk.get_bit_at(s) { Piece::BKing }
        else { Piece::Empty }
    }

    /// The square of `player`'s king.
    pub fn find_king(&self, player: Player) -> (r: Square)
        requires
            has_king(*self, player),
        ensures
            r.wf(),
            sq_bit(mask_of(*self, Piece::spec_player_piece(player, Piece::WKing)), r),
    {
        let king = Piece::get_player_piece(player, Piece::WKing);
        let mask = BitBoard(self.get_mask(king));
        let mut i: u8 = 0;
        while i < 64
            invariant
                i <= 64,
                mask.0 == mask_of(*self, Piece::spec_player_piece(player, Piece::WKing)),
                forall|j: u64| j < i ==> !mask_get(mask.0, j),
            decreases 64 - i,
        {
            if mask.get_bit(i) {
                let s = Square::from_index(i);
                return s;
            }
            i = i + 1;
        }
        proof {
            let s = choose|s: Square| s.wf() && sq_bit(
                mask_of(*self, Piece::spec_player_piece(player, Piece::WKing)),
                s,
            );
            assert(s.spec_index() < 64);
            assert(false);
        }
        Square::new(0, 0)
    }
}

} // verus!

verus! {

/// The square an en-passant capture removes the enemy pawn from: the file
/// moved to, on the rank moved from.
pub open spec fn ep_capture_square(m: PieceMove) -> Square {
    Square { file: m.to.file, rank: m.from.rank }
}

/// The rook's own square in the castling `m` describes (`m` moves the king
/// two files toward the rook).
pub open spec fn castle_rook_from(m: PieceMove) -> Square {
    if m.to.file == 6 {
        Square { file: 7, rank: m.from.rank }
    } else {
        Square { file: 0, rank: m.from.rank }
    }
}

/// The square castling relocates the rook to: just across the king.
pub open spec fn castle_rook_to(m: PieceMove) -> Square {
    if m.to.file == 6 {
        Square { file: 5, rank: m.from.rank }
    } else {
        Square { file: 3, rank: m.from.rank }
    }
}

/// The concrete kind of move `m` performs on `p`, resolved from the board
/// context alone:
/// a pawn stepping diagonally onto the en-passant target captures en
/// passant; a king stepping two files castles; a pawn reaching the far rank
/// promotes (to the kind `m` carries, or to a queen); anything else is a
/// normal move.
pub open spec fn resolve_type(p: Position, m: PieceMove) -> PieceMoveType {
    let pc = piece_on(p, m.from);
    if (pc == Piece::WPawn || pc == Piece::BPawn) && m.from.file != m.to.file && p.en_passant
        == Option::Some(m.to) && piece_on(p, m.to) == Piece::Empty && piece_on(
        p,
        ep_capture_square(m),
    ) == (if pc == Piece::WPawn { Piece::BPawn } else { Piece::WPawn }) {
        PieceMoveType::EnPassant
    } else if (pc == Piece::WKing || pc == Piece::BKing) && (m.to.file == m.from.file + 2
        || m.to.file + 2 == m.from.file) {
        PieceMoveType::Castling
    } else if (pc == Piece::WPawn && m.to.rank == 7) || (pc == Piece::BPawn && m.to.rank == 0) {
        match m.move_type {
            PieceMoveType::Promotion(q) => PieceMoveType::Promotion(q),
            _ => PieceMoveType::Promotion(
                if pc == Piece::WPawn {
                    Piece::WQueen
                } else {
                    Piece::BQueen
                },
            ),
        }
    } else {
        PieceMoveType::Normal
    }
}

/// The square `m` captures on: the en-passant capture square for an
/// en-passant move, the destination otherwise.
pub open spec fn capture_square(p: Position, m: PieceMove) -> Square {
    if resolve_type(p, m) == PieceMoveType::EnPassant {
        ep_capture_square(m)
    } else {
        m.to
    }
}

/// The piece `m` captures (the empty kind if none).
pub open spec fn captured_piece_of(p: Position, m: PieceMove) -> Piece {
    piece_on(p, capture_square(p, m))
}

/// The piece standing on `m.to` after the move: the promoted kind for a
/// promotion, the moved piece otherwise.
pub open spec fn placed_piece(p: Position, m: PieceMove) -> Piece {
    match resolve_type(p, m) {
        PieceMoveType::Promotion(q) => q,
        _ => piece_on(p, m.from),
    }
}

/// The castling rights left intact after `m`: a right survives unless the
/// move leaves or enters the king or rook home square it depends on.
pub open spec fn rights_after(p: Position, m: PieceMove) -> CastleRights {
    CastleRights {
        white_kingside: p.castling.white_kingside && m.from != (Square { file: 4, rank: 0 })
            && m.from != (Square { file: 7, rank: 0 }) && m.to != (Square { file: 7, rank: 0 }),
        white_queenside: p.castling.white_queenside && m.from != (Square { file: 4, rank: 0 })
            && m.from != (Square { file: 0, rank: 0 }) && m.to != (Square { file: 0, rank: 0 }),
        black_kingside: p.castling.black_kingside && m.from != (Square { file: 4, rank: 7 })
            && m.from != (Square { file: 7, rank: 7 }) && m.to != (Square { file: 7, rank: 7 }),
        black_queenside: p.castling.black_queenside && m.from != (Square { file: 4, rank: 7 })
            && m.from != (Square { file: 0, rank: 7 }) && m.to != (Square { file: 0, rank: 7 }),
    }
}

/// The en-passant target after `m`: the skipped square when a pawn double
/// pushes, cleared otherwise.
pub open spec fn ep_after(p: Position, m: PieceMove) -> Option<Square> {
    let pc = piece_on(p, m.from);
    if pc == Piece::WPawn && m.from.file == m.to.file && m.to.rank == m.from.rank + 2 {
        Option::Some(Square { file: m.from.file, rank: (m.from.rank + 1) as u8 })
    } else if pc == Piece::BPawn && m.from.file == m.to.file && m.from.rank == m.to.rank + 2 {
        Option::Some(Square { file: m.from.file, rank: (m.from.rank - 1) as u8 })
    } else {
        Option::None
    }
}

/// The position after playing `m` on `p`: the capture (if any) is removed,
/// the moved piece's bit travels from source to destination (a promotion
/// sets the promoted kind instead), castling also relocates the rook, the
/// castling rights and en-passant target are updated, and the side to move
/// flips.
pub open spec fn apply_pos(p: Position, m: PieceMove) -> Position {
    let pc = piece_on(p, m.from);
    let cap_sq = capture_square(p, m);
    let captured = piece_on(p, cap_sq);
    let placed = placed_piece(p, m);
    let p1 = if captured != Piece::Empty {
        with_mask(p, captured, mask_set(mask_of(p, captured), cap_sq.spec_index() as u64, false))
    } else {
        p
    };
    let p2 = with_mask(p1, pc, mask_set(mask_of(p1, pc), m.from.spec_index() as u64, false));
    let p3 = with_mask(p2, placed, mask_set(mask_of(p2, placed), m.to.spec_index() as u64, true));
    let p4 = if resolve_type(p, m) == PieceMoveType::Castling {
        let rook = if pc == Piece::WKing {
            Piece::WRook
        } else {
            Piece::BRook
        };
        let q1 = with_mask(
            p3,
            rook,
            mask_set(mask_of(p3, rook), castle_rook_from(m).spec_index() as u64, false),
        );
        with_mask(
            q1,
            rook,
            mask_set(mask_of(q1, rook), castle_rook_to(m).spec_index() as u64, true),
        )
    } else {
        p3
    };
    Position {
        wp: p4.wp,
        wn: p4.wn,
        wb: p4.wb,
        wr: p4.wr,
        wq: p4.wq,
        wk: p4.wk,
        bp: p4.bp,
        bn: p4.bn,
        bb: p4.bb,
        br: p4.br,
        bq: p4.bq,
        bk: p4.bk,
        player: p.player.spec_other(),
        castling: rights_after(p, m),
        en_passant: ep_after(p, m),
    }
}

/// The history record that makes `m` invertible: the resolved move, the
/// captured piece, and the en-passant target and castling rights that held
/// before.
pub open spec fn history_of(p: Position, m: PieceMove) -> HistoryMove {
    HistoryMove {
        piece_move: PieceMove { from: m.from, to: m.to, move_type: resolve_type(p, m) },
        captured_piece: if captured_piece_of(p, m) == Piece::Empty {
            Option::None
        } else {
            Option::Some(captured_piece_of(p, m))
        },
        en_passant_before: p.en_passant,
        castling_before: p.castling,
    }
}

/// The position `h` was applied to, reconstructed from the position after
/// it: the moved piece's bit travels back (a promotion turns back into a
/// pawn), the rook returns for a castling, the captured piece is restored on
/// its capture square, and the snapshotted rights and en-passant target are
/// reinstated.
pub open spec fn undo_pos(p2: Position, h: HistoryMove) -> Position {
    let m = h.piece_move;
    let mover_now = piece_on(p2, m.to);
    let original = match m.move_type {
        PieceMoveType::Promotion(_) => match mover_now.spec_owner() {
            Option::Some(pl) => Piece::spec_player_piece(pl, Piece::WPawn),
            Option::None => Piece::Empty,
        },
        _ => mover_now,
    };
    let u1 = with_mask(
        p2,
        mover_now,
        mask_set(mask_of(p2, mover_now), m.to.spec_index() as u64, false),
    );
    let u2 = with_mask(u1, original, mask_set(mask_of(u1, original), m.from.spec_index() as u64, true));
    let u3 = if m.move_type == PieceMoveType::Castling {
        let rook = if mover_now == Piece::WKing {
            Piece::WRook
        } else {
            Piece::BRook
        };
        let q1 = with_mask(
            u2,
            rook,
            mask_set(mask_of(u2, rook), castle_rook_to(m).spec_index() as u64, false),
        );
        with_mask(
            q1,
            rook,
            mask_set(mask_of(q1, rook), castle_rook_from(m).spec_index() as u64, true),
        )
    } else {
        u2
    };
    let u4 = match h.captured_piece {
        Option::Some(c) => {
            let cs = if m.move_type == PieceMoveType::EnPassant {
                ep_capture_square(m)
            } else {
                m.to
            };
            with_mask(u3, c, mask_set(mask_of(u3, c), cs.spec_index() as u64, true))
        },
        Option::None => u3,
    };
    Position {
        wp: u4.wp,
        wn: u4.wn,
        wb: u4.wb,
        wr: u4.wr,
        wq: u4.wq,
        wk: u4.wk,
        bp: u4.bp,
        bn: u4.bn,
        bb: u4.bb,
        br: u4.br,
        bq: u4.bq,
        bk: u4.bk,
        player: p2.player.spec_other(),
        castling: h.castling_before,
        en_passant: h.en_passant_before,
    }
}

impl Position {
    /// Resolve the concrete kind of move `m` performs on this position.
    pub fn resolve_move_type(&self, m: PieceMove) -> (rt: PieceMoveType)
        requires
            m.wf(),
        ensures
            rt == resolve_type(*self, m),
    {
        let pc = self.get_piece(m.from);
        let cap = Square { file: m.to.file, rank: m.from.rank };
        let ep_matches = match self.en_passant {
            Option::Some(s) => s == m.to,
            Option::None => false,
        };
        if (pc == Piece::WPawn || pc == Piece::BPawn) && m.from.file != m.to.file && ep_matches
            && self.get_piece(m.to) == Piece::Empty && self.get_piece(cap) == (
        if pc == Piece::WPawn {
            Piece::BPawn
        } else {
            Piece::WPawn
        }) {
            PieceMoveType::EnPassant
        } else if (pc == Piece::WKing || pc == Piece::BKing) && (m.to.file == m.from.file + 2
            || m.to.file + 2 == m.from.file) {
            PieceMoveType::Castling
        } else if (pc == Piece::WPawn && m.to.rank == 7) || (pc == Piece::BPawn && m.to.rank == 0) {
            match m.move_type {
                PieceMoveType::Promotion(q) => PieceMoveType::Promotion(q),
                _ => PieceMoveType::Promotion(
                    if pc == Piece::WPawn {
                        Piece::WQueen
                    } else {
                        Piece::BQueen
                    },
                ),
            }
        } else {
            PieceMoveType::Normal
        }
    }

    /// Play `m` on this position and return the concrete move kind that was
    /// resolved. The resulting position is exactly [`apply_pos`] of the old
    /// one.
    pub fn apply_move(&mut self, m: PieceMove) -> (rt: PieceMoveType)
        requires
            m.wf(),
        ensures
            *final(self) == apply_pos(*old(self), m),
            rt == resolve_type(*old(self), m),
    {
        let pc = self.get_piece(m.from);
        let rt = self.resolve_move_type(m);
        let cap_sq = if rt == PieceMoveType::EnPassant {
            Square { file: m.to.file, rank: m.from.rank }
        } else {
            m.to
        };
        let captured = self.get_piece(cap_sq);
        let placed = match rt {
            PieceMoveType::Promotion(q) => q,
            _ => pc,
        };
        if captured != Piece::Empty {
            self.set_piece_bit(captured, cap_sq, false);
        }
        self.set_piece_bit(pc, m.from, false);
        self.set_piece_bit(placed, m.to, true);
        if rt == PieceMoveType::Castling {
            let rook = if pc == Piece::WKing {
                Piece::WRook
            } else {
                Piece::BRook
            };
            let rf = if m.to.file == 6 {
                Square { file: 7, rank: m.from.rank }
            } else {
                Square { file: 0, rank: m.from.rank }
            };
            let rto = if m.to.file == 6 {
                Square { file: 5, rank: m.from.rank }
            } else {
                Square { file: 3, rank: m.from.rank }
            };
            self.set_piece_bit(rook, rf, false);
            self.set_piece_bit(rook, rto, true);
        }
        let e1 = Square { file: 4, rank: 0 };
        let h1 = Square { file: 7, rank: 0 };
        let a1 = Square { file: 0, rank: 0 };
        let e8 = Square { file: 4, rank: 7 };
        let h8 = Square { file: 7, rank: 7 };
        let a8 = Square { file: 0, rank: 7 };
        let old_rights = self.castling;
        self.castling = CastleRights {
            white_kingside: old_rights.white_kingside && m.from != e1 && m.from != h1 && m.to
                != h1,
            white_queenside: old_rights.white_queenside && m.from != e1 && m.from != a1 && m.to
                != a1,
            black_kingside: old_rights.black_kingside && m.from != e8 && m.from != h8 && m.to
                != h8,
            black_queenside: old_rights.black_queenside && m.from != e8 && m.from != a8 && m.to
                != a8,
        };
        self.en_passant = if pc == Piece::WPawn && m.from.file == m.to.file && m.to.rank
            == m.from.rank + 2 {
            Option::Some(Square { file: m.from.file, rank: m.from.rank + 1 })
        } else if pc == Piece::BPawn && m.from.file == m.to.file && m.from.rank == m.to.rank
            + 2 {
            Option::Some(Square { file: m.from.file, rank: m.from.rank - 1 })
        } else {
            Option::None
        };
        self.player = self.player.other();
        rt
    }

    /// Invert the move `h` records. The resulting position is exactly
    /// [`undo_pos`] of the old one.
    pub fn undo_move(&mut self, h: HistoryMove)
        requires
            h.wf(),
        ensures
            *final(self) == undo_pos(*old(self), h),
    {
        let m = h.piece_move;
        let mover_now = self.get_piece(m.to);
        let original = match m.move_type {
            PieceMoveType::Promotion(_) => match mover_now.owner() {
                Option::Some(pl) => Piece::get_player_piece(pl, Piece::WPawn),
                Option::None => Piece::Empty,
            },
            _ => mover_now,
        };
        self.set_piece_bit(mover_now, m.to, false);
        self.set_piece_bit(original, m.from, true);
        if m.move_type == PieceMoveType::Castling {
            let rook = if mover_now == Piece::WKing {
                Piece::WRook
            } else {
                Piece::BRook
            };
            let rf = if m.to.file == 6 {
                Square { file: 7, rank: m.from.rank }
            } else {
                Square { file: 0, rank: m.from.rank }
            };
            let rto = if m.to.file == 6 {
                Square { file: 5, rank: m.from.rank }
            } else {
                Square { file: 3, rank: m.from.rank }
            };
            self.set_piece_bit(rook, rto, false);
            self.set_piece_bit(rook, rf, true);
        }
        match h.captured_piece {
            Option::Some(c) => {
                let cs = if m.move_type == PieceMoveType::EnPassant {
                    Square { file: m.to.file, rank: m.from.rank }
                } else {
                    m.to
                };
                self.set_piece_bit(c, cs, true);
            },
            Option::None => {},
        }
        self.castling = h.castling_before;
        self.en_passant = h.en_passant_before;
        self.player = self.player.other();
    }
}

} // verus!

verus! {

/// Two distinct squares on the board have distinct bit indices.
pub proof fn lemma_distinct_index(a: Square, b: Square)
    requires
        a.wf(),
        b.wf(),
        a != b,
    ensures
        a.spec_index() != b.spec_index(),
{
    if a.spec_index() == b.spec_index() {
        Square::lemma_index_injective(a, b);
    }
}

/// Replacing one kind's mask changes no other kind's mask.
pub proof fn lemma_with_mask_reads(p: Position, pc: Piece, mm: u64, b: Piece)
    ensures
        mask_of(with_mask(p, pc, mm), b) == if pc != Piece::Empty && b == pc {
            mm
        } else {
            mask_of(p, b)
        },
{
}

/// `m` can meaningfully be played on `p`: the moved piece belongs to the
/// side to move, the destination does not hold one of the mover's own
/// pieces, and the resolved special cases find the board set up as they
/// assume (the castling rook on its square with the crossed squares empty; a
/// promotion naming one of the mover's promotion kinds).
pub open spec fn applyable(p: Position, m: PieceMove) -> bool {
    let pc = piece_on(p, m.from);
    &&& m.wf()
    &&& m.from != m.to
    &&& pc.spec_owner() == Option::Some(p.player)
    &&& piece_on(p, m.to).spec_owner() != Option::Some(p.player)
    &&& match resolve_type(p, m) {
        PieceMoveType::Castling => {
            &&& m.to.rank == m.from.rank
            &&& (m.to.file == 6 || m.to.file == 2)
            &&& piece_on(p, castle_rook_from(m)) == Piece::spec_player_piece(
                p.player,
                Piece::WRook,
            )
            &&& piece_on(p, castle_rook_to(m)) == Piece::Empty
            &&& piece_on(p, m.to) == Piece::Empty
        },
        PieceMoveType::Promotion(q) => q.spec_owner() == Option::Some(p.player)
            && spec_promo_char(q).is_some(),
        _ => true,
    }
}

/// After playing `m`, the destination square holds exactly the placed piece
/// (the promoted kind for a promotion, the moved piece otherwise).
pub proof fn lemma_apply_piece_at_to(p: Position, m: PieceMove)
    requires
        disjoint(p),
        applyable(p, m),
    ensures
        piece_on(apply_pos(p, m), m.to) == placed_piece(p, m),
{
    let pc = piece_on(p, m.from);
    let rt = resolve_type(p, m);
    let cap_sq = capture_square(p, m);
    let captured = piece_on(p, cap_sq);
    let placed = placed_piece(p, m);
    let q = apply_pos(p, m);
    let fi = m.from.spec_index() as u64;
    let ti = m.to.spec_index() as u64;
    let ci = cap_sq.spec_index() as u64;
    let x_to = piece_on(p, m.to);
    lemma_distinct_index(m.from, m.to);
    if rt == PieceMoveType::EnPassant {
        assert(cap_sq != m.to);
        lemma_distinct_index(cap_sq, m.to);
    }
    assert(pc != Piece::Empty);
    assert(placed != Piece::Empty);
    let p1 = if captured != Piece::Empty {
        with_mask(p, captured, mask_set(mask_of(p, captured), ci, false))
    } else {
        p
    };
    let p2 = with_mask(p1, pc, mask_set(mask_of(p1, pc), fi, false));
    let p3 = with_mask(p2, placed, mask_set(mask_of(p2, placed), ti, true));
    assert forall|b: Piece| b != placed implies !sq_bit(mask_of(q, b), m.to) by {
        if b == Piece::Empty {
            lemma_mask_get_zero(ti);
        } else {
            // the bit of b at the destination before the move
            if b != x_to {
                lemma_piece_on_bit(p, m.to, b);
            }
            if captured != Piece::Empty {
                lemma_with_mask_reads(p, captured, mask_set(mask_of(p, captured), ci, false), b);
                if b == captured {
                    lemma_mask_set_get(mask_of(p, captured), ci, false, ti);
                }
            }
            assert(!sq_bit(mask_of(p1, b), m.to));
            lemma_with_mask_reads(p1, pc, mask_set(mask_of(p1, pc), fi, false), b);
            if b == pc {
                lemma_mask_set_get(mask_of(p1, pc), fi, false, ti);
            }
            assert(!sq_bit(mask_of(p2, b), m.to));
            lemma_with_mask_reads(p2, placed, mask_set(mask_of(p2, placed), ti, true), b);
            assert(!sq_bit(mask_of(p3, b), m.to));
            if rt == PieceMoveType::Castling {
                let rook = if pc == Piece::WKing { Piece::WRook } else { Piece::BRook };
                let rf = castle_rook_from(m);
                let rto = castle_rook_to(m);
                lemma_distinct_index(rto, m.to);
                let q1 = with_mask(p3, rook, mask_set(mask_of(p3, rook), rf.spec_index() as u64, false));
                lemma_with_mask_reads(p3, rook, mask_set(mask_of(p3, rook), rf.spec_index() as u64, false), b);
                lemma_with_mask_reads(q1, rook, mask_set(mask_of(q1, rook), rto.spec_index() as u64, true), b);
                if b == rook {
                    lemma_mask_set_get(mask_of(p3, rook), rf.spec_index() as u64, false, ti);
                    lemma_mask_set_get(mask_of(q1, rook), rto.spec_index() as u64, true, ti);
                }
            }
        }
    }
    lemma_with_mask_reads(p2, placed, mask_set(mask_of(p2, placed), ti, true), placed);
    lemma_mask_set_get(mask_of(p2, placed), ti, true, ti);
    assert(sq_bit(mask_of(p3, placed), m.to));
    if rt == PieceMoveType::Castling {
        let rook = if pc == Piece::WKing { Piece::WRook } else { Piece::BRook };
        let rf = castle_rook_from(m);
        let rto = castle_rook_to(m);
        let q1 = with_mask(p3, rook, mask_set(mask_of(p3, rook), rf.spec_index() as u64, false));
        lemma_with_mask_reads(p3, rook, mask_set(mask_of(p3, rook), rf.spec_index() as u64, false), placed);
        lemma_with_mask_reads(q1, rook, mask_set(mask_of(q1, rook), rto.spec_index() as u64, true), placed);
    }
    assert(sq_bit(mask_of(q, placed), m.to));
}

} // verus!

verus! {

/// Round trip of the masks for a normal move (with or without capture).
#[verifier::rlimit(100)]
#[verifier::spinoff_prover]
proof fn lemma_roundtrip_normal(p: Position, m: PieceMove)
    requires
        disjoint(p),
        applyable(p, m),
        resolve_type(p, m) == PieceMoveType::Normal,
    ensures
        undo_pos(apply_pos(p, m), history_of(p, m)) == p,
{
    let pc = piece_on(p, m.from);
    let captured = piece_on(p, m.to);
    let q = apply_pos(p, m);
    let h = history_of(p, m);
    let u = undo_pos(q, h);
    let fi = m.from.spec_index() as u64;
    let ti = m.to.spec_index() as u64;
    lemma_distinct_index(m.from, m.to);
    lemma_apply_piece_at_to(p, m);
    assert(pc != Piece::Empty);
    assert(sq_bit(mask_of(p, pc), m.from));
    lemma_piece_on_bit(p, m.to, pc);
    assert(!sq_bit(mask_of(p, pc), m.to));
    let p1 = if captured != Piece::Empty {
        with_mask(p, captured, mask_set(mask_of(p, captured), ti, false))
    } else {
        p
    };
    let p2 = with_mask(p1, pc, mask_set(mask_of(p1, pc), fi, false));
    let p3 = with_mask(p2, pc, mask_set(mask_of(p2, pc), ti, true));
    let u1 = with_mask(q, pc, mask_set(mask_of(q, pc), ti, false));
    let u2 = with_mask(u1, pc, mask_set(mask_of(u1, pc), fi, true));
    assert forall|b: Piece| #![auto] mask_of(u, b) == mask_of(p, b) by {
        if b != Piece::Empty {
            if captured != Piece::Empty {
                lemma_with_mask_reads(p, captured, mask_set(mask_of(p, captured), ti, false), b);
            }
            lemma_with_mask_reads(p1, pc, mask_set(mask_of(p1, pc), fi, false), b);
            lemma_with_mask_reads(p2, pc, mask_set(mask_of(p2, pc), ti, true), b);
            lemma_with_mask_reads(q, pc, mask_set(mask_of(q, pc), ti, false), b);
            lemma_with_mask_reads(u1, pc, mask_set(mask_of(u1, pc), fi, true), b);
            if b == pc {
                lemma_mask_move_then_unmove(mask_of(p, pc), fi, ti);
            }
            if b == captured && captured != Piece::Empty {
                assert(sq_bit(mask_of(p, captured), m.to));
                lemma_mask_clear_then_set(mask_of(p, captured), ti);
            }
        }
    }
    assert(u =~= p);
}

} // verus!

verus! {

/// Round trip of the masks for an en-passant capture.
#[verifier::rlimit(100)]
#[verifier::spinoff_prover]
proof fn lemma_roundtrip_en_passant(p: Position, m: PieceMove)
    requires
        disjoint(p),
        applyable(p, m),
        resolve_type(p, m) == PieceMoveType::EnPassant,
    ensures
        undo_pos(apply_pos(p, m), history_of(p, m)) == p,
{
    let pc = piece_on(p, m.from);
    let cap_sq = ep_capture_square(m);
    let captured = piece_on(p, cap_sq);
    let q = apply_pos(p, m);
    let h = history_of(p, m);
    let u = undo_pos(q, h);
    let fi = m.from.spec_index() as u64;
    let ti = m.to.spec_index() as u64;
    let ci = cap_sq.spec_index() as u64;
    lemma_distinct_index(m.from, m.to);
    assert(cap_sq != m.to);
    lemma_distinct_index(cap_sq, m.to);
    assert(cap_sq != m.from);
    lemma_distinct_index(cap_sq, m.from);
    lemma_apply_piece_at_to(p, m);
    assert(pc != Piece::Empty);
    assert(captured != Piece::Empty);
    assert(captured != pc);
    assert(sq_bit(mask_of(p, pc), m.from));
    assert(piece_on(p, m.to) == Piece::Empty);
    assert(!sq_bit(mask_of(p, pc), m.to));
    assert(sq_bit(mask_of(p, captured), cap_sq));
    let p1 = with_mask(p, captured, mask_set(mask_of(p, captured), ci, false));
    let p2 = with_mask(p1, pc, mask_set(mask_of(p1, pc), fi, false));
    let p3 = with_mask(p2, pc, mask_set(mask_of(p2, pc), ti, true));
    let u1 = with_mask(q, pc, mask_set(mask_of(q, pc), ti, false));
    let u2 = with_mask(u1, pc, mask_set(mask_of(u1, pc), fi, true));
    assert forall|b: Piece| #![auto] mask_of(u, b) == mask_of(p, b) by {
        if b != Piece::Empty {
            lemma_with_mask_reads(p, captured, mask_set(mask_of(p, captured), ci, false), b);
            lemma_with_mask_reads(p1, pc, mask_set(mask_of(p1, pc), fi, false), b);
            lemma_with_mask_reads(p2, pc, mask_set(mask_of(p2, pc), ti, true), b);
            lemma_with_mask_reads(q, pc, mask_set(mask_of(q, pc), ti, false), b);
            lemma_with_mask_reads(u1, pc, mask_set(mask_of(u1, pc), fi, true), b);
            if b == pc {
                lemma_mask_move_then_unmove(mask_of(p, pc), fi, ti);
            }
            if b == captured {
                lemma_mask_clear_then_set(mask_of(p, captured), ci);
            }
        }
    }
    assert(u =~= p);
}

/// Round trip of the masks for a promotion (with or without capture).
#[verifier::rlimit(100)]
#[verifier::spinoff_prover]
proof fn lemma_roundtrip_promotion(p: Position, m: PieceMove, promoted: Piece)
    requires
        disjoint(p),
        applyable(p, m),
        resolve_type(p, m) == PieceMoveType::Promotion(promoted),
    ensures
        undo_pos(apply_pos(p, m), history_of(p, m)) == p,
{
    let pc = piece_on(p, m.from);
    let captured = piece_on(p, m.to);
    let q = apply_pos(p, m);
    let h = history_of(p, m);
    let u = undo_pos(q, h);
    let fi = m.from.spec_index() as u64;
    let ti = m.to.spec_index() as u64;
    lemma_distinct_index(m.from, m.to);
    lemma_apply_piece_at_to(p, m);
    assert(piece_on(q, m.to) == promoted);
    assert(pc != Piece::Empty);
    assert(promoted != Piece::Empty);
    assert(promoted != pc);
    assert(captured != pc && captured != promoted);
    assert(Piece::spec_player_piece(p.player, Piece::WPawn) == pc);
    assert(sq_bit(mask_of(p, pc), m.from));
    lemma_piece_on_bit(p, m.to, pc);
    assert(!sq_bit(mask_of(p, pc), m.to));
    lemma_piece_on_bit(p, m.to, promoted);
    assert(!sq_bit(mask_of(p, promoted), m.to));
    let p1 = if captured != Piece::Empty {
        with_mask(p, captured, mask_set(mask_of(p, captured), ti, false))
    } else {
        p
    };
    let p2 = with_mask(p1, pc, mask_set(mask_of(p1, pc), fi, false));
    let p3 = with_mask(p2, promoted, mask_set(mask_of(p2, promoted), ti, true));
    let u1 = with_mask(q, promoted, mask_set(mask_of(q, promoted), ti, false));
    let u2 = with_mask(u1, pc, mask_set(mask_of(u1, pc), fi, true));
    assert forall|b: Piece| #![auto] mask_of(u, b) == mask_of(p, b) by {
        if b != Piece::Empty {
            if captured != Piece::Empty {
                lemma_with_mask_reads(p, captured, mask_set(mask_of(p, captured), ti, false), b);
            }
            lemma_with_mask_reads(p1, pc, mask_set(mask_of(p1, pc), fi, false), b);
            lemma_with_mask_reads(p2, promoted, mask_set(mask_of(p2, promoted), ti, true), b);
            lemma_with_mask_reads(q, promoted, mask_set(mask_of(q, promoted), ti, false), b);
            lemma_with_mask_reads(u1, pc, mask_set(mask_of(u1, pc), fi, true), b);
            if b == pc {
                lemma_mask_clear_then_set(mask_of(p, pc), fi);
            }
            if b == promoted {
                lemma_mask_set_then_clear(mask_of(p, promoted), ti);
            }
            if b == captured && captured != Piece::Empty {
                assert(sq_bit(mask_of(p, captured), m.to));
                lemma_mask_clear_then_set(mask_of(p, captured), ti);
            }
        }
    }
    assert(u =~= p);
}

/// Round trip of the masks for castling: king and rook both return.
#[verifier::rlimit(100)]
#[verifier::spinoff_prover]
proof fn lemma_roundtrip_castling(p: Position, m: PieceMove)
    requires
        disjoint(p),
        applyable(p, m),
        resolve_type(p, m) == PieceMoveType::Castling,
    ensures
        undo_pos(apply_pos(p, m), history_of(p, m)) == p,
{
    let pc = piece_on(p, m.from);
    let rook = if pc == Piece::WKing { Piece::WRook } else { Piece::BRook };
    let rf = castle_rook_from(m);
    let rto = castle_rook_to(m);
    let q = apply_pos(p, m);
    let h = history_of(p, m);
    let u = undo_pos(q, h);
    let fi = m.from.spec_index() as u64;
    let ti = m.to.spec_index() as u64;
    let rfi = rf.spec_index() as u64;
    let rti = rto.spec_index() as u64;
    lemma_distinct_index(m.from, m.to);
    lemma_apply_piece_at_to(p, m);
    assert(pc != Piece::Empty);
    assert(rook == Piece::spec_player_piece(p.player, Piece::WRook));
    assert(piece_on(p, rf) == rook);
    assert(piece_on(p, m.to) == Piece::Empty);
    assert(piece_on(p, rto) == Piece::Empty);
    assert(rf != rto && rf != m.to && rto != m.to);
    assert(rf != m.from && rto != m.from);
    lemma_distinct_index(rf, rto);
    lemma_distinct_index(rf, m.to);
    lemma_distinct_index(rto, m.to);
    lemma_distinct_index(rf, m.from);
    lemma_distinct_index(rto, m.from);
    assert(sq_bit(mask_of(p, pc), m.from));
    assert(!sq_bit(mask_of(p, pc), m.to));
    assert(sq_bit(mask_of(p, rook), rf));
    assert(!sq_bit(mask_of(p, rook), rto));
    assert(rook != pc);
    let p2 = with_mask(p, pc, mask_set(mask_of(p, pc), fi, false));
    let p3 = with_mask(p2, pc, mask_set(mask_of(p2, pc), ti, true));
    let p4a = with_mask(p3, rook, mask_set(mask_of(p3, rook), rfi, false));
    let p4 = with_mask(p4a, rook, mask_set(mask_of(p4a, rook), rti, true));
    let u1 = with_mask(q, pc, mask_set(mask_of(q, pc), ti, false));
    let u2 = with_mask(u1, pc, mask_set(mask_of(u1, pc), fi, true));
    let u3a = with_mask(u2, rook, mask_set(mask_of(u2, rook), rti, false));
    let u3 = with_mask(u3a, rook, mask_set(mask_of(u3a, rook), rfi, true));
    assert forall|b: Piece| #![auto] mask_of(u, b) == mask_of(p, b) by {
        if b != Piece::Empty {
            lemma_with_mask_reads(p, pc, mask_set(mask_of(p, pc), fi, false), b);
            lemma_with_mask_reads(p2, pc, mask_set(mask_of(p2, pc), ti, true), b);
            lemma_with_mask_reads(p3, rook, mask_set(mask_of(p3, rook), rfi, false), b);
            lemma_with_mask_reads(p4a, rook, mask_set(mask_of(p4a, rook), rti, true), b);
            lemma_with_mask_reads(q, pc, mask_set(mask_of(q, pc), ti, false), b);
            lemma_with_mask_reads(u1, pc, mask_set(mask_of(u1, pc), fi, true), b);
            lemma_with_mask_reads(u2, rook, mask_set(mask_of(u2, rook), rti, false), b);
            lemma_with_mask_reads(u3a, rook, mask_set(mask_of(u3a, rook), rfi, true), b);
            if b == pc {
                lemma_mask_move_then_unmove(mask_of(p, pc), fi, ti);
            }
            if b == rook {
                lemma_mask_move_then_unmove(mask_of(p, rook), rfi, rti);
            }
        }
    }
    assert(u =~= p);
}

/// Undo inverts apply: playing a move and then undoing its history record
/// restores every bitboard, the castling rights, the en-passant target and
/// the side to move exactly.
pub proof fn lemma_undo_inverts_apply(p: Position, m: PieceMove)
    requires
        disjoint(p),
        applyable(p, m),
    ensures
        undo_pos(apply_pos(p, m), history_of(p, m)) == p,
{
    match resolve_type(p, m) {
        PieceMoveType::Normal => lemma_roundtrip_normal(p, m),
        PieceMoveType::EnPassant => lemma_roundtrip_en_passant(p, m),
        PieceMoveType::Castling => lemma_roundtrip_castling(p, m),
        PieceMoveType::Promotion(promoted) => lemma_roundtrip_promotion(p, m, promoted),
    }
}

} // verus!

verus! {

/// Whether kind `x` occupies square `s` after `m` is played: the destination
/// holds exactly the placed piece, the source and capture squares empty, a
/// castling also empties the rook's corner and fills its crossing square,
/// and every other square keeps its occupant.
pub open spec fn bit_after(p: Position, m: PieceMove, x: Piece, s: Square) -> bool {
    let rt = resolve_type(p, m);
    if s == m.to {
        x == placed_piece(p, m)
    } else if s == m.from {
        false
    } else if rt == PieceMoveType::EnPassant && s == ep_capture_square(m) {
        false
    } else if rt == PieceMoveType::Castling && s == castle_rook_from(m) {
        false
    } else if rt == PieceMoveType::Castling && s == castle_rook_to(m) {
        x == Piece::spec_player_piece(p.player, Piece::WRook)
    } else {
        sq_bit(mask_of(p, x), s)
    }
}

/// After `m` is played, the bit of kind `x` at square `s` is exactly
/// [`bit_after`].
#[verifier::rlimit(100)]
#[verifier::spinoff_prover]
pub proof fn lemma_apply_bit(p: Position, m: PieceMove, x: Piece, s: Square)
    requires
        disjoint(p),
        applyable(p, m),
        s.wf(),
        x != Piece::Empty,
    ensures
        sq_bit(mask_of(apply_pos(p, m), x), s) == bit_after(p, m, x, s),
{
    let pc = piece_on(p, m.from);
    let rt = resolve_type(p, m);
    let cap_sq = capture_square(p, m);
    let captured = piece_on(p, cap_sq);
    let placed = placed_piece(p, m);
    let q = apply_pos(p, m);
    let fi = m.from.spec_index() as u64;
    let ti = m.to.spec_index() as u64;
    let ci = cap_sq.spec_index() as u64;
    let si = s.spec_index() as u64;
    lemma_distinct_index(m.from, m.to);
    if s != m.from {
        lemma_distinct_index(s, m.from);
    }
    if s != m.to {
        lemma_distinct_index(s, m.to);
    }
    if s != cap_sq {
        lemma_distinct_index(s, cap_sq);
    }
    if rt == PieceMoveType::EnPassant {
        assert(cap_sq != m.to);
        lemma_distinct_index(cap_sq, m.to);
        assert(cap_sq != m.from);
        lemma_distinct_index(cap_sq, m.from);
    }
    assert(pc != Piece::Empty);
    assert(placed != Piece::Empty);
    assert(sq_bit(mask_of(p, pc), m.from));
    lemma_piece_on_bit(p, m.to, pc);
    lemma_piece_on_bit(p, m.to, placed);
    lemma_piece_on_bit(p, m.from, x);
    if captured != Piece::Empty {
        lemma_piece_on_bit(p, cap_sq, x);
    }
    let p1 = if captured != Piece::Empty {
        with_mask(p, captured, mask_set(mask_of(p, captured), ci, false))
    } else {
        p
    };
    let p2 = with_mask(p1, pc, mask_set(mask_of(p1, pc), fi, false));
    let p3 = with_mask(p2, placed, mask_set(mask_of(p2, placed), ti, true));
    if captured != Piece::Empty {
        lemma_with_mask_reads(p, captured, mask_set(mask_of(p, captured), ci, false), x);
        if x == captured {
            lemma_mask_set_get(mask_of(p, captured), ci, false, si);
        }
    }
    lemma_with_mask_reads(p1, pc, mask_set(mask_of(p1, pc), fi, false), x);
    if x == pc {
        lemma_mask_set_get(mask_of(p1, pc), fi, false, si);
    }
    lemma_with_mask_reads(p2, placed, mask_set(mask_of(p2, placed), ti, true), x);
    if x == placed {
        lemma_mask_set_get(mask_of(p2, placed), ti, true, si);
    }
    if rt == PieceMoveType::Castling {
        let rook = if pc == Piece::WKing { Piece::WRook } else { Piece::BRook };
        let rf = castle_rook_from(m);
        let rto = castle_rook_to(m);
        assert(rook == Piece::spec_player_piece(p.player, Piece::WRook));
        assert(piece_on(p, rf) == rook);
        assert(piece_on(p, m.to) == Piece::Empty);
        assert(piece_on(p, rto) == Piece::Empty);
        assert(rf != rto && rf != m.to && rto != m.to);
        assert(rf != m.from && rto != m.from);
        lemma_distinct_index(rf, rto);
        if s != rf {
            lemma_distinct_index(s, rf);
        }
        if s != rto {
            lemma_distinct_index(s, rto);
        }
        lemma_piece_on_bit(p, rf, x);
        let rfi = rf.spec_index() as u64;
        let rti = rto.spec_index() as u64;
        let p4a = with_mask(p3, rook, mask_set(mask_of(p3, rook), rfi, false));
        lemma_with_mask_reads(p3, rook, mask_set(mask_of(p3, rook), rfi, false), x);
        lemma_with_mask_reads(p4a, rook, mask_set(mask_of(p4a, rook), rti, true), x);
        if x == rook {
            lemma_mask_set_get(mask_of(p3, rook), rfi, false, si);
            lemma_mask_set_get(mask_of(p4a, rook), rti, true, si);
        }
    }
}

/// The occupant of square `s` after `m` is played.
pub open spec fn piece_after(p: Position, m: PieceMove, s: Square) -> Piece {
    let rt = resolve_type(p, m);
    if s == m.to {
        placed_piece(p, m)
    } else if s == m.from {
        Piece::Empty
    } else if rt == PieceMoveType::EnPassant && s == ep_capture_square(m) {
        Piece::Empty
    } else if rt == PieceMoveType::Castling && s == castle_rook_from(m) {
        Piece::Empty
    } else if rt == PieceMoveType::Castling && s == castle_rook_to(m) {
        Piece::spec_player_piece(p.player, Piece::WRook)
    } else {
        piece_on(p, s)
    }
}

/// After `m` is played, every square holds exactly [`piece_after`].
pub proof fn lemma_piece_on_after(p: Position, m: PieceMove, s: Square)
    requires
        disjoint(p),
        applyable(p, m),
        s.wf(),
    ensures
        piece_on(apply_pos(p, m), s) == piece_after(p, m, s),
{
    let q = apply_pos(p, m);
    assert forall|x: Piece| x != Piece::Empty implies (#[trigger] sq_bit(mask_of(q, x), s))
        == bit_after(p, m, x, s) by {
        lemma_apply_bit(p, m, x, s);
    }
    assert forall|x: Piece| x != Piece::Empty && x != piece_on(p, s) implies !(#[trigger] sq_bit(
        mask_of(p, x),
        s,
    )) by {
        lemma_piece_on_bit(p, s, x);
    }
}

/// Playing a move keeps the piece masks pairwise disjoint.
pub proof fn lemma_apply_preserves_disjoint(p: Position, m: PieceMove)
    requires
        disjoint(p),
        applyable(p, m),
    ensures
        disjoint(apply_pos(p, m)),
{
    let q = apply_pos(p, m);
    assert forall|s: Square, a: Piece, b: Piece|
        s.wf() && a != b implies !(#[trigger] sq_bit(mask_of(q, a), s) && #[trigger] sq_bit(
        mask_of(q, b),
        s,
    )) by {
        if a != Piece::Empty && b != Piece::Empty {
            lemma_apply_bit(p, m, a, s);
            lemma_apply_bit(p, m, b, s);
        } else if a == Piece::Empty {
            lemma_mask_get_zero(s.spec_index() as u64);
        } else {
            lemma_mask_get_zero(s.spec_index() as u64);
        }
    }
}

} // verus!

verus! {

/// Playing a move keeps exactly one king for the side that moved.
pub proof fn lemma_apply_preserves_own_king(p: Position, m: PieceMove)
    requires
        disjoint(p),
        applyable(p, m),
        one_king(p, p.player),
    ensures
        one_king(apply_pos(p, m), p.player),
{
    let k = Piece::spec_player_piece(p.player, Piece::WKing);
    let pc = piece_on(p, m.from);
    let q = apply_pos(p, m);
    if pc == k {
        assert(sq_bit(mask_of(p, k), m.from));
        assert(placed_piece(p, m) == k);
        lemma_apply_bit(p, m, k, m.to);
        assert(sq_bit(mask_of(q, k), m.to));
        assert(has_king(q, p.player));
        assert forall|t: Square| t.wf() && #[trigger] sq_bit(mask_of(q, k), t)
            implies t == m.to by {
            lemma_apply_bit(p, m, k, t);
        }
    } else {
        assert(placed_piece(p, m) != k);
        assert forall|t: Square| t.wf() implies #[trigger] sq_bit(mask_of(q, k), t) == sq_bit(
            mask_of(p, k),
            t,
        ) by {
            lemma_apply_bit(p, m, k, t);
            lemma_piece_on_bit(p, m.from, k);
            lemma_piece_on_bit(p, m.to, k);
            if resolve_type(p, m) == PieceMoveType::EnPassant {
                lemma_piece_on_bit(p, ep_capture_square(m), k);
            }
            if resolve_type(p, m) == PieceMoveType::Castling {
                lemma_piece_on_bit(p, castle_rook_from(m), k);
            }
        }
        let s0 = choose|s: Square| s.wf() && #[trigger] sq_bit(mask_of(p, k), s);
        assert(sq_bit(mask_of(q, k), s0));
    }
}

/// Playing a move that does not capture the opponent's king keeps exactly
/// one king for the opponent.
pub proof fn lemma_apply_preserves_opp_king(p: Position, m: PieceMove)
    requires
        disjoint(p),
        applyable(p, m),
        one_king(p, p.player.spec_other()),
        captured_piece_of(p, m) != Piece::spec_player_piece(
            p.player.spec_other(),
            Piece::WKing,
        ),
    ensures
        one_king(apply_pos(p, m), p.player.spec_other()),
{
    let k = Piece::spec_player_piece(p.player.spec_other(), Piece::WKing);
    let pc = piece_on(p, m.from);
    let q = apply_pos(p, m);
    assert(pc != k);
    assert(placed_piece(p, m) != k);
    assert forall|t: Square| t.wf() implies #[trigger] sq_bit(mask_of(q, k), t) == sq_bit(
        mask_of(p, k),
        t,
    ) by {
        lemma_apply_bit(p, m, k, t);
        lemma_piece_on_bit(p, m.from, k);
        lemma_piece_on_bit(p, m.to, k);
        if resolve_type(p, m) == PieceMoveType::EnPassant {
            lemma_piece_on_bit(p, ep_capture_square(m), k);
        }
        if resolve_type(p, m) == PieceMoveType::Castling {
            lemma_piece_on_bit(p, castle_rook_from(m), k);
        }
    }
    let s0 = choose|s: Square| s.wf() && #[trigger] sq_bit(mask_of(p, k), s);
    assert(sq_bit(mask_of(q, k), s0));
}

/// Playing a move that does not capture a king preserves the position
/// invariant.
pub proof fn lemma_apply_preserves_wf(p: Position, m: PieceMove)
    requires
        position_wf(p),
        applyable(p, m),
        captured_piece_of(p, m) != Piece::WKing,
        captured_piece_of(p, m) != Piece::BKing,
    ensures
        position_wf(apply_pos(p, m)),
{
    lemma_apply_preserves_disjoint(p, m);
    lemma_apply_preserves_own_king(p, m);
    lemma_apply_preserves_opp_king(p, m);
    assert(one_king(apply_pos(p, m), Player::White) && one_king(apply_pos(p, m), Player::Black));
}

} // verus!

verus! {

/// En passant is transient: every move either grants the right on the
/// square its own double push skipped, or withdraws it; a right is never
/// carried past the reply.
pub proof fn lemma_en_passant_transient(p: Position, m: PieceMove)
    ensures
        apply_pos(p, m).en_passant == ep_after(p, m),
        (piece_on(p, m.from) == Piece::WPawn && m.from.file == m.to.file && m.to.rank
            == m.from.rank + 2) ==> apply_pos(p, m).en_passant == Option::Some(
            Square { file: m.from.file, rank: (m.from.rank + 1) as u8 },
        ),
        (piece_on(p, m.from) == Piece::BPawn && m.from.file == m.to.file && m.from.rank == m.to.rank
            + 2) ==> apply_pos(p, m).en_passant == Option::Some(
            Square { file: m.from.file, rank: (m.from.rank - 1) as u8 },
        ),
        !((piece_on(p, m.from) == Piece::WPawn && m.from.file == m.to.file && m.to.rank
            == m.from.rank + 2) || (piece_on(p, m.from) == Piece::BPawn && m.from.file == m.to.file
            && m.from.rank == m.to.rank + 2)) ==> apply_pos(p, m).en_passant is None,
{
}

/// Every set bit at `s` belongs to the piece kind `piece_on` reports there:
/// the square-local reading of mask disjointness.
pub open spec fn square_ok(p: Position, s: Square) -> bool {
    &&& (sq_bit(mask_of(p, Piece::WPawn), s) ==> piece_on(p, s) == Piece::WPawn)
    &&& (sq_bit(mask_of(p, Piece::WKnight), s) ==> piece_on(p, s) == Piece::WKnight)
    &&& (sq_bit(mask_of(p, Piece::WBishop), s) ==> piece_on(p, s) == Piece::WBishop)
    &&& (sq_bit(mask_of(p, Piece::WRook), s) ==> piece_on(p, s) == Piece::WRook)
    &&& (sq_bit(mask_of(p, Piece::WQueen), s) ==> piece_on(p, s) == Piece::WQueen)
    &&& (sq_bit(mask_of(p, Piece::WKing), s) ==> piece_on(p, s) == Piece::WKing)
    &&& (sq_bit(mask_of(p, Piece::BPawn), s) ==> piece_on(p, s) == Piece::BPawn)
    &&& (sq_bit(mask_of(p, Piece::BKnight), s) ==> piece_on(p, s) == Piece::BKnight)
    &&& (sq_bit(mask_of(p, Piece::BBishop), s) ==> piece_on(p, s) == Piece::BBishop)
    &&& (sq_bit(mask_of(p, Piece::BRook), s) ==> piece_on(p, s) == Piece::BRook)
    &&& (sq_bit(mask_of(p, Piece::BQueen), s) ==> piece_on(p, s) == Piece::BQueen)
    &&& (sq_bit(mask_of(p, Piece::BKing), s) ==> piece_on(p, s) == Piece::BKing)
}

/// Masks are pairwise disjoint exactly when every square is consistent.
pub proof fn lemma_square_ok_disjoint(p: Position)
    requires
        forall|s: Square| s.wf() ==> #[trigger] square_ok(p, s),
    ensures
        disjoint(p),
{
    assert forall|s: Square, a: Piece, b: Piece|
        s.wf() && a != b implies !(#[trigger] sq_bit(mask_of(p, a), s) && #[trigger] sq_bit(
        mask_of(p, b),
        s,
    )) by {
        assert(square_ok(p, s));
        if a == Piece::Empty || b == Piece::Empty {
            lemma_mask_get_zero(s.spec_index() as u64);
        }
    }
}

impl Position {
    /// Whether every mask bit on `s` agrees with the occupant reported
    /// there.
    fn square_consistent(&self, s: Square) -> (r: bool)
        requires
            s.wf(),
        ensures
            r == square_ok(*self, s),
    {
        let pc = self.get_piece(s);
        (!self.wp.get_bit_at(s) || pc == Piece::WPawn) && (!self.wn.get_bit_at(s) || pc
            == Piece::WKnight) && (!self.wb.get_bit_at(s) || pc == Piece::WBishop)
            && (!self.wr.get_bit_at(s) || pc == Piece::WRook) && (!self.wq.get_bit_at(s) || pc
            == Piece::WQueen) && (!self.wk.get_bit_at(s) || pc == Piece::WKing)
            && (!self.bp.get_bit_at(s) || pc == Piece::BPawn) && (!self.bn.get_bit_at(s) || pc
            == Piece::BKnight) && (!self.bb.get_bit_at(s) || pc == Piece::BBishop)
            && (!self.br.get_bit_at(s) || pc == Piece::BRook) && (!self.bq.get_bit_at(s) || pc
            == Piece::BQueen) && (!self.bk.get_bit_at(s) || pc == Piece::BKing)
    }

    /// Whether `player` has exactly one king on the board.
    fn king_count_ok(&self, player: Player) -> (r: bool)
        ensures
            r == one_king(*self, player),
    {
        let king = Piece::get_player_piece(player, Piece::WKing);
        let mask = BitBoard(self.get_mask(king));
        let mut found: Option<Square> = Option::None;
        let mut i: u8 = 0;
        while i < 64
            invariant
                i <= 64,
                mask.0 == mask_of(*self, Piece::spec_player_piece(player, Piece::WKing)),
                match found {
                    Option::None => forall|j: u64| j < i ==> !mask_get(mask.0, j),
                    Option::Some(t) => t.wf() && sq_bit(mask.0, t) && t.spec_index() < i
                        && forall|j: u64| j < i && mask_get(mask.0, j) ==> j == t.spec_index(),
                },
            decreases 64 - i,
        {
            if mask.get_bit(i) {
                let s = Square::from_index(i);
                match found {
                    Option::Some(t) => {
                        proof {
                            let ghost king = Piece::spec_player_piece(player, Piece::WKing);
                            assert(t.spec_index() != s.spec_index());
                            assert(t != s);
                            assert(sq_bit(mask_of(*self, king), s));
                            assert(sq_bit(mask_of(*self, king), t));
                            assert(!king_unique(*self, player));
                        }
                        return false;
                    },
                    Option::None => {
                        found = Option::Some(s);
                    },
                }
            }
            i = i + 1;
        }
        match found {
            Option::Some(t) => {
                proof {
                    assert(has_king(*self, player));
                    assert forall|s1: Square, s2: Square|
                        s1.wf() && s2.wf() && sq_bit(mask.0, s1) && sq_bit(mask.0, s2)
                        implies s1 == s2 by {
                        assert(s1.spec_index() < 64 && s2.spec_index() < 64);
                        assert(s1.spec_index() == t.spec_index());
                        assert(s2.spec_index() == t.spec_index());
                        Square::lemma_index_injective(s1, s2);
                    }
                }
                true
            },
            Option::None => {
                proof {
                    if has_king(*self, player) {
                        let s = choose|s: Square| s.wf() && #[trigger] sq_bit(mask.0, s);
                        assert(s.spec_index() < 64);
                    }
                }
                false
            },
        }
    }

    /// Whether this position satisfies the board invariant: pieces never
    /// overlap, each side has exactly one king, and the en-passant target
    /// lies on the board.
    pub fn check_wf(&self) -> (r: bool)
        ensures
            r == position_wf(*self),
    {
        let mut i: u8 = 0;
        while i < 64
            invariant
                i <= 64,
                forall|s: Square| s.wf() && s.spec_index() < i ==> #[trigger] square_ok(*self, s),
            decreases 64 - i,
        {
            let s = Square::from_index(i);
            if !self.square_consistent(s) {
                proof {
                    if disjoint(*self) {
                        assert forall|a: Piece| a != Piece::Empty && sq_bit(
                            mask_of(*self, a),
                            s,
                        ) implies piece_on(*self, s) == a by {
                            lemma_piece_on_bit(*self, s, a);
                        }
                        assert(square_ok(*self, s));
                    }
                }
                return false;
            }
            proof {
                assert forall|q: Square| q.wf() && q.spec_index() < i + 1
                    implies #[trigger] square_ok(*self, q) by {
                    if q.spec_index() == i {
                        Square::lemma_index_injective(q, s);
                    }
                }
            }
            i = i + 1;
        }
        proof {
            assert forall|s: Square| s.wf() implies #[trigger] square_ok(*self, s) by {
                assert(s.spec_index() < 64);
            }
            lemma_square_ok_disjoint(*self);
        }
        if !self.king_count_ok(Player::White) {
            return false;
        }
        if !self.king_count_ok(Player::Black) {
            return false;
        }
        match self.en_passant {
            Option::Some(s) => s.file < 8 && s.rank < 8,
            Option::None => true,
        }
    }
}

} // verus!

verus! {

/// The standard chess starting position.
pub open spec fn spec_start_position() -> Position {
    Position {
        wp: BitBoard(0xff00u64),
        wn: BitBoard(0x42u64),
        wb: BitBoard(0x24u64),
        wr: BitBoard(0x81u64),
        wq: BitBoard(0x08u64),
        wk: BitBoard(0x10u64),
        bp: BitBoard(0x00ff000000000000u64),
        bn: BitBoard(0x4200000000000000u64),
        bb: BitBoard(0x2400000000000000u64),
        br: BitBoard(0x8100000000000000u64),
        bq: BitBoard(0x0800000000000000u64),
        bk: BitBoard(0x1000000000000000u64),
        player: Player::White,
        castling: CastleRights {
            white_kingside: true,
            white_queenside: true,
            black_kingside: true,
            black_queenside: true,
        },
        en_passant: Option::None,
    }
}

impl Position {
    /// The standard starting position.
    pub fn start() -> (r: Position)
        ensures
            r == spec_start_position(),
    {
        Position {
            wp: BitBoard(0xff00u64),
            wn: BitBoard(0x42u64),
            wb: BitBoard(0x24u64),
            wr: BitBoard(0x81u64),
            wq: BitBoard(0x08u64),
            wk: BitBoard(0x10u64),
            bp: BitBoard(0x00ff000000000000u64),
            bn: BitBoard(0x4200000000000000u64),
            bb: BitBoard(0x2400000000000000u64),
            br: BitBoard(0x8100000000000000u64),
            bq: BitBoard(0x0800000000000000u64),
            bk: BitBoard(0x1000000000000000u64),
            player: Player::White,
            castling: CastleRights::all(),
            en_passant: Option::None,
        }
    }

    /// Whether this position equals `other` field for field: every
    /// bitboard, the side to move, the castling rights and the en-passant
    /// target.
    pub fn same_as(&self, other: &Position) -> (r: bool)
        ensures
            r == (*self == *other),
    {
        let ep_eq = match (self.en_passant, other.en_passant) {
            (Option::None, Option::None) => true,
            (Option::Some(a), Option::Some(b)) => a == b,
            _ => false,
        };
        let r = self.wp.0 == other.wp.0 && self.wn.0 == other.wn.0 && self.wb.0 == other.wb.0
            && self.wr.0 == other.wr.0 && self.wq.0 == other.wq.0 && self.wk.0 == other.wk.0
            && self.bp.0 == other.bp.0 && self.bn.0 == other.bn.0 && self.bb.0 == other.bb.0
            && self.br.0 == other.br.0 && self.bq.0 == other.bq.0 && self.bk.0 == other.bk.0
            && self.player == other.player && self.castling == other.castling && ep_eq;
        proof {
            if r {
                assert(*self =~= *other);
            }
        }
        r
    }
}

impl PieceMove {
    /// Whether this move's squares are on the board and a promotion names a
    /// real piece kind.
    pub fn check_wf(&self) -> (r: bool)
        ensures
            r == self.wf(),
    {
        self.from.file < 8 && self.from.rank < 8 && self.to.file < 8 && self.to.rank < 8
            && match self.move_type {
            PieceMoveType::Promotion(q) => match q {
                Piece::WKnight | Piece::WBishop | Piece::WRook | Piece::WQueen | Piece::BKnight
                    | Piece::BBishop | Piece::BRook | Piece::BQueen => true,
                _ => false,
            },
            _ => true,
        }
    }
}

/// The full game state: the position, mutated exclusively through
/// [`Board::apply_move`] and [`Board::undo_move`], plus the branching move
/// history that makes every applied move invertible.
#[derive(Clone, Debug)]
pub struct Board {
    pub position: Position,
    pub move_history: MoveHistory,
}

impl Board {
    /// The board invariant: the position is well formed and the history
    /// cursor stays inside the log.
    pub open spec fn wf(self) -> bool {
        position_wf(self.position) && self.move_history.wf()
    }

    /// A fresh game from the standard starting position.
    pub fn new() -> (r: Board)
        ensures
            r.position == spec_start_position(),
            r.move_history.moves@.len() == 0,
            r.move_history.current == 0,
            r.wf(),
    {
        proof {
            lemma_start_position_wf();
        }
        Board { position: Position::start(), move_history: MoveHistory::new() }
    }

    /// Whether the board invariant holds.
    pub fn is_wf(&self) -> (r: bool)
        ensures
            r == self.wf(),
    {
        if !self.position.check_wf() {
            return false;
        }
        if self.move_history.current > self.move_history.moves.len() {
            return false;
        }
        let mut i: usize = 0;
        while i < self.move_history.moves.len()
            invariant
                i <= self.move_history.moves@.len(),
                self.move_history.current <= self.move_history.moves@.len(),
                position_wf(self.position),
                forall|j: int| 0 <= j < i ==> (#[trigger] self.move_history.moves@[j]).wf(),
            decreases self.move_history.moves@.len() - i,
        {
            let h = self.move_history.moves[i];
            let ep_ok = match h.en_passant_before {
                Option::Some(s) => s.file < 8 && s.rank < 8,
                Option::None => true,
            };
            if !h.piece_move.check_wf() || !ep_ok {
                return false;
            }
            i = i + 1;
        }
        true
    }

    /// The side to move.
    pub fn get_player(&self) -> (r: Player)
        ensures
            r == self.position.player,
    {
        self.position.player
    }

    /// The side that moves after the current one.
    pub fn get_next_player(&self) -> (r: Player)
        ensures
            r == self.position.player.spec_other(),
    {
        self.position.player.other()
    }

    /// The occupant of a square.
    pub fn get_piece(&self, s: Square) -> (r: Piece)
        requires
            s.wf(),
        ensures
            r == piece_on(self.position, s),
    {
        self.position.get_piece(s)
    }
}

} // verus!

verus! {

/// Whether `v` holds `m`.
fn vec_contains_move(v: &Vec<PieceMove>, m: PieceMove) -> (r: bool)
    ensures
        r == v@.contains(m),
{
    let mut i: usize = 0;
    while i < v.len()
        invariant
            i <= v@.len(),
            forall|j: int| 0 <= j < i ==> v@[j] != m,
        decreases v@.len() - i,
    {
        if v[i] == m {
            proof {
                assert(v@[i as int] == m);
            }
            return true;
        }
        i = i + 1;
    }
    proof {
        if v@.contains(m) {
            let j = choose|j: int| 0 <= j < v@.len() && v@[j] == m;
        }
    }
    false
}

impl Board {
    /// Build a board from a FEN string; a malformed string is rejected
    /// without producing a board. The new board starts with an empty move
    /// history.
    pub fn from_fen(s: &str) -> (r: Result<Board, crate::fen::FenParseError>)
        ensures
            match r {
                Result::Ok(b) => crate::fen::spec_from_fen(s@) == Result::<
                    Position,
                    crate::fen::FenParseError,
                >::Ok(b.position) && b.move_history.moves@.len() == 0 && b.move_history.current
                    == 0,
                Result::Err(e) => crate::fen::spec_from_fen(s@) == Result::<
                    Position,
                    crate::fen::FenParseError,
                >::Err(e),
            },
    {
        match crate::fen::parse_fen(s) {
            Result::Ok(p) => Result::Ok(Board { position: p, move_history: MoveHistory::new() }),
            Result::Err(e) => Result::Err(e),
        }
    }

    /// Write this board's position as a FEN string.
    pub fn to_fen(&self) -> (r: String)
        ensures
            r@ == crate::fen::spec_to_fen(self.position),
    {
        crate::fen::write_fen(&self.position)
    }

    /// Every legal move of the side to move from `from`.
    pub fn get_possible_moves(&self, from: Square) -> (r: Vec<PieceMove>)
        requires
            self.wf(),
            from.wf(),
        ensures
            forall|mm: PieceMove| #[trigger] r@.contains(mm) <==> crate::moves::legal_move(
                self.position,
                mm,
            ) && mm.from == from,
    {
        crate::moves::legal_moves_from(&self.position, from)
    }

    /// Every legal move of the side to move.
    pub fn get_all_possible_moves(&self) -> (r: Vec<PieceMove>)
        requires
            self.wf(),
        ensures
            forall|mm: PieceMove| #[trigger] r@.contains(mm) <==> crate::moves::legal_move(
                self.position,
                mm,
            ),
    {
        crate::moves::legal_moves(&self.position)
    }

    /// Whether some pseudolegal move of `by` lands on `target`.
    pub fn is_square_attacked(&self, target: Square, by: Player) -> (r: bool)
        ensures
            r == crate::moves::attacked(self.position, by, target),
    {
        crate::moves::is_square_attacked(&self.position, by, target)
    }

    /// Whether `player`'s king stands attacked.
    pub fn is_in_check(&self, player: Player) -> (r: bool)
        requires
            self.wf(),
        ensures
            r == crate::moves::in_check(self.position, player),
    {
        crate::moves::is_in_check(&self.position, player)
    }

    /// Apply `m` to the position, record the history entry needed to invert
    /// it (discarding any redo future), and return the resolved move kind.
    pub fn apply_move(&mut self, m: PieceMove) -> (rt: PieceMoveType)
        requires
            old(self).wf(),
            m.wf(),
            old(self).move_history.moves@.len() < usize::MAX,
        ensures
            final(self).position == apply_pos(old(self).position, m),
            rt == resolve_type(old(self).position, m),
            final(self).move_history.moves@ == old(self).move_history.moves@.subrange(
                0,
                old(self).move_history.current as int,
            ).push(history_of(old(self).position, m)),
            final(self).move_history.current == old(self).move_history.current + 1,
            final(self).move_history.wf(),
            applyable(old(self).position, m) ==> forall|s: Square|
                s.wf() ==> piece_on(final(self).position, s) == #[trigger] piece_after(
                    old(self).position,
                    m,
                    s,
                ),
    {
        proof {
            if applyable(self.position, m) {
                assert forall|s: Square| s.wf() implies piece_on(apply_pos(self.position, m), s)
                    == #[trigger] piece_after(self.position, m, s) by {
                    lemma_piece_on_after(self.position, m, s);
                }
            }
        }
        let rt0 = self.position.resolve_move_type(m);
        let cap_sq = if rt0 == PieceMoveType::EnPassant {
            Square { file: m.to.file, rank: m.from.rank }
        } else {
            m.to
        };
        let captured = self.position.get_piece(cap_sq);
        let h = HistoryMove {
            piece_move: PieceMove { from: m.from, to: m.to, move_type: rt0 },
            captured_piece: if captured == Piece::Empty {
                Option::None
            } else {
                Option::Some(captured)
            },
            en_passant_before: self.position.en_passant,
            castling_before: self.position.castling,
        };
        proof {
            assert(h == history_of(self.position, m));
            assert(h.wf());
        }
        let rt = self.position.apply_move(m);
        self.move_history.make_move(h);
        rt
    }

    /// Invert the move `h` records on the position; the history log itself
    /// is left to the traversal methods.
    pub fn undo_move(&mut self, h: HistoryMove)
        requires
            h.wf(),
        ensures
            final(self).position == undo_pos(old(self).position, h),
            final(self).move_history == old(self).move_history,
    {
        self.position.undo_move(h);
    }

    /// Step the history cursor one move backward and invert that move on
    /// the position; at the start of the history nothing changes.
    pub fn traverse_back(&mut self) -> (r: Option<HistoryMove>)
        requires
            old(self).move_history.wf(),
        ensures
            final(self).move_history.wf(),
            final(self).move_history.moves@ == old(self).move_history.moves@,
            match r {
                Option::None => final(self).position == old(self).position
                    && final(self).move_history == old(self).move_history
                    && old(self).move_history.current == 0,
                Option::Some(h) => old(self).move_history.current > 0 && h == old(
                    self,
                ).move_history.moves@[old(self).move_history.current - 1] && final(self).position
                    == undo_pos(old(self).position, h) && final(self).move_history.current == old(
                    self,
                ).move_history.current - 1,
            },
    {
        let r = self.move_history.traverse_prev();
        match r {
            Option::Some(h) => {
                self.position.undo_move(h);
                Option::Some(h)
            },
            Option::None => Option::None,
        }
    }

    /// Step the history cursor one move forward and replay that move on the
    /// position; at the end of the history nothing changes.
    pub fn traverse_forward(&mut self) -> (r: Option<HistoryMove>)
        requires
            old(self).move_history.wf(),
        ensures
            final(self).move_history.wf(),
            final(self).move_history.moves@ == old(self).move_history.moves@,
            match r {
                Option::None => final(self).position == old(self).position
                    && final(self).move_history == old(self).move_history
                    && old(self).move_history.current == old(self).move_history.moves@.len(),
                Option::Some(h) => old(self).move_history.current < old(
                    self,
                ).move_history.moves@.len() && h == old(self).move_history.moves@[old(
                    self,
                ).move_history.current as int] && final(self).position == apply_pos(
                    old(self).position,
                    h.piece_move,
                ) && final(self).move_history.current == old(self).move_history.current + 1,
            },
    {
        let r = self.move_history.traverse_next();
        match r {
            Option::Some(h) => {
                let _ = self.position.apply_move(h.piece_move);
                Option::Some(h)
            },
            Option::None => Option::None,
        }
    }

    /// Apply `m` only if it is legal in the current position: the move
    /// request path. Returns the resolved move kind when the move was
    /// played, and leaves the board untouched when it was not.
    pub fn try_apply_move(&mut self, m: PieceMove) -> (r: Option<PieceMoveType>)
        requires
            old(self).wf(),
            old(self).move_history.moves@.len() < usize::MAX,
        ensures
            r is Some <==> crate::moves::legal_move(old(self).position, m),
            match r {
                Option::None => *final(self) == *old(self),
                Option::Some(rt) => final(self).position == apply_pos(old(self).position, m)
                    && rt == resolve_type(old(self).position, m)
                    && final(self).move_history.current == old(self).move_history.current + 1,
            },
    {
        if !(m.from.file < 8 && m.from.rank < 8) {
            return Option::None;
        }
        let cand = crate::moves::legal_moves_from(&self.position, m.from);
        if vec_contains_move(&cand, m) {
            proof {
                crate::moves::lemma_candidate_applyable(self.position, m);
            }
            let rt = self.apply_move(m);
            Option::Some(rt)
        } else {
            Option::None
        }
    }

    /// Whether the game has ended: `None` while the side to move still has
    /// a legal move, otherwise the winner on checkmate or no winner on
    /// stalemate.
    pub fn has_game_ended(&self) -> (r: Option<Option<Player>>)
        requires
            self.wf(),
        ensures
            r == crate::moves::spec_outcome(self.position),
    {
        crate::moves::position_outcome(&self.position)
    }
}

impl Default for Board {
    /// A fresh game from the standard starting position.
    fn default() -> (r: Board)
        ensures
            r.position == spec_start_position(),
            r.move_history.moves@.len() == 0,
            r.move_history.current == 0,
            r.wf(),
    {
        Board::new()
    }
}

} // verus!

verus! {

/// Two masks without common bits never both hold a square.
proof fn lemma_and_zero_disjoint(m1: u64, m2: u64, i: u64)
    requires
        m1 & m2 == 0,
    ensures
        !(mask_get(m1, i) && mask_get(m2, i)),
{
    assert(!((m1 & m2 == 0) && mask_get(m1, i) && mask_get(m2, i))) by (bit_vector);
}

/// A power-of-two mask holds exactly its one bit.
proof fn lemma_single_bit(m: u64, b: u64, i: u64)
    requires
        b < 64,
        m == 1u64 << b,
    ensures
        mask_get(m, b),
        mask_get(m, i) ==> i == b,
{
    assert(mask_get(1u64 << b, b) && (mask_get(1u64 << b, i) ==> i == b)) by (bit_vector)
        requires
            b < 64,
    ;
}

/// The standard starting position satisfies the board invariant.
pub proof fn lemma_start_position_wf()
    ensures
        position_wf(spec_start_position()),
{
    let p = spec_start_position();
    assert forall|x: u64, y: u64| #[trigger] (x & y) == (y & x) by {
        assert(x & y == y & x) by (bit_vector);
    }
    assert(0xff00u64 & 0x42u64 == 0 && 0xff00u64 & 0x24u64 == 0 && 0xff00u64 & 0x81u64 == 0
        && 0xff00u64 & 0x08u64 == 0 && 0xff00u64 & 0x10u64 == 0 && 0x42u64 & 0x24u64 == 0
        && 0x42u64 & 0x81u64 == 0 && 0x42u64 & 0x08u64 == 0 && 0x42u64 & 0x10u64 == 0 && 0x24u64
        & 0x81u64 == 0 && 0x24u64 & 0x08u64 == 0 && 0x24u64 & 0x10u64 == 0 && 0x81u64 & 0x08u64
        == 0 && 0x81u64 & 0x10u64 == 0 && 0x08u64 & 0x10u64 == 0) by (bit_vector);
    assert(0x00ff000000000000u64 & 0x4200000000000000u64 == 0 && 0x00ff000000000000u64
        & 0x2400000000000000u64 == 0 && 0x00ff000000000000u64 & 0x8100000000000000u64 == 0
        && 0x00ff000000000000u64 & 0x0800000000000000u64 == 0 && 0x00ff000000000000u64
        & 0x1000000000000000u64 == 0 && 0x4200000000000000u64 & 0x2400000000000000u64 == 0
        && 0x4200000000000000u64 & 0x8100000000000000u64 == 0 && 0x4200000000000000u64
        & 0x0800000000000000u64 == 0 && 0x4200000000000000u64 & 0x1000000000000000u64 == 0
        && 0x2400000000000000u64 & 0x8100000000000000u64 == 0 && 0x2400000000000000u64
        & 0x0800000000000000u64 == 0 && 0x2400000000000000u64 & 0x1000000000000000u64 == 0
        && 0x8100000000000000u64 & 0x0800000000000000u64 == 0 && 0x8100000000000000u64
        & 0x1000000000000000u64 == 0 && 0x0800000000000000u64 & 0x1000000000000000u64 == 0) by (bit_vector);
    assert(0xffffu64 & 0xffff000000000000u64 == 0) by (bit_vector);
    assert forall|w: u64, b: u64| (#[trigger] (w & 0xffffu64)) == w && (#[trigger] (b
        & 0xffff000000000000u64)) == b implies w & b == 0 by {
        assert(w & 0xffffu64 == w && b & 0xffff000000000000u64 == b ==> w & b == 0)
            by (bit_vector);
    }
    assert(0xff00u64 & 0xffffu64 == 0xff00u64 && 0x42u64 & 0xffffu64 == 0x42u64 && 0x24u64
        & 0xffffu64 == 0x24u64 && 0x81u64 & 0xffffu64 == 0x81u64 && 0x08u64 & 0xffffu64
        == 0x08u64 && 0x10u64 & 0xffffu64 == 0x10u64) by (bit_vector);
    assert(0x00ff000000000000u64 & 0xffff000000000000u64 == 0x00ff000000000000u64
        && 0x4200000000000000u64 & 0xffff000000000000u64 == 0x4200000000000000u64
        && 0x2400000000000000u64 & 0xffff000000000000u64 == 0x2400000000000000u64
        && 0x8100000000000000u64 & 0xffff000000000000u64 == 0x8100000000000000u64
        && 0x0800000000000000u64 & 0xffff000000000000u64 == 0x0800000000000000u64
        && 0x1000000000000000u64 & 0xffff000000000000u64 == 0x1000000000000000u64) by (bit_vector);
    assert forall|s: Square, a: Piece, b: Piece|
        s.wf() && a != b implies !(#[trigger] sq_bit(mask_of(p, a), s) && #[trigger] sq_bit(
        mask_of(p, b),
        s,
    )) by {
        if a != Piece::Empty && b != Piece::Empty {
            assert(mask_of(p, a) & mask_of(p, b) == 0);
            lemma_and_zero_disjoint(mask_of(p, a), mask_of(p, b), s.spec_index() as u64);
        } else {
            lemma_mask_get_zero(s.spec_index() as u64);
        }
    }
    assert(0x10u64 == 1u64 << 4) by (bit_vector);
    assert(0x1000000000000000u64 == 1u64 << 60) by (bit_vector);
    let e1 = Square { file: 4, rank: 0 };
    let e8 = Square { file: 4, rank: 7 };
    lemma_single_bit(0x10u64, 4, e1.spec_index() as u64);
    assert(sq_bit(mask_of(p, Piece::WKing), e1));
    lemma_single_bit(0x1000000000000000u64, 60, e8.spec_index() as u64);
    assert(sq_bit(mask_of(p, Piece::BKing), e8));
    assert(has_king(p, Player::White) && has_king(p, Player::Black));
    assert forall|s: Square, t: Square|
        s.wf() && t.wf() && sq_bit(mask_of(p, Piece::spec_player_piece(Player::White, Piece::WKing)), s)
            && sq_bit(mask_of(p, Piece::spec_player_piece(Player::White, Piece::WKing)), t)
        implies s == t by {
        lemma_single_bit(0x10u64, 4, s.spec_index() as u64);
        lemma_single_bit(0x10u64, 4, t.spec_index() as u64);
        Square::lemma_index_injective(s, t);
    }
    assert forall|s: Square, t: Square|
        s.wf() && t.wf() && sq_bit(mask_of(p, Piece::spec_player_piece(Player::Black, Piece::WKing)), s)
            && sq_bit(mask_of(p, Piece::spec_player_piece(Player::Black, Piece::WKing)), t)
        implies s == t by {
        lemma_single_bit(0x1000000000000000u64, 60, s.spec_index() as u64);
        lemma_single_bit(0x1000000000000000u64, 60, t.spec_index() as u64);
        Square::lemma_index_injective(s, t);
    }
}

} // verus!

verus! {

/// Whether the generated move `mm` answers the request `m`: same squares,
/// and the same promotion kind when one was requested (a request without a
/// promotion matches any non-promoting move, so a bare `e1g1` finds the
/// castling and a bare pawn capture finds the en-passant move).
pub open spec fn matches_request(m: PieceMove, mm: PieceMove) -> bool {
    mm.from == m.from && mm.to == m.to && match m.move_type {
        PieceMoveType::Promotion(q) => mm.move_type == PieceMoveType::Promotion(q),
        _ => !(mm.move_type is Promotion),
    }
}

impl Board {
    /// Find the legal move answering the request `m`, if any: the move
    /// with the requested squares, resolved to its concrete kind.
    pub fn resolve_request(&self, m: PieceMove) -> (r: Option<PieceMove>)
        requires
            self.wf(),
        ensures
            match r {
                Option::Some(mm) => crate::moves::legal_move(self.position, mm)
                    && matches_request(m, mm),
                Option::None => forall|mm: PieceMove|
                    crate::moves::legal_move(self.position, mm) ==> !#[trigger] matches_request(
                        m,
                        mm,
                    ),
            },
    {
        if !(m.from.file < 8 && m.from.rank < 8) {
            proof {
                assert forall|mm: PieceMove| crate::moves::legal_move(self.position, mm)
                    implies !#[trigger] matches_request(m, mm) by {
                    if matches_request(m, mm) {
                        crate::moves::lemma_candidate_applyable(self.position, mm);
                    }
                }
            }
            return Option::None;
        }
        let cand = crate::moves::legal_moves_from(&self.position, m.from);
        let mut i: usize = 0;
        while i < cand.len()
            invariant
                self.wf(),
                i <= cand@.len(),
                forall|mm: PieceMove| #[trigger] cand@.contains(mm) <==> crate::moves::legal_move(
                    self.position,
                    mm,
                ) && mm.from == m.from,
                forall|j: int| 0 <= j < i ==> !matches_request(m, #[trigger] cand@[j]),
            decreases cand@.len() - i,
        {
            let mm = cand[i];
            let hit = mm.to == m.to && match (m.move_type, mm.move_type) {
                (PieceMoveType::Promotion(q1), PieceMoveType::Promotion(q2)) => q1 == q2,
                (PieceMoveType::Promotion(_), _) => false,
                (_, PieceMoveType::Promotion(_)) => false,
                _ => true,
            };
            if hit {
                proof {
                    assert(cand@.contains(cand@[i as int]));
                    assert(matches_request(m, mm));
                }
                return Option::Some(mm);
            }
            proof {
                assert(!matches_request(m, cand@[i as int]));
            }
            i = i + 1;
        }
        proof {
            assert forall|mm: PieceMove| crate::moves::legal_move(self.position, mm)
                implies !#[trigger] matches_request(m, mm) by {
                if matches_request(m, mm) {
                    assert(cand@.contains(mm));
                    let j = choose|j: int| 0 <= j < cand@.len() && cand@[j] == mm;
                }
            }
        }
        Option::None
    }

    /// Resolve the request `m` against the legal moves and play the move it
    /// names, if there is one: the move-request path a front end or the
    /// engine reply feeds into the board.
    pub fn request_move(&mut self, m: PieceMove) -> (r: Option<PieceMoveType>)
        requires
            old(self).wf(),
            old(self).move_history.moves@.len() < usize::MAX,
        ensures
            match r {
                Option::None => *final(self) == *old(self) && forall|mm: PieceMove|
                    crate::moves::legal_move(old(self).position, mm)
                        ==> !#[trigger] matches_request(m, mm),
                Option::Some(rt) => exists|mm: PieceMove|
                    #[trigger] crate::moves::legal_move(old(self).position, mm)
                        && matches_request(m, mm)
                        && final(self).position == apply_pos(old(self).position, mm)
                        && rt == resolve_type(old(self).position, mm)
                        && final(self).move_history.current == old(self).move_history.current
                        + 1,
            },
    {
        match self.resolve_request(m) {
            Option::Some(mm) => {
                proof {
                    crate::moves::lemma_candidate_applyable(self.position, mm);
                }
                let rt = self.apply_move(mm);
                Option::Some(rt)
            },
            Option::None => Option::None,
        }
    }
}

} // verus!
