//! Pseudolegal and legal move generation: per-piece generators sharing a
//! directional-ray walker, the attack query, castling, the legality filter,
//! and checkmate/stalemate detection.
//!
//! A pseudolegal move obeys the piece's movement pattern and occupancy rules;
//! a legal move is a pseudolegal one that does not leave the mover's own king
//! attacked. The attack query deliberately uses pseudolegal moves (castling
//! excluded), so that attack detection never needs legality itself.

use vstd::prelude::*;
use crate::board::{
    apply_pos, applyable, captured_piece_of, disjoint, ep_capture_square, history_of,
    lemma_apply_preserves_own_king, lemma_piece_on_bit, lemma_undo_inverts_apply, mask_of,
    one_king, piece_on, position_wf, resolve_type, undo_pos, Position,
};
use crate::bitboard::sq_bit;
use crate::move_history::HistoryMove;
use crate::piece::{Piece, Player};
use crate::piece_move::{spec_promo_char, PieceMove, PieceMoveType};
use crate::square::Square;

verus! {

broadcast use vstd::seq_lib::lemma_seq_contains_after_push;

/// Both coordinates lie on the board.
pub open spec fn on_board(f: int, r: int) -> bool {
    0 <= f < 8 && 0 <= r < 8
}

/// The square with the given coordinates.
pub open spec fn sq_at(f: int, r: int) -> Square {
    Square { file: f as u8, rank: r as u8 }
}

/// The player owning the occupant of `s`, if any.
pub open spec fn owner_of(p: Position, s: Square) -> Option<Player> {
    piece_on(p, s).spec_owner()
}

/// Square `s` is unoccupied.
pub open spec fn empty_at(p: Position, s: Square) -> bool {
    piece_on(p, s) == Piece::Empty
}

/// The eight knight offsets.
pub open spec fn knight_jump(df: int, dr: int) -> bool {
    ||| (df == 1 && dr == 2)
    ||| (df == 2 && dr == 1)
    ||| (df == 2 && dr == -1)
    ||| (df == 1 && dr == -2)
    ||| (df == -1 && dr == -2)
    ||| (df == -2 && dr == -1)
    ||| (df == -2 && dr == 1)
    ||| (df == -1 && dr == 2)
}

/// The eight one-square king steps.
pub open spec fn king_step(df: int, dr: int) -> bool {
    -1 <= df <= 1 && -1 <= dr <= 1 && !(df == 0 && dr == 0)
}

/// `to` is on the board and does not hold one of `player`'s own pieces.
pub open spec fn target_ok(p: Position, player: Player, to: Square) -> bool {
    to.wf() && owner_of(p, to) != Option::Some(player)
}

/// A knight standing on `from` may step to `to`.
pub open spec fn knight_to(p: Position, player: Player, from: Square, to: Square) -> bool {
    target_ok(p, player, to) && knight_jump(to.file - from.file, to.rank - from.rank)
}

/// A king standing on `from` may step to `to` (castling aside).
pub open spec fn king_to(p: Position, player: Player, from: Square, to: Square) -> bool {
    target_ok(p, player, to) && king_step(to.file - from.file, to.rank - from.rank)
}

/// Push the normal move to `(from.file + df, from.rank + dr)` if that square
/// is on the board and does not hold one of `player`'s own pieces; do
/// nothing otherwise.
fn try_add_offset(
    p: &Position,
    player: Player,
    from: Square,
    df: i8,
    dr: i8,
    moves: &mut Vec<PieceMove>,
)
    requires
        from.wf(),
        -2 <= df <= 2,
        -2 <= dr <= 2,
    ensures
        ({
            let f = from.file + df as int;
            let r = from.rank + dr as int;
            if on_board(f, r) && owner_of(*p, sq_at(f, r)) != Option::Some(player) {
                final(moves)@ == old(moves)@.push(
                    PieceMove { from, to: sq_at(f, r), move_type: PieceMoveType::Normal },
                )
            } else {
                final(moves)@ == old(moves)@
            }
        }),
{
    let f = from.file as i16 + df as i16;
    let r = from.rank as i16 + dr as i16;
    if f >= 0 && f < 8 && r >= 0 && r < 8 {
        let to = Square { file: f as u8, rank: r as u8 };
        let occ = p.get_piece(to);
        let own = match occ.owner() {
            Option::Some(pl) => pl == player,
            Option::None => false,
        };
        if !own {
            moves.push(PieceMove { from, to, move_type: PieceMoveType::Normal });
        }
    }
}

/// Append every knight move from `from`: the eight jump offsets, filtered to
/// on-board squares not occupied by one of `player`'s own pieces.
pub fn knight_moves(p: &Position, player: Player, from: Square, moves: &mut Vec<PieceMove>)
    requires
        from.wf(),
    ensures
        forall|mm: PieceMove|
            #[trigger] final(moves)@.contains(mm) <==> old(moves)@.contains(mm) || (mm.from == from
                && mm.move_type == PieceMoveType::Normal && knight_to(*p, player, from, mm.to)),
{
    try_add_offset(p, player, from, 1, 2, moves);
    try_add_offset(p, player, from, 2, 1, moves);
    try_add_offset(p, player, from, 2, -1, moves);
    try_add_offset(p, player, from, 1, -2, moves);
    try_add_offset(p, player, from, -1, -2, moves);
    try_add_offset(p, player, from, -2, -1, moves);
    try_add_offset(p, player, from, -2, 1, moves);
    try_add_offset(p, player, from, -1, 2, moves);
}

/// Append every one-square king move from `from` (castling handled
/// separately).
pub fn king_moves(p: &Position, player: Player, from: Square, moves: &mut Vec<PieceMove>)
    requires
        from.wf(),
    ensures
        forall|mm: PieceMove|
            #[trigger] final(moves)@.contains(mm) <==> old(moves)@.contains(mm) || (mm.from == from
                && mm.move_type == PieceMoveType::Normal && king_to(*p, player, from, mm.to)),
{
    try_add_offset(p, player, from, 1, 0, moves);
    try_add_offset(p, player, from, 1, 1, moves);
    try_add_offset(p, player, from, 0, 1, moves);
    try_add_offset(p, player, from, -1, 1, moves);
    try_add_offset(p, player, from, -1, 0, moves);
    try_add_offset(p, player, from, -1, -1, moves);
    try_add_offset(p, player, from, 0, -1, moves);
    try_add_offset(p, player, from, 1, -1, moves);
}

} // verus!

verus! {

/// A one-square direction: each component in `{-1, 0, 1}`, not both zero.
pub open spec fn unit_dir(df: int, dr: int) -> bool {
    -1 <= df <= 1 && -1 <= dr <= 1 && !(df == 0 && dr == 0)
}

/// A diagonal direction.
pub open spec fn diag_dir(df: int, dr: int) -> bool {
    (df == 1 || df == -1) && (dr == 1 || dr == -1)
}

/// An orthogonal direction.
pub open spec fn ortho_dir(df: int, dr: int) -> bool {
    (df == 0 && (dr == 1 || dr == -1)) || (dr == 0 && (df == 1 || df == -1))
}

/// The file reached after `k` steps in direction `df`.
pub open spec fn ray_f(from: Square, df: int, k: int) -> int {
    from.file + k * df
}

/// The rank reached after `k` steps in direction `dr`.
pub open spec fn ray_r(from: Square, dr: int, k: int) -> int {
    from.rank + k * dr
}

/// The square reached after `k` steps in direction `(df, dr)`.
pub open spec fn ray_sq(from: Square, df: int, dr: int, k: int) -> Square {
    sq_at(ray_f(from, df, k), ray_r(from, dr, k))
}

/// Step `k` of the ray is still on the board.
pub open spec fn ray_on_board(from: Square, df: int, dr: int, k: int) -> bool {
    on_board(ray_f(from, df, k), ray_r(from, dr, k))
}

/// Every step strictly between the start and step `k` is on the board and
/// unoccupied.
pub open spec fn ray_clear(p: Position, from: Square, df: int, dr: int, k: int) -> bool
    decreases k,
{
    k <= 1 || (ray_on_board(from, df, dr, k - 1) && empty_at(p, ray_sq(from, df, dr, k - 1))
        && ray_clear(p, from, df, dr, k - 1))
}

/// One step of a clear ray prefix is on the board and unoccupied.
pub proof fn lemma_ray_clear_at(p: Position, from: Square, df: int, dr: int, k: int, j: int)
    requires
        ray_clear(p, from, df, dr, k),
        1 <= j < k,
    ensures
        ray_on_board(from, df, dr, j),
        empty_at(p, ray_sq(from, df, dr, j)),
    decreases k,
{
    if j < k - 1 {
        lemma_ray_clear_at(p, from, df, dr, k - 1, j);
    }
}

/// Step `k` of the ray is a valid sliding destination: on the board, the
/// path to it clear, and not blocked by one of `player`'s own pieces.
pub open spec fn slide_ok(p: Position, player: Player, from: Square, df: int, dr: int, k: int) -> bool {
    ray_on_board(from, df, dr, k) && ray_clear(p, from, df, dr, k) && owner_of(
        p,
        ray_sq(from, df, dr, k),
    ) != Option::Some(player)
}

/// A slider on `from` reaches `to` along direction `(df, dr)`.
pub open spec fn slide_to(p: Position, player: Player, from: Square, df: int, dr: int, to: Square) -> bool {
    exists|k: int|
        1 <= k < 8 && #[trigger] slide_ok(p, player, from, df, dr, k) && ray_sq(
            from,
            df,
            dr,
            k,
        ) == to
}

/// A slider on `from` reaches `to` along some admitted direction.
pub open spec fn slides_to(
    p: Position,
    player: Player,
    from: Square,
    to: Square,
    diag: bool,
    ortho: bool,
) -> bool {
    exists|df: int, dr: int|
        #![auto]
        ((diag && diag_dir(df, dr)) || (ortho && ortho_dir(df, dr))) && slide_to(
            p,
            player,
            from,
            df,
            dr,
            to,
        )
}

/// A ray that has left the board never returns.
proof fn lemma_ray_off(from: Square, df: int, dr: int, k: int, k2: int)
    requires
        from.wf(),
        unit_dir(df, dr),
        1 <= k <= k2,
        !ray_on_board(from, df, dr, k),
    ensures
        !ray_on_board(from, df, dr, k2),
{
    let f0 = from.file as int;
    let r0 = from.rank as int;
    if f0 + k * df >= 8 {
        assert(f0 + k2 * df >= 8) by (nonlinear_arith)
            requires
                f0 + k * df >= 8,
                f0 <= 7,
                1 <= k <= k2,
                -1 <= df <= 1,
        ;
    } else if f0 + k * df < 0 {
        assert(f0 + k2 * df < 0) by (nonlinear_arith)
            requires
                f0 + k * df < 0,
                f0 >= 0,
                1 <= k <= k2,
                -1 <= df <= 1,
        ;
    } else if r0 + k * dr >= 8 {
        assert(r0 + k2 * dr >= 8) by (nonlinear_arith)
            requires
                r0 + k * dr >= 8,
                r0 <= 7,
                1 <= k <= k2,
                -1 <= dr <= 1,
        ;
    } else {
        assert(r0 + k * dr < 0);
        assert(r0 + k2 * dr < 0) by (nonlinear_arith)
            requires
                r0 + k * dr < 0,
                r0 >= 0,
                1 <= k <= k2,
                -1 <= dr <= 1,
        ;
    }
}

/// Walk one ray from `from`, appending a normal move for every square up to
/// and including the first blocker (the blocker's square only when an enemy
/// piece stands there).
#[verifier::rlimit(60)]
fn walk_ray(p: &Position, player: Player, from: Square, df: i8, dr: i8, moves: &mut Vec<PieceMove>)
    requires
        from.wf(),
        unit_dir(df as int, dr as int),
    ensures
        forall|mm: PieceMove|
            #[trigger] final(moves)@.contains(mm) <==> old(moves)@.contains(mm) || (mm.from == from
                && mm.move_type == PieceMoveType::Normal && slide_to(
                *p,
                player,
                from,
                df as int,
                dr as int,
                mm.to,
            )),
{
    let ghost dfi = df as int;
    let ghost dri = dr as int;
    let mut k: u8 = 1;
    loop
        invariant_except_break
            from.wf(),
            unit_dir(dfi, dri),
            dfi == df as int,
            dri == dr as int,
            1 <= k <= 8,
            ray_clear(*p, from, dfi, dri, k as int),
            forall|mm: PieceMove| #![auto]
                moves@.contains(mm) <==> old(moves)@.contains(mm) || (mm.from == from
                    && mm.move_type == PieceMoveType::Normal && exists|kk: int|
                    1 <= kk < k && #[trigger] slide_ok(*p, player, from, dfi, dri, kk) && ray_sq(
                    from,
                    dfi,
                    dri,
                    kk,
                ) == mm.to),
        ensures
            forall|mm: PieceMove| #![auto]
                moves@.contains(mm) <==> old(moves)@.contains(mm) || (mm.from == from
                    && mm.move_type == PieceMoveType::Normal && slide_to(
                    *p,
                    player,
                    from,
                    dfi,
                    dri,
                    mm.to,
                )),
        decreases 8 - k,
    {
        proof {
            assert(-8 <= (k as int) * dfi && (k as int) * dfi <= 8) by (nonlinear_arith)
                requires
                    1 <= k <= 8,
                    -1 <= dfi <= 1,
            ;
            assert(-8 <= (k as int) * dri && (k as int) * dri <= 8) by (nonlinear_arith)
                requires
                    1 <= k <= 8,
                    -1 <= dri <= 1,
            ;
        }
        let f = from.file as i16 + (k as i16) * (df as i16);
        let r = from.rank as i16 + (k as i16) * (dr as i16);
        if f < 0 || f >= 8 || r < 0 || r >= 8 {
            proof {
                assert(!ray_on_board(from, dfi, dri, k as int));
                assert forall|kk: int| k <= kk < 8 implies !slide_ok(
                    *p,
                    player,
                    from,
                    dfi,
                    dri,
                    kk,
                ) by {
                    lemma_ray_off(from, dfi, dri, k as int, kk);
                }
            }
            break;
        }
        let to = Square { file: f as u8, rank: r as u8 };
        proof {
            assert(f as int == ray_f(from, dfi, k as int));
            assert(r as int == ray_r(from, dri, k as int));
            assert(ray_on_board(from, dfi, dri, k as int));
            assert(to == ray_sq(from, dfi, dri, k as int));
            assert(k < 8) by {
                if k == 8 {
                    assert(from.file + 8 * dfi == f);
                    assert(from.rank + 8 * dri == r);
                    assert(false);
                }
            }
        }
        let occ = p.get_piece(to);
        let own = match occ.owner() {
            Option::Some(pl) => pl == player,
            Option::None => false,
        };
        if own {
            proof {
                assert forall|kk: int| k <= kk < 8 implies !slide_ok(
                    *p,
                    player,
                    from,
                    dfi,
                    dri,
                    kk,
                ) by {
                    if kk > k && ray_clear(*p, from, dfi, dri, kk) {
                        lemma_ray_clear_at(*p, from, dfi, dri, kk, k as int);
                    }
                }
            }
            break;
        }
        moves.push(PieceMove { from, to, move_type: PieceMoveType::Normal });
        proof {
            assert(slide_ok(*p, player, from, dfi, dri, k as int));
        }
        if occ != Piece::Empty {
            proof {
                assert forall|kk: int| k + 1 <= kk < 8 implies !slide_ok(
                    *p,
                    player,
                    from,
                    dfi,
                    dri,
                    kk,
                ) by {
                    if ray_clear(*p, from, dfi, dri, kk) {
                        lemma_ray_clear_at(*p, from, dfi, dri, kk, k as int);
                    }
                }
            }
            break;
        }
        proof {
            assert(ray_clear(*p, from, dfi, dri, k as int + 1));
        }
        k = k + 1;
    }
}

/// Append every sliding move from `from` along the admitted directions:
/// the four diagonals, the four orthogonals, or both.
pub fn slider_moves(
    p: &Position,
    player: Player,
    from: Square,
    diag: bool,
    ortho: bool,
    moves: &mut Vec<PieceMove>,
)
    requires
        from.wf(),
    ensures
        forall|mm: PieceMove|
            #[trigger] final(moves)@.contains(mm) <==> old(moves)@.contains(mm) || (mm.from == from
                && mm.move_type == PieceMoveType::Normal && slides_to(
                *p,
                player,
                from,
                mm.to,
                diag,
                ortho,
            )),
{
    if diag {
        diag_moves(p, player, from, moves);
    }
    if ortho {
        ortho_moves(p, player, from, moves);
    }
}

/// Append every diagonal sliding move from `from`.
fn diag_moves(p: &Position, player: Player, from: Square, moves: &mut Vec<PieceMove>)
    requires
        from.wf(),
    ensures
        forall|mm: PieceMove|
            #[trigger] final(moves)@.contains(mm) <==> old(moves)@.contains(mm) || (mm.from == from
                && mm.move_type == PieceMoveType::Normal && exists|df: int, dr: int|
                diag_dir(df, dr) && #[trigger] slide_to(*p, player, from, df, dr, mm.to)),
{
    walk_ray(p, player, from, 1, 1, moves);
    walk_ray(p, player, from, 1, -1, moves);
    walk_ray(p, player, from, -1, 1, moves);
    walk_ray(p, player, from, -1, -1, moves);
    proof {
        assert forall|mm: PieceMove|
            (exists|df: int, dr: int|
                diag_dir(df, dr) && #[trigger] slide_to(*p, player, from, df, dr, mm.to))
            implies ((slide_to(*p, player, from, 1, 1, mm.to) || slide_to(
            *p,
            player,
            from,
            1,
            -1,
            mm.to,
        ) || slide_to(*p, player, from, -1, 1, mm.to) || slide_to(
            *p,
            player,
            from,
            -1,
            -1,
            mm.to,
        ))) by {
            let (df, dr) = choose|df: int, dr: int|
                diag_dir(df, dr) && #[trigger] slide_to(*p, player, from, df, dr, mm.to);
        }
    }
}

/// Append every orthogonal sliding move from `from`.
fn ortho_moves(p: &Position, player: Player, from: Square, moves: &mut Vec<PieceMove>)
    requires
        from.wf(),
    ensures
        forall|mm: PieceMove|
            #[trigger] final(moves)@.contains(mm) <==> old(moves)@.contains(mm) || (mm.from == from
                && mm.move_type == PieceMoveType::Normal && exists|df: int, dr: int|
                ortho_dir(df, dr) && #[trigger] slide_to(*p, player, from, df, dr, mm.to)),
{
    walk_ray(p, player, from, 1, 0, moves);
    walk_ray(p, player, from, -1, 0, moves);
    walk_ray(p, player, from, 0, 1, moves);
    walk_ray(p, player, from, 0, -1, moves);
    proof {
        assert forall|mm: PieceMove|
            (exists|df: int, dr: int|
                ortho_dir(df, dr) && #[trigger] slide_to(*p, player, from, df, dr, mm.to))
            implies ((slide_to(*p, player, from, 1, 0, mm.to) || slide_to(
            *p,
            player,
            from,
            -1,
            0,
            mm.to,
        ) || slide_to(*p, player, from, 0, 1, mm.to) || slide_to(
            *p,
            player,
            from,
            0,
            -1,
            mm.to,
        ))) by {
            let (df, dr) = choose|df: int, dr: int|
                ortho_dir(df, dr) && #[trigger] slide_to(*p, player, from, df, dr, mm.to);
        }
    }
}

} // verus!

verus! {

/// The direction `player`'s pawns advance in.
pub open spec fn pawn_dir(player: Player) -> int {
    match player {
        Player::White => 1,
        Player::Black => -1,
    }
}

/// The rank `player`'s pawns double-push from.
pub open spec fn pawn_start_rank(player: Player) -> int {
    match player {
        Player::White => 1,
        Player::Black => 6,
    }
}

/// The rank `player`'s pawns promote on.
pub open spec fn pawn_last_rank(player: Player) -> int {
    match player {
        Player::White => 7,
        Player::Black => 0,
    }
}

/// `q` is a piece kind `player`'s pawns may promote to.
pub open spec fn pawn_promo_kind(player: Player, q: Piece) -> bool {
    q.spec_owner() == Option::Some(player) && spec_promo_char(q).is_some()
}

/// The move kind a pawn arrival at `to` must carry: a promotion to one of
/// the player's promotion kinds on the far rank, a normal move elsewhere.
pub open spec fn pawn_arrival_type(player: Player, to: Square, mt: PieceMoveType) -> bool {
    if to.rank == pawn_last_rank(player) {
        match mt {
            PieceMoveType::Promotion(q) => pawn_promo_kind(player, q),
            _ => false,
        }
    } else {
        mt == PieceMoveType::Normal
    }
}

/// A pawn of `player` standing on `m.from` may push along its file: a
/// single step to an empty square, or a double step from the start rank
/// across two empty squares.
pub open spec fn pawn_push_to(p: Position, player: Player, m: PieceMove) -> bool {
    let d = pawn_dir(player);
    let from = m.from;
    let to = m.to;
    &&& to.wf()
    &&& ({
    ||| (to.file == from.file && to.rank == from.rank + d && empty_at(p, to)
        && pawn_arrival_type(player, to, m.move_type))
    ||| (to.file == from.file && from.rank == pawn_start_rank(player) && to.rank == from.rank
        + 2 * d && empty_at(p, sq_at(from.file as int, from.rank + d)) && empty_at(p, to)
        && m.move_type == PieceMoveType::Normal)
    })
}

/// A pawn of `player` standing on `m.from` may take diagonally: a capture of
/// an enemy piece, or an en-passant capture onto the board's en-passant
/// target with the enemy pawn on the square behind it.
pub open spec fn pawn_diag_to(p: Position, player: Player, m: PieceMove) -> bool {
    let d = pawn_dir(player);
    let from = m.from;
    let to = m.to;
    &&& to.wf()
    &&& (to.file == from.file + 1 || to.file + 1 == from.file)
    &&& to.rank == from.rank + d
    &&& ({
    ||| (owner_of(p, to) == Option::Some(player.spec_other()) && pawn_arrival_type(
        player,
        to,
        m.move_type,
    ))
    ||| (p.en_passant == Option::Some(to) && empty_at(p, to) && piece_on(
        p,
        ep_capture_square(m),
    ) == Piece::spec_player_piece(player.spec_other(), Piece::WPawn) && m.move_type
        == PieceMoveType::EnPassant)
    })
}

/// A pawn of `player` standing on `m.from` may play `m`.
pub open spec fn pawn_to(p: Position, player: Player, m: PieceMove) -> bool {
    pawn_push_to(p, player, m) || pawn_diag_to(p, player, m)
}

/// Push the pawn arrival(s) at `to`: the four promotions on the far rank,
/// one normal move elsewhere.
fn push_pawn_arrivals(player: Player, from: Square, to: Square, moves: &mut Vec<PieceMove>)
    requires
        from.wf(),
        to.wf(),
    ensures
        forall|mm: PieceMove|
            #[trigger] final(moves)@.contains(mm) <==> old(moves)@.contains(mm) || (mm.from == from && mm.to
                == to && pawn_arrival_type(player, to, mm.move_type)),
{
    let last: u8 = match player {
        Player::White => 7,
        Player::Black => 0,
    };
    if to.rank == last {
        let qn = Piece::get_player_piece(player, Piece::WQueen);
        let rk = Piece::get_player_piece(player, Piece::WRook);
        let bp = Piece::get_player_piece(player, Piece::WBishop);
        let kn = Piece::get_player_piece(player, Piece::WKnight);
        moves.push(PieceMove { from, to, move_type: PieceMoveType::Promotion(qn) });
        moves.push(PieceMove { from, to, move_type: PieceMoveType::Promotion(rk) });
        moves.push(PieceMove { from, to, move_type: PieceMoveType::Promotion(bp) });
        moves.push(PieceMove { from, to, move_type: PieceMoveType::Promotion(kn) });
    } else {
        moves.push(PieceMove { from, to, move_type: PieceMoveType::Normal });
    }
}

/// Append the push moves a pawn of `player` on `from` has.
fn pawn_pushes(p: &Position, player: Player, from: Square, moves: &mut Vec<PieceMove>)
    requires
        from.wf(),
    ensures
        forall|mm: PieceMove|
            #[trigger] final(moves)@.contains(mm) <==> old(moves)@.contains(mm) || (mm.from
                == from && pawn_push_to(*p, player, mm)),
{
    let d: i16 = match player {
        Player::White => 1,
        Player::Black => -1,
    };
    let start: u8 = match player {
        Player::White => 1,
        Player::Black => 6,
    };
    let r1 = from.rank as i16 + d;
    if r1 >= 0 && r1 < 8 {
        let push_to = Square { file: from.file, rank: r1 as u8 };
        if p.get_piece(push_to) == Piece::Empty {
            push_pawn_arrivals(player, from, push_to, moves);
            if from.rank == start {
                let r2 = from.rank as i16 + 2 * d;
                let dbl_to = Square { file: from.file, rank: r2 as u8 };
                if p.get_piece(dbl_to) == Piece::Empty {
                    moves.push(PieceMove { from, to: dbl_to, move_type: PieceMoveType::Normal });
                }
            }
        }
    }
}

/// Append the diagonal capture or en-passant move a pawn of `player` on
/// `from` has toward the higher (`to_right`) or lower file.
fn pawn_diag(p: &Position, player: Player, from: Square, to_right: bool, moves: &mut Vec<PieceMove>)
    requires
        from.wf(),
    ensures
        forall|mm: PieceMove|
            #[trigger] final(moves)@.contains(mm) <==> old(moves)@.contains(mm) || (mm.from == from
                && pawn_diag_to(*p, player, mm) && (if to_right {
                mm.to.file == from.file + 1
            } else {
                mm.to.file + 1 == from.file
            })),
{
    let d: i16 = match player {
        Player::White => 1,
        Player::Black => -1,
    };
    let r1 = from.rank as i16 + d;
    let f1 = if to_right {
        from.file as i16 + 1
    } else {
        from.file as i16 - 1
    };
    if r1 >= 0 && r1 < 8 && f1 >= 0 && f1 < 8 {
        let to = Square { file: f1 as u8, rank: r1 as u8 };
        let occ = p.get_piece(to);
        let enemy = match occ.owner() {
            Option::Some(pl) => pl == player.other(),
            Option::None => false,
        };
        if enemy {
            push_pawn_arrivals(player, from, to, moves);
        } else {
            let ep_matches = match p.en_passant {
                Option::Some(s) => s == to,
                Option::None => false,
            };
            if ep_matches && occ == Piece::Empty {
                let cap = Square { file: to.file, rank: from.rank };
                let opp_pawn = Piece::get_player_piece(player.other(), Piece::WPawn);
                if p.get_piece(cap) == opp_pawn {
                    moves.push(PieceMove { from, to, move_type: PieceMoveType::EnPassant });
                }
            }
        }
    }
}

/// Append every pawn move of `player` from `from`.
pub fn pawn_moves(p: &Position, player: Player, from: Square, moves: &mut Vec<PieceMove>)
    requires
        from.wf(),
    ensures
        forall|mm: PieceMove|
            #[trigger] final(moves)@.contains(mm) <==> old(moves)@.contains(mm) || (mm.from == from
                && pawn_to(*p, player, mm)),
{
    let ghost g0 = moves@;
    pawn_pushes(p, player, from, moves);
    let ghost g1 = moves@;
    pawn_diag(p, player, from, false, moves);
    let ghost g2 = moves@;
    pawn_diag(p, player, from, true, moves);
    proof {
        assert forall|mm: PieceMove| #![auto] moves@.contains(mm) implies g0.contains(mm) || (
        mm.from == from && pawn_to(*p, player, mm)) by {
            let ghost c0 = g0.contains(mm);
            let ghost c1 = g1.contains(mm);
            let ghost c2 = g2.contains(mm);
            assert(g2.contains(mm) || (mm.from == from && pawn_diag_to(*p, player, mm)));
            assert(g1.contains(mm) || (mm.from == from && pawn_to(*p, player, mm)));
        }
        assert forall|mm: PieceMove| #![auto] mm.from == from && pawn_to(*p, player, mm)
            implies moves@.contains(mm) by {
            let ghost c0 = g0.contains(mm);
            let ghost c1 = g1.contains(mm);
            let ghost c2 = g2.contains(mm);
            let ghost c3 = moves@.contains(mm);
            if pawn_push_to(*p, player, mm) {
                assert(g1.contains(mm));
                assert(g2.contains(mm));
            } else if mm.to.file + 1 == from.file {
                assert(g2.contains(mm));
            } else {
                assert(mm.to.file == from.file + 1);
            }
        }
    }
}

} // verus!

verus! {

/// `m` is a pseudolegal move for `player` on `p` (castling aside): the moved
/// piece belongs to `player` and `m` follows that piece's movement pattern
/// and occupancy rules. A pseudolegal move may still leave the mover's own
/// king attacked.
pub open spec fn pl_move(p: Position, player: Player, m: PieceMove) -> bool {
    let pc = piece_on(p, m.from);
    &&& m.from.wf()
    &&& pc.spec_owner() == Option::Some(player)
    &&& ({
        if pc == Piece::spec_player_piece(player, Piece::WKnight) {
            m.move_type == PieceMoveType::Normal && knight_to(p, player, m.from, m.to)
        } else if pc == Piece::spec_player_piece(player, Piece::WBishop) {
            m.move_type == PieceMoveType::Normal && slides_to(p, player, m.from, m.to, true, false)
        } else if pc == Piece::spec_player_piece(player, Piece::WRook) {
            m.move_type == PieceMoveType::Normal && slides_to(p, player, m.from, m.to, false, true)
        } else if pc == Piece::spec_player_piece(player, Piece::WQueen) {
            m.move_type == PieceMoveType::Normal && slides_to(p, player, m.from, m.to, true, true)
        } else if pc == Piece::spec_player_piece(player, Piece::WKing) {
            m.move_type == PieceMoveType::Normal && king_to(p, player, m.from, m.to)
        } else {
            pawn_to(p, player, m)
        }
    })
}

/// Append every pseudolegal move of `player` from `from` (castling aside).
pub fn pseudo_moves_from(p: &Position, player: Player, from: Square, moves: &mut Vec<PieceMove>)
    requires
        from.wf(),
    ensures
        forall|mm: PieceMove|
            #[trigger] final(moves)@.contains(mm) <==> old(moves)@.contains(mm) || (mm.from
                == from && pl_move(*p, player, mm)),
{
    let pc = p.get_piece(from);
    if pc.is_player(player) {
        match pc {
            Piece::WKnight | Piece::BKnight => knight_moves(p, player, from, moves),
            Piece::WBishop | Piece::BBishop => slider_moves(p, player, from, true, false, moves),
            Piece::WRook | Piece::BRook => slider_moves(p, player, from, false, true, moves),
            Piece::WQueen | Piece::BQueen => slider_moves(p, player, from, true, true, moves),
            Piece::WKing | Piece::BKing => king_moves(p, player, from, moves),
            _ => pawn_moves(p, player, from, moves),
        }
    }
}

/// Append every pseudolegal move of `player` anywhere on the board.
pub fn pseudo_moves(p: &Position, player: Player) -> (r: Vec<PieceMove>)
    ensures
        forall|mm: PieceMove| #[trigger] r@.contains(mm) <==> pl_move(*p, player, mm),
{
    let mut moves: Vec<PieceMove> = Vec::new();
    let mut f: u8 = 0;
    while f < 8
        invariant
            f <= 8,
            forall|mm: PieceMove|
                #[trigger] moves@.contains(mm) <==> pl_move(*p, player, mm) && mm.from.file < f,
        decreases 8 - f,
    {
        let mut r: u8 = 0;
        while r < 8
            invariant
                r <= 8,
                f < 8,
                forall|mm: PieceMove|
                    #[trigger] moves@.contains(mm) <==> pl_move(*p, player, mm) && (mm.from.file
                        < f || (mm.from.file == f && mm.from.rank < r)),
            decreases 8 - r,
        {
            pseudo_moves_from(p, player, Square { file: f, rank: r }, &mut moves);
            r = r + 1;
        }
        f = f + 1;
    }
    moves
}

/// Some pseudolegal move of `by` lands on `target`: the attack query. Pawn
/// pushes count as pseudolegal moves, so an empty square in front of a pawn
/// reads as attacked; a castling never attacks a square.
pub open spec fn attacked(p: Position, by: Player, target: Square) -> bool {
    exists|m: PieceMove| #[trigger] pl_move(p, by, m) && m.to == target
}

/// Whether some pseudolegal move of `by` lands on `target`.
pub fn is_square_attacked(p: &Position, by: Player, target: Square) -> (r: bool)
    ensures
        r == attacked(*p, by, target),
{
    let ms = pseudo_moves(p, by);
    let mut i: usize = 0;
    while i < ms.len()
        invariant
            i <= ms@.len(),
            forall|mm: PieceMove| #[trigger] ms@.contains(mm) <==> pl_move(*p, by, mm),
            forall|j: int| 0 <= j < i ==> (#[trigger] ms@[j]).to != target,
        decreases ms@.len() - i,
    {
        if ms[i].to == target {
            proof {
                assert(ms@.contains(ms@[i as int]));
            }
            return true;
        }
        i = i + 1;
    }
    proof {
        if attacked(*p, by, target) {
            let m = choose|m: PieceMove| #[trigger] pl_move(*p, by, m) && m.to == target;
            assert(ms@.contains(m));
            let j = choose|j: int| 0 <= j < ms@.len() && ms@[j] == m;
            assert(ms@[j].to == target);
        }
    }
    false
}

} // verus!

verus! {

/// The home rank of `player`'s king and rooks.
pub open spec fn home_rank(player: Player) -> int {
    match player {
        Player::White => 0,
        Player::Black => 7,
    }
}

/// `m` castles for `player` on `p`: the king stands on its home square with
/// the right intact and the rook on its own corner, every square between
/// them is empty, and none of the squares the king crosses (its start, the
/// crossed square and the landing square) is attacked by the opponent.
pub open spec fn castle_move(p: Position, player: Player, m: PieceMove) -> bool {
    let home = home_rank(player);
    let opp = player.spec_other();
    &&& m.move_type == PieceMoveType::Castling
    &&& m.from == sq_at(4, home)
    &&& piece_on(p, m.from) == Piece::spec_player_piece(player, Piece::WKing)
    &&& m.to.rank as int == home
    &&& ({
    ||| (m.to.file == 6 && p.castling.spec_kingside(player) && piece_on(p, sq_at(7, home))
        == Piece::spec_player_piece(player, Piece::WRook) && empty_at(p, sq_at(5, home))
        && empty_at(p, sq_at(6, home)) && !attacked(p, opp, sq_at(4, home)) && !attacked(
        p,
        opp,
        sq_at(5, home),
    ) && !attacked(p, opp, sq_at(6, home)))
    ||| (m.to.file == 2 && p.castling.spec_queenside(player) && piece_on(p, sq_at(0, home))
        == Piece::spec_player_piece(player, Piece::WRook) && empty_at(p, sq_at(1, home))
        && empty_at(p, sq_at(2, home)) && empty_at(p, sq_at(3, home)) && !attacked(
        p,
        opp,
        sq_at(4, home),
    ) && !attacked(p, opp, sq_at(3, home)) && !attacked(p, opp, sq_at(2, home)))
    })
}

/// Append the castling moves `player` has from `from` (none unless `from` is
/// the king's home square with the king on it).
pub fn castle_moves(p: &Position, player: Player, from: Square, moves: &mut Vec<PieceMove>)
    requires
        from.wf(),
    ensures
        forall|mm: PieceMove|
            #[trigger] final(moves)@.contains(mm) <==> old(moves)@.contains(mm) || (mm.from
                == from && castle_move(*p, player, mm)),
{
    let home: u8 = match player {
        Player::White => 0,
        Player::Black => 7,
    };
    let opp = player.other();
    let king = Piece::get_player_piece(player, Piece::WKing);
    let rook = Piece::get_player_piece(player, Piece::WRook);
    let king_home = Square { file: 4, rank: home };
    if from == king_home && p.get_piece(king_home) == king {
        let ks_right = p.castling.kingside(player);
        if ks_right && p.get_piece(Square { file: 7, rank: home }) == rook && p.get_piece(
            Square { file: 5, rank: home },
        ) == Piece::Empty && p.get_piece(Square { file: 6, rank: home }) == Piece::Empty {
            if !is_square_attacked(p, opp, Square { file: 4, rank: home })
                && !is_square_attacked(p, opp, Square { file: 5, rank: home })
                && !is_square_attacked(p, opp, Square { file: 6, rank: home }) {
                moves.push(
                    PieceMove {
                        from,
                        to: Square { file: 6, rank: home },
                        move_type: PieceMoveType::Castling,
                    },
                );
            }
        }
        let qs_right = p.castling.queenside(player);
        if qs_right && p.get_piece(Square { file: 0, rank: home }) == rook && p.get_piece(
            Square { file: 1, rank: home },
        ) == Piece::Empty && p.get_piece(Square { file: 2, rank: home }) == Piece::Empty
            && p.get_piece(Square { file: 3, rank: home }) == Piece::Empty {
            if !is_square_attacked(p, opp, Square { file: 4, rank: home })
                && !is_square_attacked(p, opp, Square { file: 3, rank: home })
                && !is_square_attacked(p, opp, Square { file: 2, rank: home }) {
                moves.push(
                    PieceMove {
                        from,
                        to: Square { file: 2, rank: home },
                        move_type: PieceMoveType::Castling,
                    },
                );
            }
        }
    }
}

/// Playing `m` leaves no square holding the mover's king attacked by the
/// opponent.
pub open spec fn king_safe_after(p: Position, m: PieceMove) -> bool {
    let q = apply_pos(p, m);
    forall|s: Square|
        s.wf() && #[trigger] sq_bit(
            mask_of(q, Piece::spec_player_piece(p.player, Piece::WKing)),
            s,
        ) ==> !attacked(q, p.player.spec_other(), s)
}

/// `m` is legal on `p`: pseudolegal or a castling for the side to move, and
/// playing it never leaves the mover's own king attacked.
pub open spec fn legal_move(p: Position, m: PieceMove) -> bool {
    (pl_move(p, p.player, m) || castle_move(p, p.player, m)) && king_safe_after(p, m)
}

} // verus!

verus! {

/// A sliding destination is a well-formed square distinct from the start.
proof fn lemma_slide_target(p: Position, player: Player, from: Square, to: Square, diag: bool, ortho: bool)
    requires
        from.wf(),
        slides_to(p, player, from, to, diag, ortho),
    ensures
        to.wf(),
        to != from,
{
    let (df, dr) = choose|df: int, dr: int|
        #![auto]
        ((diag && diag_dir(df, dr)) || (ortho && ortho_dir(df, dr))) && slide_to(
            p,
            player,
            from,
            df,
            dr,
            to,
        );
    let k = choose|k: int|
        1 <= k < 8 && #[trigger] slide_ok(p, player, from, df, dr, k) && ray_sq(from, df, dr, k)
            == to;
    assert(ray_on_board(from, df, dr, k));
    if df != 0 {
        assert(k * df != 0) by (nonlinear_arith)
            requires
                k >= 1,
                df != 0,
        ;
        assert(to.file != from.file);
    } else {
        assert(k * dr != 0) by (nonlinear_arith)
            requires
                k >= 1,
                dr != 0,
        ;
        assert(to.rank != from.rank);
    }
}

/// Every legal-move candidate (pseudolegal or castling for the side to
/// move) is applyable: [`Position::apply_move`]'s transition finds the
/// board set up as it assumes.
pub proof fn lemma_candidate_applyable(p: Position, m: PieceMove)
    requires
        disjoint(p),
        pl_move(p, p.player, m) || castle_move(p, p.player, m),
    ensures
        applyable(p, m),
        m.wf(),
{
    let pc = piece_on(p, m.from);
    let player = p.player;
    if pl_move(p, player, m) {
        if pc == Piece::spec_player_piece(player, Piece::WBishop) {
            lemma_slide_target(p, player, m.from, m.to, true, false);
        } else if pc == Piece::spec_player_piece(player, Piece::WRook) {
            lemma_slide_target(p, player, m.from, m.to, false, true);
        } else if pc == Piece::spec_player_piece(player, Piece::WQueen) {
            lemma_slide_target(p, player, m.from, m.to, true, true);
        }
        assert(m.from != m.to);
        assert(resolve_type(p, m) != PieceMoveType::Castling);
        match resolve_type(p, m) {
            PieceMoveType::Promotion(q) => {
                assert(pc == Piece::WPawn || pc == Piece::BPawn);
                assert(pawn_to(p, player, m));
                assert(m.to.rank as int == pawn_last_rank(player));
                assert(pawn_arrival_type(player, m.to, m.move_type));
            },
            _ => {},
        }
    } else {
        assert(castle_move(p, player, m));
        assert(resolve_type(p, m) == PieceMoveType::Castling);
    }
}

} // verus!

verus! {

/// Keep exactly the candidates whose play leaves the mover's king safe,
/// using clone-and-simulate: apply the move to a copy and test whether the
/// king's square is attacked afterward.
fn filter_legal(p: &Position, cand: Vec<PieceMove>) -> (r: Vec<PieceMove>)
    requires
        position_wf(*p),
        forall|mm: PieceMove| #[trigger] cand@.contains(mm) ==> pl_move(*p, p.player, mm)
            || castle_move(*p, p.player, mm),
    ensures
        forall|mm: PieceMove| #[trigger] r@.contains(mm) <==> cand@.contains(mm)
            && king_safe_after(*p, mm),
{
    let player = p.player;
    let ghost king = Piece::spec_player_piece(player, Piece::WKing);
    let mut out: Vec<PieceMove> = Vec::new();
    let mut i: usize = 0;
    while i < cand.len()
        invariant
            position_wf(*p),
            player == p.player,
            king == Piece::spec_player_piece(player, Piece::WKing),
            forall|mm: PieceMove| #[trigger] cand@.contains(mm) ==> pl_move(*p, p.player, mm)
                || castle_move(*p, p.player, mm),
            i <= cand@.len(),
            forall|mm: PieceMove| #[trigger] out@.contains(mm) <==> cand@.subrange(
                0,
                i as int,
            ).contains(mm) && king_safe_after(*p, mm),
        decreases cand@.len() - i,
    {
        let m = cand[i];
        proof {
            assert(cand@.contains(cand@[i as int]));
            lemma_candidate_applyable(*p, m);
            lemma_apply_preserves_own_king(*p, m);
        }
        let mut q = *p;
        let _rt = q.apply_move(m);
        let ks = q.find_king(player);
        let att = is_square_attacked(&q, player.other(), ks);
        proof {
            if att {
                assert(sq_bit(mask_of(q, king), ks) && attacked(q, player.spec_other(), ks));
                assert(!king_safe_after(*p, m));
            } else {
                assert forall|s: Square|
                    s.wf() && #[trigger] sq_bit(mask_of(q, king), s) implies !attacked(
                    q,
                    player.spec_other(),
                    s,
                ) by {
                    assert(s == ks);
                }
                assert(king_safe_after(*p, m));
            }
        }
        if !att {
            out.push(m);
        }
        proof {
            assert(cand@.subrange(0, i + 1 as int) =~= cand@.subrange(0, i as int).push(m));
        }
        i = i + 1;
    }
    proof {
        assert(cand@.subrange(0, cand@.len() as int) =~= cand@);
    }
    out
}

/// Every legal move of the side to move from `from`.
pub fn legal_moves_from(p: &Position, from: Square) -> (r: Vec<PieceMove>)
    requires
        position_wf(*p),
        from.wf(),
    ensures
        forall|mm: PieceMove| #[trigger] r@.contains(mm) <==> legal_move(*p, mm) && mm.from
            == from,
{
    let mut cand: Vec<PieceMove> = Vec::new();
    pseudo_moves_from(p, p.player, from, &mut cand);
    castle_moves(p, p.player, from, &mut cand);
    filter_legal(p, cand)
}

/// Every legal move of the side to move.
pub fn legal_moves(p: &Position) -> (r: Vec<PieceMove>)
    requires
        position_wf(*p),
    ensures
        forall|mm: PieceMove| #[trigger] r@.contains(mm) <==> legal_move(*p, mm),
{
    let mut cand = pseudo_moves(p, p.player);
    let home: u8 = match p.player {
        Player::White => 0,
        Player::Black => 7,
    };
    castle_moves(p, p.player, Square { file: 4, rank: home }, &mut cand);
    filter_legal(p, cand)
}

/// The side to move has at least one legal move.
pub open spec fn has_legal_move(p: Position) -> bool {
    exists|m: PieceMove| #[trigger] legal_move(p, m)
}

/// `player`'s king stands on a square the opponent attacks.
pub open spec fn in_check(p: Position, player: Player) -> bool {
    exists|s: Square|
        s.wf() && #[trigger] sq_bit(mask_of(p, Piece::spec_player_piece(player, Piece::WKing)), s)
            && attacked(p, player.spec_other(), s)
}

/// Whether `player`'s king is attacked.
pub fn is_in_check(p: &Position, player: Player) -> (r: bool)
    requires
        one_king(*p, player),
    ensures
        r == in_check(*p, player),
{
    let ks = p.find_king(player);
    let att = is_square_attacked(p, player.other(), ks);
    proof {
        let ghost king = Piece::spec_player_piece(player, Piece::WKing);
        if att {
            assert(sq_bit(mask_of(*p, king), ks) && attacked(*p, player.spec_other(), ks));
        } else {
            assert forall|s: Square|
                s.wf() && #[trigger] sq_bit(mask_of(*p, king), s) implies !attacked(
                *p,
                player.spec_other(),
                s,
            ) by {
                assert(s == ks);
            }
        }
    }
    att
}

/// How the game stands: `None` while the side to move still has a legal
/// move; otherwise checkmate (the opponent wins) when its king is attacked,
/// and stalemate (no winner) when it is not.
pub open spec fn spec_outcome(p: Position) -> Option<Option<Player>> {
    if has_legal_move(p) {
        Option::None
    } else if in_check(p, p.player) {
        Option::Some(Option::Some(p.player.spec_other()))
    } else {
        Option::Some(Option::None)
    }
}

/// Decide whether the position has ended in checkmate or stalemate.
pub fn position_outcome(p: &Position) -> (r: Option<Option<Player>>)
    requires
        position_wf(*p),
    ensures
        r == spec_outcome(*p),
{
    let ms = legal_moves(p);
    if ms.len() > 0 {
        proof {
            assert(ms@.contains(ms@[0]));
        }
        Option::None
    } else {
        proof {
            if has_legal_move(*p) {
                let m = choose|m: PieceMove| #[trigger] legal_move(*p, m);
                assert(ms@.contains(m));
            }
        }
        if is_in_check(p, p.player) {
            Option::Some(Option::Some(p.player.other()))
        } else {
            Option::Some(Option::None)
        }
    }
}

} // verus!

verus! {

/// King safety: a legal move never leaves the mover's own king on an
/// attacked square.
pub proof fn lemma_legal_move_king_safe(p: Position, m: PieceMove, s: Square)
    requires
        legal_move(p, m),
        s.wf(),
        sq_bit(mask_of(apply_pos(p, m), Piece::spec_player_piece(p.player, Piece::WKing)), s),
    ensures
        !attacked(apply_pos(p, m), p.player.spec_other(), s),
{
}

/// Each move of the sequence is legal in the position where it is played,
/// and none captures a king.
pub open spec fn seq_playable(p: Position, ms: Seq<PieceMove>) -> bool
    decreases ms.len(),
{
    ms.len() == 0 || (legal_move(p, ms[0]) && captured_piece_of(p, ms[0]) != Piece::WKing
        && captured_piece_of(p, ms[0]) != Piece::BKing && seq_playable(
        apply_pos(p, ms[0]),
        ms.drop_first(),
    ))
}

/// The position after playing the whole sequence, first move first.
pub open spec fn apply_seq(p: Position, ms: Seq<PieceMove>) -> Position
    decreases ms.len(),
{
    if ms.len() == 0 {
        p
    } else {
        apply_seq(apply_pos(p, ms[0]), ms.drop_first())
    }
}

/// The history records of the sequence, newest first: the order they must
/// be undone in.
pub open spec fn undo_stack(p: Position, ms: Seq<PieceMove>) -> Seq<HistoryMove>
    decreases ms.len(),
{
    if ms.len() == 0 {
        Seq::empty()
    } else {
        undo_stack(apply_pos(p, ms[0]), ms.drop_first()) + seq![history_of(p, ms[0])]
    }
}

/// The position left after undoing each record in turn.
pub open spec fn undo_seq(p2: Position, hs: Seq<HistoryMove>) -> Position
    decreases hs.len(),
{
    if hs.len() == 0 {
        p2
    } else {
        undo_seq(undo_pos(p2, hs[0]), hs.drop_first())
    }
}

/// Undoing a concatenation undoes the first part, then the second.
proof fn lemma_undo_seq_concat(p2: Position, s: Seq<HistoryMove>, t: Seq<HistoryMove>)
    ensures
        undo_seq(p2, s + t) == undo_seq(undo_seq(p2, s), t),
    decreases s.len(),
{
    if s.len() == 0 {
        assert(s + t =~= t);
    } else {
        assert((s + t).drop_first() =~= s.drop_first() + t);
        assert((s + t)[0] == s[0]);
        lemma_undo_seq_concat(undo_pos(p2, s[0]), s.drop_first(), t);
    }
}

/// Undo inverts apply for whole games: playing any sequence of legal moves
/// (none capturing a king) and then undoing the recorded history, newest
/// record first, restores the original position bit for bit — every
/// bitboard, the castling rights, the en-passant target and the side to
/// move. The final position also keeps the board invariant.
pub proof fn lemma_apply_then_undo_seq(p: Position, ms: Seq<PieceMove>)
    requires
        position_wf(p),
        seq_playable(p, ms),
    ensures
        undo_seq(apply_seq(p, ms), undo_stack(p, ms)) == p,
        position_wf(apply_seq(p, ms)),
    decreases ms.len(),
{
    if ms.len() > 0 {
        let m = ms[0];
        let q1 = apply_pos(p, m);
        lemma_candidate_applyable(p, m);
        lemma_undo_inverts_apply(p, m);
        crate::board::lemma_apply_preserves_wf(p, m);
        lemma_apply_then_undo_seq(q1, ms.drop_first());
        lemma_undo_seq_concat(
            apply_seq(p, ms),
            undo_stack(q1, ms.drop_first()),
            seq![history_of(p, m)],
        );
        assert(undo_stack(p, ms) == undo_stack(q1, ms.drop_first()) + seq![history_of(p, m)]);
        assert(undo_seq(q1, seq![history_of(p, m)]) == undo_seq(
            undo_pos(q1, history_of(p, m)),
            seq![history_of(p, m)].drop_first(),
        ));
        assert(seq![history_of(p, m)].drop_first() =~= Seq::<HistoryMove>::empty());
    }
}

} // verus!
