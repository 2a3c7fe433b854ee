//! An ordered log of applied moves with the metadata needed to invert each
//! one, and a cursor for walking backward and forward through the log.
//!
//! Making a new move while the cursor is not at the end discards every move
//! after the cursor: a new branch truncates the redo future.

use vstd::prelude::*;
use vstd::string::*;
use crate::piece::Piece;
use crate::piece_move::PieceMove;
use crate::square::Square;
use crate::board::CastleRights;

verus! {

/// One applied move together with everything needed to invert it: the piece
/// captured (if any), and the en-passant square and castling rights that held
/// before the move.
#[derive(Clone, Copy, Debug, PartialEq, Eq, Structural)]
pub struct HistoryMove {
    pub piece_move: PieceMove,
    pub captured_piece: Option<Piece>,
    pub en_passant_before: Option<Square>,
    pub castling_before: CastleRights,
}

impl HistoryMove {
    /// The recorded move is on the board.
    pub open spec fn wf(self) -> bool {
        self.piece_move.wf() && match self.en_passant_before {
            Option::Some(s) => s.wf(),
            Option::None => true,
        }
    }
}

/// The log of applied moves plus a cursor; `current` counts how many of the
/// logged moves are currently applied to the board (0 = before the first).
#[derive(Clone, Debug)]
pub struct MoveHistory {
    pub moves: Vec<HistoryMove>,
    pub current: usize,
}

impl MoveHistory {
    /// The cursor stays inside the log and every logged move is on the board.
    pub open spec fn wf(self) -> bool {
        self.current <= self.moves@.len() && forall|i: int|
            0 <= i < self.moves@.len() ==> (#[trigger] self.moves@[i]).wf()
    }

    /// An empty history.
    pub fn new() -> (r: MoveHistory)
        ensures
            r.wf(),
            r.moves@.len() == 0,
            r.current == 0,
    {
        MoveHistory { moves: Vec::new(), current: 0 }
    }

    /// The most recently applied move, if any.
    pub fn get(&self) -> (r: Option<HistoryMove>)
        requires
            self.wf(),
        ensures
            r == if self.current == 0 {
                Option::<HistoryMove>::None
            } else {
                Option::Some(self.moves@[self.current - 1])
            },
    {
        if self.current == 0 {
            Option::None
        } else {
            Option::Some(self.moves[self.current - 1])
        }
    }

    /// Discard every logged move after the cursor, so that a new move starts
    /// a fresh branch.
    pub fn clear_excess_moves(&mut self)
        requires
            old(self).wf(),
        ensures
            final(self).wf(),
            final(self).current == old(self).current,
            final(self).moves@ == old(self).moves@.subrange(0, old(self).current as int),
    {
        let c = self.current;
        self.moves.truncate(c);
        proof {
            assert forall|i: int| 0 <= i < self.moves@.len()
                implies (#[trigger] self.moves@[i]).wf() by {
                assert(self.moves@[i] == old(self).moves@[i]);
            }
        }
    }

    /// Log a newly applied move: drop any redo future beyond the cursor,
    /// append the move, and advance the cursor onto it.
    pub fn make_move(&mut self, history_move: HistoryMove)
        requires
            old(self).wf(),
            history_move.wf(),
            old(self).moves@.len() < usize::MAX,
        ensures
            final(self).wf(),
            final(self).moves@ == old(self).moves@.subrange(
                0,
                old(self).current as int,
            ).push(history_move),
            final(self).current == old(self).current + 1,
    {
        self.clear_excess_moves();
        self.moves.push(history_move);
        self.current = self.current + 1;
    }

    /// Step the cursor one move backward and return the move that was just
    /// applied (the one to undo), or `None` without moving at the start.
    pub fn traverse_prev(&mut self) -> (r: Option<HistoryMove>)
        requires
            old(self).wf(),
        ensures
            final(self).wf(),
            final(self).moves@ == old(self).moves@,
            old(self).current == 0 ==> r is None && *final(self) == *old(self),
            old(self).current > 0 ==> r == Option::Some(
                old(self).moves@[old(self).current - 1],
            ) && final(self).current == old(self).current - 1,
    {
        if self.current == 0 {
            Option::None
        } else {
            let h = self.moves[self.current - 1];
            self.current = self.current - 1;
            Option::Some(h)
        }
    }

    /// Step the cursor one move forward and return the move now applied (the
    /// one to replay), or `None` without moving at the end.
    pub fn traverse_next(&mut self) -> (r: Option<HistoryMove>)
        requires
            old(self).wf(),
        ensures
            final(self).wf(),
            final(self).moves@ == old(self).moves@,
            old(self).current == old(self).moves@.len() ==> r is None && *final(self) == *old(
                self,
            ),
            old(self).current < old(self).moves@.len() ==> r == Option::Some(
                old(self).moves@[old(self).current as int],
            ) && final(self).current == old(self).current + 1,
    {
        if self.current == self.moves.len() {
            Option::None
        } else {
            let h = self.moves[self.current];
            self.current = self.current + 1;
            Option::Some(h)
        }
    }

    /// The space-separated long-algebraic text of the currently applied
    /// moves, oldest first, as the engine protocol's `moves` field expects.
    pub open spec fn spec_move_string(moves: Seq<HistoryMove>) -> Seq<char>
        decreases moves.len(),
    {
        if moves.len() == 0 {
            Seq::empty()
        } else if moves.len() == 1 {
            moves[0].piece_move.spec_algebraic()
        } else {
            Self::spec_move_string(moves.drop_last()) + seq![' ']
                + moves.last().piece_move.spec_algebraic()
        }
    }

    /// Write the currently applied moves as a space-separated long-algebraic
    /// string.
    pub fn to_piece_move_string(&self) -> (r: String)
        requires
            self.wf(),
        ensures
            r@ == Self::spec_move_string(self.moves@.subrange(0, self.current as int)),
    {
        let mut out = String::new();
        let mut i: usize = 0;
        while i < self.current
            invariant
                self.wf(),
                i <= self.current,
                out@ == Self::spec_move_string(self.moves@.subrange(0, i as int)),
            decreases self.current - i,
        {
            proof {
                reveal_strlit(" ");
            }
            if i > 0 {
                out.append(" ");
            }
            let part = self.moves[i].piece_move.to_algebraic();
            out.append(part.as_str());
            proof {
                let pre = self.moves@.subrange(0, i as int);
                let cur = self.moves@.subrange(0, i + 1 as int);
                assert(cur.drop_last() =~= pre);
                assert(cur.last() == self.moves@[i as int]);
                if i > 0 {
                    assert(out@ =~= Self::spec_move_string(cur));
                } else {
                    assert(out@ =~= Self::spec_move_string(cur));
                }
            }
            i = i + 1;
        }
        out
    }
}

} // verus!
