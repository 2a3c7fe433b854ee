//! Board coordinates: a file/rank pair, 0-based, and its bit index.
//!
//! Bit index convention, used uniformly by every bitboard in the crate:
//! `index = rank * 8 + file`, so index 0 is file 0 of rank 0 and index 63 is
//! file 7 of rank 7. Rank 0 is the rank FEN writes last (white's back rank).

use vstd::prelude::*;

verus! {

/// A board coordinate: file (column) and rank (row), both in `0..8`.
#[derive(Clone, Copy, Debug, PartialEq, Eq, Structural)]
pub struct Square {
    pub file: u8,
    pub rank: u8,
}

impl Square {
    /// Both coordinates are on the board.
    pub open spec fn wf(self) -> bool {
        self.file < 8 && self.rank < 8
    }

    /// The bit index of this square: `rank * 8 + file`.
    pub open spec fn spec_index(self) -> int {
        self.rank * 8 + self.file
    }

    pub fn new(file: u8, rank: u8) -> (r: Square)
        ensures
            r == (Square { file, rank }),
    {
        Square { file, rank }
    }

    /// The bit index of this square: `rank * 8 + file`.
    pub fn index(self) -> (r: u8)
        requires
            self.wf(),
        ensures
            r == self.spec_index(),
            r < 64,
    {
        self.rank * 8 + self.file
    }

    /// The square of a bit index.
    pub fn from_index(i: u8) -> (r: Square)
        requires
            i < 64,
        ensures
            r.wf(),
            r.spec_index() == i,
    {
        let r = Square { file: i % 8, rank: i / 8 };
        proof {
            assert(i / 8 * 8 + i % 8 == i) by (nonlinear_arith);
        }
        r
    }

    /// Two distinct squares on the board have distinct bit indices.
    pub proof fn lemma_index_injective(a: Square, b: Square)
        requires
            a.wf(),
            b.wf(),
            a.spec_index() == b.spec_index(),
        ensures
            a == b,
    {
        assert(a.file == b.file && a.rank == b.rank) by (nonlinear_arith)
            requires
                a.file < 8 && a.rank < 8 && b.file < 8 && b.rank < 8,
                a.rank * 8 + a.file == b.rank * 8 + b.file,
        ;
    }
}

} // verus!
