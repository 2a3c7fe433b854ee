//! A 64-bit mask with one bit per board square, and the bit-level lemmas the
//! move/undo proofs rest on.

use vstd::prelude::*;
use crate::square::Square;

verus! {

/// Whether bit `i` of `m` is set.
pub open spec fn mask_get(m: u64, i: u64) -> bool {
    (m >> i) & 1u64 == 1u64
}

/// `m` with bit `i` forced to `v`, every other bit unchanged.
pub open spec fn mask_set(m: u64, i: u64, v: bool) -> u64 {
    if v {
        (m & !(1u64 << i)) | (1u64 << i)
    } else {
        m & !(1u64 << i)
    }
}

/// Whether the bit of square `s` is set in `m`.
pub open spec fn sq_bit(m: u64, s: Square) -> bool {
    mask_get(m, s.spec_index() as u64)
}

/// Setting bit `i` changes that bit to `v` and no other bit.
pub proof fn lemma_mask_set_get(m: u64, i: u64, v: bool, j: u64)
    requires
        i < 64,
        j < 64,
    ensures
        mask_get(mask_set(m, i, v), j) == if i == j {
            v
        } else {
            mask_get(m, j)
        },
{
    assert(mask_get(mask_set(m, i, v), j) == if i == j {
        v
    } else {
        mask_get(m, j)
    }) by (bit_vector)
        requires
            i < 64,
            j < 64,
    ;
}

/// Clearing a set bit and then setting it again restores the mask.
pub proof fn lemma_mask_clear_then_set(m: u64, i: u64)
    requires
        i < 64,
        mask_get(m, i),
    ensures
        mask_set(mask_set(m, i, false), i, true) == m,
{
    assert(mask_set(mask_set(m, i, false), i, true) == m) by (bit_vector)
        requires
            i < 64,
            mask_get(m, i),
    ;
}

/// Setting a clear bit and then clearing it again restores the mask.
pub proof fn lemma_mask_set_then_clear(m: u64, i: u64)
    requires
        i < 64,
        !mask_get(m, i),
    ensures
        mask_set(mask_set(m, i, true), i, false) == m,
{
    assert(mask_set(mask_set(m, i, true), i, false) == m) by (bit_vector)
        requires
            i < 64,
            !mask_get(m, i),
    ;
}

/// Moving a set bit from `i` onto a clear bit `j` and then moving it back
/// restores the mask.
pub proof fn lemma_mask_move_then_unmove(m: u64, i: u64, j: u64)
    requires
        i < 64,
        j < 64,
        i != j,
        mask_get(m, i),
        !mask_get(m, j),
    ensures
        mask_set(mask_set(mask_set(mask_set(m, i, false), j, true), j, false), i, true) == m,
{
    assert(mask_set(mask_set(mask_set(mask_set(m, i, false), j, true), j, false), i, true)
        == m) by (bit_vector)
        requires
            i < 64,
            j < 64,
            i != j,
            mask_get(m, i),
            !mask_get(m, j),
    ;
}

/// The empty mask has no bit set.
pub proof fn lemma_mask_get_zero(i: u64)
    ensures
        !mask_get(0u64, i),
{
    assert(!mask_get(0u64, i)) by (bit_vector);
}

/// A 64-bit mask holding the squares one piece kind occupies.
#[derive(Clone, Copy, Debug, PartialEq, Eq, Structural)]
#[verifier::ext_equal]
pub struct BitBoard(pub u64);

impl BitBoard {
    /// Whether bit `index` is set.
    pub fn get_bit(self, index: u8) -> (r: bool)
        requires
            index < 64,
        ensures
            r == mask_get(self.0, index as u64),
    {
        let r = (self.0 >> (index as u64)) & 1u64 == 1u64;
        r
    }

    /// Force bit `index` to `value`, clearing it first so that setting is
    /// idempotent.
    pub fn set_bit(&mut self, index: u8, value: bool)
        requires
            index < 64,
        ensures
            final(self).0 == mask_set(old(self).0, index as u64, value),
    {
        let cleared = self.0 & !(1u64 << (index as u64));
        self.0 = if value {
            cleared | (1u64 << (index as u64))
        } else {
            cleared
        };
    }

    /// Whether the bit of square `s` is set.
    pub fn get_bit_at(self, s: Square) -> (r: bool)
        requires
            s.wf(),
        ensures
            r == sq_bit(self.0, s),
    {
        self.get_bit(s.index())
    }

    /// Force the bit of square `s` to `value`.
    pub fn set_bit_at(&mut self, s: Square, value: bool)
        requires
            s.wf(),
        ensures
            final(self).0 == mask_set(old(self).0, s.spec_index() as u64, value),
    {
        let i = s.index();
        self.set_bit(i, value);
    }

    /// All set squares, in ascending bit-index order.
    pub fn positions(self) -> (r: Vec<Square>)
        ensures
            forall|k: int| 0 <= k < r@.len() ==> (#[trigger] r@[k]).wf()
                && sq_bit(self.0, r@[k]),
            forall|s: Square| s.wf() && sq_bit(self.0, s) ==> r@.contains(s),
            forall|k1: int, k2: int| 0 <= k1 < k2 < r@.len()
                ==> r@[k1].spec_index() < r@[k2].spec_index(),
    {
        let mut r: Vec<Square> = Vec::new();
        let mut i: u8 = 0;
        while i < 64
            invariant
                i <= 64,
                forall|k: int| 0 <= k < r@.len() ==> (#[trigger] r@[k]).wf()
                    && sq_bit(self.0, r@[k]) && r@[k].spec_index() < i,
                forall|s: Square| s.wf() && sq_bit(self.0, s) && s.spec_index() < i
                    ==> r@.contains(s),
                forall|k1: int, k2: int| 0 <= k1 < k2 < r@.len()
                    ==> r@[k1].spec_index() < r@[k2].spec_index(),
            decreases 64 - i,
        {
            if self.get_bit(i) {
                let s = Square::from_index(i);
                let ghost pre = r@;
                r.push(s);
                proof {
                    assert forall|q: Square| q.wf() && sq_bit(self.0, q)
                        && q.spec_index() < i + 1 implies r@.contains(q) by {
                        if q.spec_index() == i {
                            Square::lemma_index_injective(q, s);
                            assert(r@[r@.len() - 1] == q);
                        } else {
                            assert(pre.contains(q));
                            let k = choose|k: int| #![auto] 0 <= k < pre.len() && pre[k] == q;
                            assert(r@[k] == q);
                        }
                    }
                }
            }
            i = i + 1;
        }
        proof {
            assert forall|s: Square| s.wf() && sq_bit(self.0, s) implies r@.contains(s) by {
                assert(s.spec_index() < 64);
            }
        }
        r
    }
}

} // verus!
