//! The set of cells a player has been fired upon, one bit per cell.

use vstd::prelude::*;
use crate::grid::{Vec2, on_grid, GRID_SIZE};

verus! {

/// Cells fired upon; cell `(x, y)` is bit `x + 10 * y`.
#[derive(Debug, Clone, Copy, PartialEq, Eq, Structural)]
pub struct HitMatrix(pub u128);

/// Number of cells on the board, hence of meaningful bits.
pub const CELL_COUNT: u128 = 100;

/// Bit position of a cell.
pub open spec fn cell_index(p: Vec2) -> u128 {
    (p.x + p.y * 10) as u128
}

/// `bit` of `v` is set.
pub open spec fn bit_set(v: u128, bit: u128) -> bool {
    (v >> bit) & 1 == 1
}

impl HitMatrix {
    /// Cell `p` has been fired upon.
    pub open spec fn has(self, p: Vec2) -> bool {
        bit_set(self.0, cell_index(p))
    }

    /// The matrix with cell `p` marked.
    pub open spec fn with(self, p: Vec2) -> HitMatrix {
        HitMatrix(self.0 | (1u128 << cell_index(p)))
    }

    /// The matrix with cell `p` cleared.
    pub open spec fn without(self, p: Vec2) -> HitMatrix {
        HitMatrix(self.0 & !(1u128 << cell_index(p)))
    }

    /// Only the bits of board cells may be set.
    pub open spec fn wf(self) -> bool {
        self.0 >> CELL_COUNT == 0
    }

    pub fn new() -> (r: Self)
        ensures
            r == HitMatrix(0),
            r.wf(),
            forall|p: Vec2| !r.has(p),
    {
        assert forall|p: Vec2| !bit_set(0u128, #[trigger] cell_index(p)) by {
            let i = cell_index(p);
            assert((0u128 >> i) & 1 == 0) by (bit_vector);
        }
        assert((0u128 >> 100u128) == 0) by (bit_vector);
        HitMatrix(0)
    }

    /// Whether cell `slot` has been fired upon.
    pub fn get(&self, slot: Vec2) -> (r: bool)
        requires
            on_grid(slot),
        ensures
            r == self.has(slot),
    {
        let mask = Self::get_mask(slot);
        let ghost i = cell_index(slot);
        let ghost v = self.0;
        assert((v & (1u128 << i) != 0) == ((v >> i) & 1 == 1)) by (bit_vector)
            requires
                i < 128,
        ;
        (self.0 & mask) != 0
    }

    /// Marks cell `slot` as fired upon.
    pub fn set(&mut self, slot: Vec2)
        requires
            on_grid(slot),
        ensures
            *final(self) == old(self).with(slot),
    {
        self.0 = self.0 | Self::get_mask(slot);
    }

    /// Clears cell `slot`.
    pub fn unset(&mut self, slot: Vec2)
        requires
            on_grid(slot),
        ensures
            *final(self) == old(self).without(slot),
    {
        self.0 = self.0 & !Self::get_mask(slot);
    }

    fn get_mask(slot: Vec2) -> (r: u128)
        requires
            on_grid(slot),
        ensures
            r == 1u128 << cell_index(slot),
            cell_index(slot) < CELL_COUNT,
    {
        let i: u8 = slot.x + slot.y * GRID_SIZE;
        1u128 << i
    }
}

impl Default for HitMatrix {
    fn default() -> (r: Self)
        ensures
            r == HitMatrix(0),
    {
        HitMatrix::new()
    }
}

/// Two distinct board cells have distinct bit positions.
pub proof fn lemma_cell_index_injective(p: Vec2, q: Vec2)
    requires
        on_grid(p),
        on_grid(q),
        p != q,
    ensures
        cell_index(p) != cell_index(q),
        cell_index(p) < CELL_COUNT,
{
}

/// Marking a cell makes it read as fired upon, and leaves every other cell
/// reading as before; marking keeps the matrix well formed.
pub proof fn lemma_set_then_get(m: HitMatrix, p: Vec2, q: Vec2)
    requires
        on_grid(p),
        on_grid(q),
    ensures
        m.with(p).has(p),
        q != p ==> m.with(p).has(q) == m.has(q),
        m.wf() ==> m.with(p).wf(),
{
    let v = m.0;
    let i = cell_index(p);
    let j = cell_index(q);
    assert(((v | (1u128 << i)) >> i) & 1 == 1) by (bit_vector)
        requires
            i < 100,
    ;
    if q != p {
        lemma_cell_index_injective(p, q);
        assert(((v | (1u128 << i)) >> j) & 1 == (v >> j) & 1) by (bit_vector)
            requires
                i < 100,
                j < 100,
                i != j,
        ;
    }
    assert(v >> 100 == 0 ==> (v | (1u128 << i)) >> 100 == 0) by (bit_vector)
        requires
            i < 100,
    ;
}

} // verus!
