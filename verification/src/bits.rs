//! Occupancy masks: one bit for each cell of the grid, in a `u32`.

use vstd::prelude::*;

verus! {

/// The masks that hold no bit outside the twenty-five cells of the grid lie
/// below this bound.
pub const MASK_LIMIT: u32 = 0x200_0000;

/// Whether cell `i` is set in `mask`.
pub open spec fn has_bit(mask: u32, i: u32) -> bool {
    mask & (1u32 << i) != 0
}

/// `mask` with cell `i` set.
pub open spec fn with_bit(mask: u32, i: u32) -> u32 {
    mask | (1u32 << i)
}

/// `mask` with cell `i` cleared.
pub open spec fn without_bit(mask: u32, i: u32) -> u32 {
    mask & !(1u32 << i)
}

/// Number of cells below `n` that are set in `mask`.
pub open spec fn count_below(mask: u32, n: nat) -> nat
    decreases n,
{
    if n == 0 {
        0
    } else {
        count_below(mask, (n - 1) as nat) + if has_bit(mask, (n - 1) as u32) {
            1nat
        } else {
            0nat
        }
    }
}

/// Whether cell `i` is set in `mask`.
pub fn test_bit(mask: u32, i: u8) -> (r: bool)
    requires
        i < 32,
    ensures
        r == has_bit(mask, i as u32),
{
    mask & (1u32 << (i as u32)) != 0
}

/// `mask` with cell `i` set.
pub fn set_bit(mask: u32, i: u8) -> (r: u32)
    requires
        i < 32,
    ensures
        r == with_bit(mask, i as u32),
{
    mask | (1u32 << (i as u32))
}

/// `mask` with cell `i` cleared.
pub fn clear_bit(mask: u32, i: u8) -> (r: u32)
    requires
        i < 32,
    ensures
        r == without_bit(mask, i as u32),
{
    mask & !(1u32 << (i as u32))
}

/// Number of cells of the grid that are set in `mask`.
pub fn count_bits(mask: u32) -> (r: u8)
    ensures
        r == count_below(mask, 25),
        r <= 25,
{
    let mut n: u8 = 0;
    let mut i: u8 = 0;
    while i < 25
        invariant
            i <= 25,
            n == count_below(mask, i as nat),
            n <= i,
        decreases 25 - i,
    {
        if test_bit(mask, i) {
            n += 1;
        }
        i += 1;
    }
    n
}

/// Setting a cell sets that cell and changes no other.
pub proof fn lemma_with_bit(mask: u32, i: u32, j: u32)
    by (bit_vector)
    requires
        i < 32,
        j < 32,
    ensures
        has_bit(with_bit(mask, i), j) == (has_bit(mask, j) || i == j),
{
}

/// Clearing a cell clears that cell and changes no other.
pub proof fn lemma_without_bit(mask: u32, i: u32, j: u32)
    by (bit_vector)
    requires
        i < 32,
        j < 32,
    ensures
        has_bit(without_bit(mask, i), j) == (has_bit(mask, j) && i != j),
{
}

/// Setting or clearing a cell of the grid keeps a mask on the grid.
pub proof fn lemma_stays_on_grid(mask: u32, i: u32)
    by (bit_vector)
    requires
        mask < 0x200_0000,
        i < 25,
    ensures
        with_bit(mask, i) < 0x200_0000,
        without_bit(mask, i) < 0x200_0000,
{
}

/// Moving a piece of one side onto a cell, and taking whatever the other side
/// had there, keeps the two sides apart.
pub proof fn lemma_move_keeps_apart(a: u32, b: u32, from: u32, to: u32)
    by (bit_vector)
    requires
        a & b == 0,
        from < 32,
        to < 32,
    ensures
        with_bit(without_bit(a, from), to) & without_bit(b, to) == 0,
{
}

} // verus!
