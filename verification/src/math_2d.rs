//! Coordinate arithmetic on a rectangular grid.

use vstd::prelude::*;
use vstd::arithmetic::div_mod::lemma_small_mod;

verus! {

/// Namespace for the coordinate helpers.
pub struct Math2d;

impl Math2d {
    /// Folds `axis` back onto a grid side of `win_size` cells: the result is
    /// `axis` modulo the side, so coordinates inside the grid are kept.
    pub fn wrap_coord(axis: u8, win_size: u32) -> (wrapped: u8)
        requires
            win_size > 0,
        ensures
            wrapped == axis as int % win_size as int,
            wrapped < win_size,
    {
        if axis as u32 > win_size - 1 {
            (axis as u32 % win_size) as u8
        } else {
            proof {
                lemma_small_mod(axis as nat, win_size as nat);
            }
            axis
        }
    }
}

} // verus!
