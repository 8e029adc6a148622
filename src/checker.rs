use vstd::prelude::*;

verus! {

/// Whether the checkerboard cell at lattice coordinates `(ix, iy, iz)` shows the even
/// texture: the coordinates sum to an even number.
pub open spec fn is_even_cell(ix: int, iy: int, iz: int) -> bool {
    (ix + iy + iz) % 2 == 0
}

/// Picks the texture of the checkerboard cell `(ix, iy, iz)`: `true` for the even one.
pub fn checker_is_even(ix: i32, iy: i32, iz: i32) -> (r: bool)
    ensures
        r == is_even_cell(ix as int, iy as int, iz as int),
{
    let s: i64 = ix as i64 + iy as i64 + iz as i64;
    s % 2 == 0
}

/// The checkerboard repeats every two cells along each axis: moving two cells along x, y
/// or z lands on a cell that shows the same texture.
pub proof fn lemma_checker_period_two(ix: int, iy: int, iz: int)
    ensures
        is_even_cell(ix + 2, iy, iz) == is_even_cell(ix, iy, iz),
        is_even_cell(ix, iy + 2, iz) == is_even_cell(ix, iy, iz),
        is_even_cell(ix, iy, iz + 2) == is_even_cell(ix, iy, iz),
{
}

/// Neighbouring cells show different textures: one step along any axis flips the parity.
pub proof fn lemma_checker_neighbours_differ(ix: int, iy: int, iz: int)
    ensures
        is_even_cell(ix + 1, iy, iz) != is_even_cell(ix, iy, iz),
        is_even_cell(ix, iy + 1, iz) != is_even_cell(ix, iy, iz),
        is_even_cell(ix, iy, iz + 1) != is_even_cell(ix, iy, iz),
{
}

} // verus!
