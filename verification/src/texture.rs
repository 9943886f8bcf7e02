use vstd::prelude::*;

verus! {

/// Whether the checkerboard cell with integer coordinates
/// `(x_int, y_int, z_int)` takes the even texture: the coordinate sum is even.
pub fn checker_cell_is_even(x_int: i32, y_int: i32, z_int: i32) -> (r: bool)
    requires
        i32::MIN <= x_int + y_int <= i32::MAX,
        i32::MIN <= x_int + y_int + z_int <= i32::MAX,
    ensures
        r == ((x_int + y_int + z_int) % 2 == 0),
{
    (x_int + y_int + z_int) % 2 == 0
}

/// Neighboring checkerboard cells alternate: a step of one cell along any
/// axis switches between the even and the odd texture.
pub proof fn lemma_neighbor_cells_alternate(x: int, y: int, z: int)
    ensures
        ((x + 1 + y + z) % 2 == 0) == !((x + y + z) % 2 == 0),
        ((x + (y + 1) + z) % 2 == 0) == !((x + y + z) % 2 == 0),
        ((x + y + (z + 1)) % 2 == 0) == !((x + y + z) % 2 == 0),
{
}

} // verus!
