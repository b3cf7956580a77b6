use vstd::prelude::*;

verus! {

/// The `k`-th cell of a `side × side × side` grid when the cells are listed
/// with the first coordinate slowest and the last fastest.
pub open spec fn grid_cell(side: int, k: int) -> (u32, u32, u32) {
    (((k / side) / side) as u32, ((k / side) % side) as u32, (k % side) as u32)
}

/// The number of cells of a `side × side × side` grid.
pub open spec fn grid_volume(side: int) -> int {
    side * side * side
}

/// The cell listed at place `(x * side + y) * side + z` is `(x, y, z)`.
pub proof fn lemma_grid_cell_of(side: int, x: int, y: int, z: int)
    requires
        side >= 1,
        0 <= x,
        0 <= y < side,
        0 <= z < side,
    ensures
        (x * side + y) * side + z >= 0,
        grid_cell(side, (x * side + y) * side + z) == (x as u32, y as u32, z as u32),
{
    let row = x * side + y;
    assert(row >= 0) by (nonlinear_arith)
        requires
            0 <= x,
            0 <= y,
            side >= 1,
            row == x * side + y,
    ;
    assert(row * side + z >= 0) by (nonlinear_arith)
        requires
            row >= 0,
            0 <= z,
            side >= 1,
    ;
    vstd::arithmetic::div_mod::lemma_fundamental_div_mod_converse(row * side + z, side, row, z);
    vstd::arithmetic::div_mod::lemma_fundamental_div_mod_converse(row, side, x, y);
}

/// Listed cells lie inside the grid, and no cell is listed twice.
pub proof fn lemma_grid_cells_distinct(side: u32, j: int, k: int)
    requires
        side >= 1,
        0 <= j < grid_volume(side as int),
        0 <= k < grid_volume(side as int),
        j != k,
    ensures
        grid_cell(side as int, j) != grid_cell(side as int, k),
        grid_cell(side as int, k).0 < side,
        grid_cell(side as int, k).1 < side,
        grid_cell(side as int, k).2 < side,
{
    lemma_grid_cell_inside(side as int, j);
    lemma_grid_cell_inside(side as int, k);
    let (xj, yj, zj) = grid_cell(side as int, j);
    let (xk, yk, zk) = grid_cell(side as int, k);
    if grid_cell(side as int, j) == grid_cell(side as int, k) {
        assert(j == (xj * side + yj) * side + zj);
        assert(k == (xk * side + yk) * side + zk);
    }
}

/// A listed cell's coordinates are each below `side`, and they give back the
/// cell's place in the list.
pub proof fn lemma_grid_cell_inside(side: int, k: int)
    requires
        1 <= side <= u32::MAX,
        0 <= k < grid_volume(side as int),
    ensures
        ({
            let (x, y, z) = grid_cell(side as int, k);
            &&& x < side
            &&& y < side
            &&& z < side
            &&& k == (x * side + y) * side + z
        }),
{
    let row = k / side;
    vstd::arithmetic::div_mod::lemma_fundamental_div_mod(k, side);
    vstd::arithmetic::div_mod::lemma_mod_bound(k, side);
    vstd::arithmetic::div_mod::lemma_fundamental_div_mod(row, side);
    vstd::arithmetic::div_mod::lemma_mod_bound(row, side);
    assert(0 <= row < side * side) by (nonlinear_arith)
        requires
            k == side * row + k % side,
            0 <= k % side < side,
            0 <= k < side * side * side,
    ;
    assert(0 <= row / side < side) by (nonlinear_arith)
        requires
            row == side * (row / side) + row % side,
            0 <= row % side < side,
            0 <= row < side * side,
    ;
    assert(k == ((row / side) * side + row % side) * side + k % side) by (nonlinear_arith)
        requires
            k == side * row + k % side,
            row == side * (row / side) + row % side,
    ;
}

} // verus!
