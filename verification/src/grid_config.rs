use vstd::prelude::*;

verus! {

/// Size of the grid that the agents live on.
#[derive(Clone, Copy, Debug, PartialEq, Eq, Structural)]
pub struct GridConfig {
    pub width: u32,
    pub height: u32,
}

/// Row-major index of a cell.
pub open spec fn cell_index(x: u32, y: u32, grid_width: u32) -> int {
    y * grid_width + x
}

impl GridConfig {
    /// Number of cells.
    pub open spec fn cells(self) -> int {
        self.width * self.height
    }

    /// Number of cells.
    pub fn cell_count(&self) -> (count: u64)
        ensures
            count == self.cells(),
    {
        assert(self.width * self.height <= 0xffff_ffff * 0xffff_ffff) by (nonlinear_arith)
            requires
                self.width <= 0xffff_ffff,
                self.height <= 0xffff_ffff,
        ;
        self.width as u64 * self.height as u64
    }
}

/// Row-major index of a cell. It is below the number of cells where the
/// cell lies on the grid.
pub fn grid_coords_to_index(x: u32, y: u32, grid_width: u32) -> (index: u64)
    ensures
        index == cell_index(x, y, grid_width),
{
    assert(y * grid_width <= 0xffff_ffff * 0xffff_ffff) by (nonlinear_arith)
        requires
            y <= 0xffff_ffff,
            grid_width <= 0xffff_ffff,
    ;
    y as u64 * grid_width as u64 + x as u64
}

/// The cell with a given row-major index.
pub open spec fn cell_of(index: int, grid_width: u32) -> (u32, u32) {
    ((index % (grid_width as int)) as u32, (index / (grid_width as int)) as u32)
}

/// The cell with a given row-major index.
pub fn grid_index_to_coords(index: u64, grid_width: u32, grid_height: u32) -> (cell: (u32, u32))
    requires
        index < grid_width * grid_height,
    ensures
        cell == cell_of(index as int, grid_width),
        cell.0 < grid_width,
        cell.1 < grid_height,
        cell_index(cell.0, cell.1, grid_width) == index,
{
    assert(grid_width > 0) by (nonlinear_arith)
        requires
            index < grid_width * grid_height,
    ;
    let x = index % grid_width as u64;
    let y = index / grid_width as u64;
    proof {
        vstd::arithmetic::div_mod::lemma_fundamental_div_mod(index as int, grid_width as int);
        if y >= grid_height {
            assert(grid_width * y >= grid_width * grid_height) by (nonlinear_arith)
                requires
                    y >= grid_height,
                    grid_width > 0,
            ;
        }
        assert(y * grid_width == grid_width * y) by (nonlinear_arith);
    }
    (x as u32, y as u32)
}

/// A cell on the grid has an index below the number of cells.
pub proof fn cell_index_in_grid(x: u32, y: u32, grid: GridConfig)
    requires
        x < grid.width,
        y < grid.height,
    ensures
        0 <= cell_index(x, y, grid.width) < grid.cells(),
{
    assert(y * grid.width + x < grid.width * grid.height) by (nonlinear_arith)
        requires
            x < grid.width,
            y < grid.height,
            0 <= x,
            0 <= y,
    ;
    assert(0 <= y * grid.width) by (nonlinear_arith)
        requires
            0 <= y,
            0 <= grid.width,
    ;
}

} // verus!
