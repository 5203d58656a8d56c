//! The occupancy bitmap as rows of flags.
use vstd::prelude::*;
use crate::position::Position;
use crate::position::GRID_SIZE;

verus! {

/// Flag of a free cell in the bitmap.
pub const EMPTY: u8 = 0;

/// Flag of a taken cell in the bitmap.
pub const OCCUPIED: u8 = 1;

/// The rows of a bitmap, each as the sequence of its flags.
pub open spec fn grid_of(cells: [[u8; 5]; 5]) -> Seq<Seq<u8>> {
    Seq::new(GRID_SIZE as nat, |r: int| cells[r]@)
}

/// The bitmap with every cell free.
pub open spec fn blank_grid() -> Seq<Seq<u8>> {
    Seq::new(GRID_SIZE as nat, |r: int| Seq::new(GRID_SIZE as nat, |c: int| EMPTY))
}

/// A grid has `GRID_SIZE` rows of `GRID_SIZE` flags.
pub open spec fn grid_wf(grid: Seq<Seq<u8>>) -> bool {
    &&& grid.len() == GRID_SIZE
    &&& forall|r: int| 0 <= r < GRID_SIZE ==> (#[trigger] grid[r]).len() == GRID_SIZE
}

/// The grid with the cell `p` taken and every other cell as it was.
pub open spec fn marked(grid: Seq<Seq<u8>>, p: Position) -> Seq<Seq<u8>> {
    grid.update(p.row as int, grid[p.row as int].update(p.col as int, OCCUPIED))
}

/// Taking a cell of the grid keeps the grid a grid, takes that cell and changes
/// no other.
pub proof fn lemma_marked_takes_one_cell(grid: Seq<Seq<u8>>, p: Position)
    requires
        grid_wf(grid),
        p.in_grid(),
    ensures
        grid_wf(marked(grid, p)),
        marked(grid, p)[p.row as int][p.col as int] == OCCUPIED,
        forall|q: Position|
            q.in_grid() && q != p ==> #[trigger] marked(grid, p)[q.row as int][q.col as int]
                == grid[q.row as int][q.col as int],
{
    assert forall|r: int| 0 <= r < GRID_SIZE implies (#[trigger] marked(grid, p)[r]).len()
        == GRID_SIZE by {
        assert(grid[r].len() == GRID_SIZE);
    }
    assert(grid[p.row as int].len() == GRID_SIZE);
    assert forall|q: Position| q.in_grid() && q != p implies #[trigger] marked(
        grid,
        p,
    )[q.row as int][q.col as int] == grid[q.row as int][q.col as int] by {
        assert(grid[q.row as int].len() == GRID_SIZE);
    }
}

} // verus!
