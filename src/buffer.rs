//! The character grid: a 25 x 80 array of volatile two-byte cells, normally
//! the memory-mapped text buffer of the video hardware.
//!
//! Every access to a cell goes through `volatile::Volatile`, so that no read
//! or write is elided or reordered. Verus cannot mutate an element of an
//! array in place through a method of the element, so the cells are held in
//! a field that Verus does not see; `grid_cells` names what they hold.
use vstd::prelude::*;
use volatile::Volatile;

verus! {

pub const BUFFER_HEIGHT: usize = 25;

pub const BUFFER_WIDTH: usize = 80;

#[verifier::external_type_specification]
#[verifier::external_body]
#[verifier::reject_recursive_types(T)]
pub struct ExVolatile<T: Copy>(Volatile<T>);

/// Exclusive access to a grid of volatile cells for the whole process.
#[verifier::external_body]
pub struct Buffer {
    chars: &'static mut [[Volatile<u16>; BUFFER_WIDTH]; BUFFER_HEIGHT],
}

/// The values held in the cells of a buffer, row by row.
pub uninterp spec fn grid_cells(b: Buffer) -> Seq<Seq<u16>>;

/// A grid has `BUFFER_HEIGHT` rows of `BUFFER_WIDTH` cells.
pub open spec fn grid_shape(g: Seq<Seq<u16>>) -> bool {
    &&& g.len() == BUFFER_HEIGHT
    &&& forall|r: int| 0 <= r < BUFFER_HEIGHT ==> #[trigger] g[r].len() == BUFFER_WIDTH
}

impl Buffer {
    /// Takes over a grid of `volatile::Volatile` cells. Relies on the array
    /// type alone: the grid has `BUFFER_HEIGHT` rows of `BUFFER_WIDTH` cells.
    #[verifier::external_body]
    pub fn new(chars: &'static mut [[Volatile<u16>; BUFFER_WIDTH]; BUFFER_HEIGHT]) -> (r: Buffer)
        ensures
            grid_shape(grid_cells(r)),
    {
        Buffer { chars }
    }

    /// Relies on `Volatile::read`: a volatile load of the cell's value.
    #[verifier::external_body]
    pub fn read(&self, row: usize, col: usize) -> (r: u16)
        requires
            row < BUFFER_HEIGHT,
            col < BUFFER_WIDTH,
        ensures
            r == grid_cells(*self)[row as int][col as int],
    {
        self.chars[row][col].read()
    }

    /// Relies on `Volatile::write`: a volatile store into the cell, leaving the
    /// other cells as they were.
    #[verifier::external_body]
    pub fn write(&mut self, row: usize, col: usize, value: u16)
        requires
            row < BUFFER_HEIGHT,
            col < BUFFER_WIDTH,
        ensures
            grid_cells(*final(self)) == grid_cells(*old(self)).update(
                row as int,
                grid_cells(*old(self))[row as int].update(col as int, value),
            ),
        no_unwind
    {
        self.chars[row][col].write(value)
    }
}

} // verus!
