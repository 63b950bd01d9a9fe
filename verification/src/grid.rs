//! The instantaneous pressed/released state of the switch matrix.
//!
//! Dimensions are fixed at build time and never change at runtime. A grid is
//! stored row-major as one flat vector; cell `(r, c)` sits at `r * COLS + c`.

use vstd::prelude::*;

verus! {

/// Rows of the switch matrix.
pub const ROWS: usize = 4;

/// Columns of the switch matrix.
pub const COLS: usize = 14;

/// Cells of the switch matrix (`ROWS * COLS`).
pub const NKEYS: usize = 56;

/// A full snapshot of the matrix: `true` is "pressed".
pub struct Grid {
    pub cells: Vec<bool>,
}

impl View for Grid {
    type V = Seq<bool>;

    open spec fn view(&self) -> Seq<bool> {
        self.cells@
    }
}

impl Grid {
    /// A grid has every cell, always.
    pub open spec fn wf(&self) -> bool {
        self@.len() == NKEYS
    }

    /// The model of cell `(r, c)`.
    pub open spec fn cell(&self, r: int, c: int) -> bool
        recommends
            0 <= r < ROWS,
            0 <= c < COLS,
    {
        self@[r * COLS + c]
    }

    /// An all-released grid.
    pub fn new_released() -> (g: Grid)
        ensures
            g.wf(),
            forall|i: int| 0 <= i < NKEYS ==> !g@[i],
    {
        let mut cells: Vec<bool> = Vec::new();
        let mut i: usize = 0;
        while i < NKEYS
            invariant
                i <= NKEYS,
                cells@.len() == i,
                forall|j: int| 0 <= j < i ==> !cells@[j],
            decreases NKEYS - i,
        {
            cells.push(false);
            i = i + 1;
        }
        Grid { cells }
    }

    /// Reads cell `(r, c)`.
    pub fn get(&self, r: usize, c: usize) -> (b: bool)
        requires
            self.wf(),
            r < ROWS,
            c < COLS,
        ensures
            b == self.cell(r as int, c as int),
    {
        self.cells[r * COLS + c]
    }

    /// Writes cell `(r, c)`.
    pub fn set(&mut self, r: usize, c: usize, b: bool)
        requires
            old(self).wf(),
            r < ROWS,
            c < COLS,
        ensures
            final(self).wf(),
            final(self)@ == old(self)@.update(r * COLS + c, b),
    {
        self.cells.set(r * COLS + c, b);
    }
}

/// Builds a grid from one raw reading per cell, row-major. An unreadable pin
/// (`None`) is taken as released, so one bad pin never hides the rest of the
/// matrix.
pub fn grid_from_readings(readings: &Vec<Option<bool>>) -> (g: Grid)
    requires
        readings@.len() == NKEYS,
    ensures
        g.wf(),
        forall|i: int|
            0 <= i < NKEYS ==> g@[i] == (readings@[i] matches Some(b) && b),
{
    let mut cells: Vec<bool> = Vec::new();
    let mut i: usize = 0;
    while i < NKEYS
        invariant
            i <= NKEYS,
            readings@.len() == NKEYS,
            cells@.len() == i,
            forall|j: int| 0 <= j < i ==> cells@[j] == (readings@[j] matches Some(b) && b),
        decreases NKEYS - i,
    {
        let b = match readings[i] {
            Some(v) => v,
            None => false,
        };
        cells.push(b);
        i = i + 1;
    }
    Grid { cells }
}

} // verus!
