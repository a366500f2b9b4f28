//! The sparse, auto-growing 2D memory grid of 32-bit cells.
//!
//! Logically the grid is a total function from coordinates to `u32`: every
//! cell that was never written reads as 0.  Physically it is a ragged list
//! of rows that grows only on write access.

use vstd::prelude::*;
use crate::Coord;

verus! {

/// Sparse 2D array of unsigned 32-bit cells; unwritten cells read as 0.
#[derive(Debug, Clone)]
pub struct MemoryGrid {
    pub rows: Vec<Vec<u32>>,
}

impl Default for MemoryGrid {
    /// An empty grid: every cell reads as 0.
    fn default() -> (r: Self)
        ensures
            r.rows@.len() == 0,
    {
        MemoryGrid { rows: Vec::new() }
    }
}

impl MemoryGrid {
    /// The value of the cell at `c`: the stored value inside the current
    /// extent, 0 everywhere else.
    pub open spec fn at(self, c: Coord) -> u32 {
        if c.1 < self.rows@.len() && c.0 < self.rows@[c.1 as int]@.len() {
            self.rows@[c.1 as int]@[c.0 as int]
        } else {
            0
        }
    }

    /// An empty grid: every cell reads as 0.
    pub fn new() -> (r: Self)
        ensures
            r.rows@.len() == 0,
            forall|c: Coord| r.at(c) == 0u32,
    {
        MemoryGrid { rows: Vec::new() }
    }

    /// Reading never fails and never writes: 0 outside the current extent.
    pub fn get(&self, c: Coord) -> (r: u32)
        ensures
            r == self.at(c),
    {
        if c.1 < self.rows.len() {
            let row = &self.rows[c.1];
            if c.0 < row.len() {
                row[c.0]
            } else {
                0
            }
        } else {
            0
        }
    }

    /// Grows rows and columns (zero-filling new cells) until `c` lies
    /// inside the physical extent.  This is the sole growth path, and it
    /// never changes the value any cell reads as.
    pub fn entry(&mut self, c: Coord)
        ensures
            c.1 < final(self).rows@.len(),
            c.0 < final(self).rows@[c.1 as int]@.len(),
            forall|c2: Coord| final(self).at(c2) == old(self).at(c2),
    {
        while self.rows.len() <= c.1
            invariant
                forall|c2: Coord| self.at(c2) == old(self).at(c2),
                self.rows@.len() >= old(self).rows@.len(),
                forall|i: int| 0 <= i < old(self).rows@.len()
                    ==> self.rows@[i] == old(self).rows@[i],
            decreases c.1 + 1 - self.rows.len(),
        {
            self.rows.push(Vec::new());
        }
        let ghost grown = *self;
        let row_len = self.rows[c.1].len();
        if row_len <= c.0 {
            let mut row: Vec<u32> = Vec::new();
            let mut j: usize = 0;
            let old_row = &self.rows[c.1];
            while j < old_row.len()
                invariant
                    j <= old_row.len(),
                    row@ =~= old_row@.take(j as int),
                decreases old_row.len() - j,
            {
                let v = old_row[j];
                row.push(v);
                j += 1;
            }
            while row.len() <= c.0
                invariant
                    row@.len() >= grown.rows@[c.1 as int]@.len(),
                    forall|k: int| 0 <= k < grown.rows@[c.1 as int]@.len()
                        ==> row@[k] == grown.rows@[c.1 as int]@[k],
                    forall|k: int| grown.rows@[c.1 as int]@.len() <= k < row@.len()
                        ==> row@[k] == 0u32,
                decreases c.0 + 1 - row.len(),
            {
                row.push(0);
            }
            self.rows[c.1] = row;
            proof {
                assert forall|c2: Coord| self.at(c2) == grown.at(c2) by {
                    if c2.1 != c.1 && c2.1 < self.rows@.len() {
                        assert(self.rows@[c2.1 as int] == grown.rows@[c2.1 as int]);
                    }
                }
            }
        }
    }

    /// Writes `v` to the cell at `c`, growing the grid as needed: afterwards
    /// `c` reads as `v` and every other coordinate reads as before.
    pub fn set(&mut self, c: Coord, v: u32)
        ensures
            forall|c2: Coord| final(self).at(c2)
                == (if c2 == c { v } else { old(self).at(c2) }),
    {
        self.entry(c);
        let ghost grown = *self;
        self.rows[c.1][c.0] = v;
        proof {
            assert forall|c2: Coord| self.at(c2)
                == (if c2 == c { v } else { old(self).at(c2) }) by {
                if c2.1 != c.1 && c2.1 < self.rows@.len() {
                    assert(self.rows@[c2.1 as int] == grown.rows@[c2.1 as int]);
                }
            }
        }
    }

    /// Discards all rows: every cell reads as 0 again.
    pub fn reset(&mut self)
        ensures
            final(self).rows@.len() == 0,
            forall|c: Coord| final(self).at(c) == 0u32,
    {
        self.rows.clear();
    }

    /// The physical rows, for inspection; absence of a cell means 0.
    pub fn rows(&self) -> (r: &[Vec<u32>])
        ensures
            r@ == self.rows@,
    {
        self.rows.as_slice()
    }
}

} // verus!
