//! The cells the player sees, as handed in by a field-of-view computation.

use vstd::prelude::*;

use crate::map::{MAP_HEIGHT, MAP_WIDTH};

verus! {

/// The cells that the player currently sees, as computed by a field-of-view
/// algorithm outside this library: `cells[x][y]`.
pub struct FovMap {
    pub cells: Vec<Vec<bool>>,
}

impl FovMap {
    /// The cell `(x, y)` is seen.
    pub open spec fn visible(&self, x: int, y: int) -> bool {
        &&& 0 <= x < self.cells@.len()
        &&& 0 <= y < self.cells@[x]@.len()
        &&& self.cells@[x]@[y]
    }

    /// A map-sized view in which nothing is seen.
    pub fn new() -> (f: FovMap)
        ensures
            f.cells@.len() == MAP_WIDTH,
            forall|x: int| 0 <= x < MAP_WIDTH ==> #[trigger] f.cells@[x]@.len() == MAP_HEIGHT,
            forall|x: int, y: int| !#[trigger] f.visible(x, y),
    {
        let mut cells: Vec<Vec<bool>> = Vec::new();
        let mut x: usize = 0;
        while x < MAP_WIDTH as usize
            invariant
                x <= MAP_WIDTH,
                cells@.len() == x,
                forall|i: int| 0 <= i < x ==> #[trigger] cells@[i]@.len() == MAP_HEIGHT,
                forall|i: int, j: int|
                    0 <= i < x && 0 <= j < MAP_HEIGHT ==> !#[trigger] cells@[i]@[j],
            decreases MAP_WIDTH - x,
        {
            let mut col: Vec<bool> = Vec::new();
            let mut y: usize = 0;
            while y < MAP_HEIGHT as usize
                invariant
                    y <= MAP_HEIGHT,
                    col@.len() == y,
                    forall|j: int| 0 <= j < y ==> !#[trigger] col@[j],
                decreases MAP_HEIGHT - y,
            {
                col.push(false);
                y = y + 1;
            }
            cells.push(col);
            x = x + 1;
        }
        FovMap { cells }
    }

    /// Marks the cell `(x, y)` as seen or not; a cell outside the view is ignored.
    pub fn set(&mut self, x: i32, y: i32, seen: bool)
        ensures
            final(self).cells@.len() == old(self).cells@.len(),
            forall|i: int|
                0 <= i < old(self).cells@.len() ==> #[trigger] final(self).cells@[i]@.len()
                    == old(self).cells@[i]@.len(),
            forall|i: int, j: int|
                #[trigger] final(self).visible(i, j) == if i == x && j == y
                    && 0 <= i < old(self).cells@.len() && 0 <= j < old(self).cells@[i]@.len() {
                    seen
                } else {
                    old(self).visible(i, j)
                },
    {
        if 0 <= x && (x as usize) < self.cells.len() && 0 <= y && (y as usize)
            < self.cells[x as usize].len() {
            self.cells[x as usize].set(y as usize, seen);
        }
    }

    /// Whether the cell `(x, y)` is seen.
    pub fn is_in_fov(&self, x: i32, y: i32) -> (r: bool)
        ensures
            r == self.visible(x as int, y as int),
    {
        0 <= x && (x as usize) < self.cells.len() && 0 <= y && (y as usize) < self.cells[x
            as usize].len() && self.cells[x as usize][y as usize]
    }
}

} // verus!
