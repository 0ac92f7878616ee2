//! The grid world: a rectangle of cells that robots explore, mine and mark.

use vstd::prelude::*;

verus! {

/// What a single cell of the world contains.
#[derive(Debug, Clone, Copy, PartialEq, Eq, Hash, Structural)]
pub enum CellType {
    Empty,
    Obstacle,
    Energy(u32),
    Mineral(u32),
    SciencePoint,
}

/// An ordered batch of cell reports a robot carries back to the station:
/// each entry is ((x, y), the cell's content when it was visited).
pub type RobotExplorationUpdate = Vec<((usize, usize), CellType)>;

/// One cell of the grid: its content and whether a robot has visited it.
#[derive(Debug, Clone, Copy, PartialEq, Eq, Structural)]
pub struct Cell {
    pub cell_type: CellType,
    pub explored: bool,
}

impl Cell {
    pub fn new(cell_type: CellType) -> (c: Self)
        ensures
            c.cell_type == cell_type,
            !c.explored,
    {
        Self { cell_type, explored: false }
    }
}

/// The grid itself.  `cells` is stored row by row: `cells[y][x]`.
///
/// The constructor yields an all-`Empty` grid; terrain and resources are laid
/// down by the caller through `set_cell_type`, so that the world-building
/// policy (typically driven by a noise function) stays outside this library.
pub struct Grid {
    pub width: usize,
    pub height: usize,
    pub cells: Vec<Vec<Cell>>,
    pub seed: u32,
}

impl Grid {
    /// The grid is a proper rectangle: `height` rows of `width` cells each.
    pub open spec fn wf(&self) -> bool {
        &&& self.cells@.len() == self.height
        &&& forall|y: int|
            0 <= y < self.height ==> (#[trigger] self.cells@[y])@.len() == self.width
    }

    /// Whether `(x, y)` lies on the grid.
    pub open spec fn spec_valid(&self, x: usize, y: usize) -> bool {
        x < self.width && y < self.height
    }

    /// The cell at `(x, y)`; meaningful only in bounds.
    pub open spec fn cell_at(&self, x: int, y: int) -> Cell {
        self.cells@[y]@[x]
    }

    /// Everything but the cell at `(x, y)` agrees between `self` and `other`,
    /// and the two grids have the same shape.
    pub open spec fn same_but(&self, other: &Grid, x: usize, y: usize) -> bool {
        &&& self.width == other.width
        &&& self.height == other.height
        &&& self.seed == other.seed
        &&& forall|i: int, j: int|
            0 <= i < self.width && 0 <= j < self.height && !(i == x && j == y)
                ==> #[trigger] self.cell_at(i, j) == other.cell_at(i, j)
    }

    pub fn new(width: usize, height: usize, seed: u32) -> (g: Self)
        ensures
            g.wf(),
            g.width == width,
            g.height == height,
            g.seed == seed,
            forall|x: int, y: int|
                0 <= x < width && 0 <= y < height
                    ==> #[trigger] g.cell_at(x, y) == (Cell {
                        cell_type: CellType::Empty,
                        explored: false,
                    }),
    {
        let mut cells: Vec<Vec<Cell>> = Vec::new();
        let mut y: usize = 0;
        while y < height
            invariant
                y <= height,
                cells@.len() == y,
                forall|j: int| 0 <= j < y ==> (#[trigger] cells@[j])@.len() == width,
                forall|i: int, j: int|
                    0 <= i < width && 0 <= j < y
                        ==> (#[trigger] cells@[j]@[i]) == (Cell {
                            cell_type: CellType::Empty,
                            explored: false,
                        }),
            decreases height - y,
        {
            let mut row: Vec<Cell> = Vec::new();
            let mut x: usize = 0;
            while x < width
                invariant
                    x <= width,
                    row@.len() == x,
                    forall|i: int|
                        0 <= i < x ==> (#[trigger] row@[i]) == (Cell {
                            cell_type: CellType::Empty,
                            explored: false,
                        }),
                decreases width - x,
            {
                row.push(Cell::new(CellType::Empty));
                x += 1;
            }
            cells.push(row);
            y += 1;
        }
        Self { width, height, cells, seed }
    }

    pub fn is_valid_position(&self, x: usize, y: usize) -> (b: bool)
        ensures
            b == self.spec_valid(x, y),
    {
        x < self.width && y < self.height
    }

    pub fn get_cell(&self, x: usize, y: usize) -> (r: Option<&Cell>)
        requires
            self.wf(),
        ensures
            match r {
                Some(c) => self.spec_valid(x, y) && *c == self.cell_at(x as int, y as int),
                None => !self.spec_valid(x, y),
            },
    {
        if self.is_valid_position(x, y) {
            Some(&self.cells[y][x])
        } else {
            None
        }
    }

    /// Overwrite the content of a cell, keeping its explored flag.
    /// Returns false (and changes nothing) off the grid.
    pub fn set_cell_type(&mut self, x: usize, y: usize, cell_type: CellType) -> (r: bool)
        requires
            old(self).wf(),
        ensures
            final(self).wf(),
            r == old(self).spec_valid(x, y),
            final(self).same_but(old(self), x, y),
            r ==> final(self).cell_at(x as int, y as int) == (Cell {
                cell_type,
                explored: old(self).cell_at(x as int, y as int).explored,
            }),
            !r ==> *final(self) == *old(self),
    {
        if self.is_valid_position(x, y) {
            let explored = self.cells[y][x].explored;
            self.cells[y][x] = Cell { cell_type, explored };
            true
        } else {
            false
        }
    }

    /// Mark a cell as explored.  Returns false (and changes nothing) off the grid.
    pub fn explore(&mut self, x: usize, y: usize) -> (r: bool)
        requires
            old(self).wf(),
        ensures
            final(self).wf(),
            r == old(self).spec_valid(x, y),
            final(self).same_but(old(self), x, y),
            r ==> final(self).cell_at(x as int, y as int) == (Cell {
                cell_type: old(self).cell_at(x as int, y as int).cell_type,
                explored: true,
            }),
            !r ==> *final(self) == *old(self),
    {
        if self.is_valid_position(x, y) {
            let cell_type = self.cells[y][x].cell_type;
            self.cells[y][x] = Cell { cell_type, explored: true };
            true
        } else {
            false
        }
    }

    /// Take the resource out of a cell.  An `Energy` or `Mineral` cell yields
    /// its amount, a `SciencePoint` yields 1, and the cell becomes `Empty`;
    /// anything else (or an off-grid position) yields `None` and changes nothing.
    pub fn collect_resource(&mut self, x: usize, y: usize) -> (r: Option<(CellType, u32)>)
        requires
            old(self).wf(),
        ensures
            final(self).wf(),
            final(self).same_but(old(self), x, y),
            match r {
                Some(taken) => {
                    &&& old(self).spec_valid(x, y)
                    &&& final(self).cell_at(x as int, y as int) == (Cell {
                        cell_type: CellType::Empty,
                        explored: old(self).cell_at(x as int, y as int).explored,
                    })
                    &&& match old(self).cell_at(x as int, y as int).cell_type {
                        CellType::Energy(amount) => taken == (CellType::Energy(0u32), amount),
                        CellType::Mineral(amount) => taken == (CellType::Mineral(0u32), amount),
                        CellType::SciencePoint => taken == (CellType::SciencePoint, 1u32),
                        _ => false,
                    }
                },
                None => {
                    &&& *final(self) == *old(self)
                    &&& (old(self).spec_valid(x, y) ==> match old(self).cell_at(
                        x as int,
                        y as int,
                    ).cell_type {
                        CellType::Empty | CellType::Obstacle => true,
                        _ => false,
                    })
                },
            },
    {
        if !self.is_valid_position(x, y) {
            return None;
        }
        let cell = self.cells[y][x];
        match cell.cell_type {
            CellType::Energy(amount) => {
                self.cells[y][x] = Cell { cell_type: CellType::Empty, explored: cell.explored };
                Some((CellType::Energy(0), amount))
            },
            CellType::Mineral(amount) => {
                self.cells[y][x] = Cell { cell_type: CellType::Empty, explored: cell.explored };
                Some((CellType::Mineral(0), amount))
            },
            CellType::SciencePoint => {
                self.cells[y][x] = Cell { cell_type: CellType::Empty, explored: cell.explored };
                Some((CellType::SciencePoint, 1))
            },
            _ => None,
        }
    }
}

} // verus!
