use vstd::prelude::*;

verus! {

/// A place on a grid, or beside it, by column and row.
#[derive(Clone, Copy, Debug, PartialEq, Eq, Structural)]
pub struct Cell {
    pub x: i32,
    pub y: i32,
}

impl Cell {
    pub fn new(x: i32, y: i32) -> (cell: Self)
        ensures
            cell == (Cell { x, y }),
    {
        Cell { x, y }
    }
}

/// The numbers of columns and rows of a grid.
#[derive(Clone, Copy, Debug, PartialEq, Eq, Structural)]
pub struct GridShape {
    pub x: u32,
    pub y: u32,
}

impl GridShape {
    /// A grid has at least one cell, and its cells can be numbered by an
    /// `i32`.
    pub open spec fn valid(self) -> bool {
        &&& self.x >= 1
        &&& self.y >= 1
        &&& self.x * self.y <= i32::MAX
    }

    /// Whether column `x` and row `y` lie on the grid.
    pub open spec fn contains(self, x: int, y: int) -> bool {
        0 <= x < self.x && 0 <= y < self.y
    }

    /// Whether column `x` and row `y` lie in the outermost ring of the grid.
    pub open spec fn on_boundary(self, x: int, y: int) -> bool {
        self.contains(x, y) && (x == 0 || y == 0 || x == self.x - 1 || y == self.y - 1)
    }

    /// Whether column `x` and row `y` lie on the grid, inside its outermost
    /// ring.
    pub open spec fn in_interior(self, x: int, y: int) -> bool {
        0 < x < self.x - 1 && 0 < y < self.y - 1
    }

    /// The column on the grid that is nearest to `x`.
    pub open spec fn clamp_x(self, x: int) -> int {
        clamp(x, self.x - 1)
    }

    /// The row on the grid that is nearest to `y`.
    pub open spec fn clamp_y(self, y: int) -> int {
        clamp(y, self.y - 1)
    }

    pub fn new(x: u32, y: u32) -> (shape: Self)
        ensures
            shape == (GridShape { x, y }),
    {
        GridShape { x, y }
    }

    /// Says whether a grid of this shape can be made.
    pub fn is_valid(&self) -> (valid: bool)
        ensures
            valid == self.valid(),
    {
        let x: u64 = self.x as u64;
        let y: u64 = self.y as u64;
        assert(x * y <= 0xffff_ffff * 0xffff_ffff) by (nonlinear_arith)
            requires
                x <= 0xffff_ffff,
                y <= 0xffff_ffff,
        ;
        x >= 1 && y >= 1 && x * y <= 0x7fff_ffff
    }
}

/// `v`, or the nearest number between zero and `max`.
pub open spec fn clamp(v: int, max: int) -> int {
    if v < 0 {
        0
    } else if v > max {
        max
    } else {
        v
    }
}

/// A grid of cells in rows and columns. A place beside the grid stands for
/// the nearest cell on it, so every `Cell` names a cell of the grid.
pub struct Grid2<T> {
    cells: Vec<T>,
    shape: GridShape,
}

impl<T: Copy> Grid2<T> {
    pub closed spec fn shape(&self) -> GridShape {
        self.shape
    }

    /// What the cell in column `x` and row `y` holds.
    pub closed spec fn at(&self, x: int, y: int) -> T {
        self.cells@[y * self.shape.x + x]
    }

    /// The grid has a cell for every column and row of its shape.
    pub closed spec fn wf(&self) -> bool {
        &&& self.shape.valid()
        &&& self.cells.len() == self.shape.x * self.shape.y
    }

    /// What the cell that `cell` names holds.
    pub open spec fn get(&self, cell: Cell) -> T {
        self.at(self.shape().clamp_x(cell.x as int), self.shape().clamp_y(cell.y as int))
    }

    /// A well-formed grid has a valid shape, and neither side of it is
    /// longer than an `i32` can say.
    pub proof fn shape_is_valid(&self)
        requires
            self.wf(),
        ensures
            self.shape().valid(),
            self.shape().x <= i32::MAX,
            self.shape().y <= i32::MAX,
    {
        lemma_sides_fit(self.shape);
    }

    /// The numbers of columns and rows.
    pub fn dimensions(&self) -> (shape: GridShape)
        ensures
            shape == self.shape(),
    {
        self.shape
    }

    /// A grid of the given shape with `value` in every cell.
    pub fn new_fill(shape: GridShape, value: T) -> (grid: Self)
        requires
            shape.valid(),
        ensures
            grid.wf(),
            grid.shape() == shape,
            forall|x: int, y: int| shape.contains(x, y) ==> #[trigger] grid.at(x, y) == value,
    {
        let n: usize = (shape.x * shape.y) as usize;
        let mut cells: Vec<T> = Vec::new();
        let mut i: usize = 0;
        while i < n
            invariant
                i <= n,
                cells.len() == i,
                forall|j: int| 0 <= j < i ==> #[trigger] cells@[j] == value,
            decreases n - i,
        {
            cells.push(value);
            i += 1;
        }
        let grid = Grid2 { cells, shape };
        proof {
            assert forall|x: int, y: int| shape.contains(x, y) implies #[trigger] grid.at(x, y)
                == value by {
                lemma_offset_in_range(shape, x, y);
            }
        }
        grid
    }

    /// Puts `value` in every cell.
    pub fn fill(&mut self, value: T)
        requires
            old(self).wf(),
        ensures
            final(self).wf(),
            final(self).shape() == old(self).shape(),
            forall|x: int, y: int|
                final(self).shape().contains(x, y) ==> #[trigger] final(self).at(x, y) == value,
    {
        let n = self.cells.len();
        let mut i: usize = 0;
        while i < n
            invariant
                i <= n,
                n == self.cells.len(),
                self.shape == old(self).shape,
                forall|j: int| 0 <= j < i ==> #[trigger] self.cells@[j] == value,
            decreases n - i,
        {
            self.cells[i] = value;
            i += 1;
        }
        proof {
            assert forall|x: int, y: int| self.shape.contains(x, y) implies #[trigger] self.at(x, y)
                == value by {
                lemma_offset_in_range(self.shape, x, y);
            }
        }
    }

    /// Puts `value` in every cell of the outermost ring and leaves the
    /// cells inside it as they are.
    pub fn fill_boundary(&mut self, value: T)
        requires
            old(self).wf(),
        ensures
            final(self).wf(),
            final(self).shape() == old(self).shape(),
            forall|x: int, y: int|
                old(self).shape().contains(x, y) ==> #[trigger] final(self).at(x, y) == if old(self).shape().on_boundary(x, y) {
                    value
                } else {
                    old(self).at(x, y)
                },
    {
        proof {
            lemma_sides_fit(self.shape);
        }
        let width: i32 = self.shape.x as i32;
        let height: i32 = self.shape.y as i32;
        let mut x: i32 = 0;
        while x < width
            invariant
                0 <= x <= width,
                width == self.shape.x,
                height == self.shape.y,
                self.wf(),
                self.shape == old(self).shape,
                forall|i: int, j: int|
                    self.shape.contains(i, j) ==> #[trigger] self.at(i, j) == if i < x && (j == 0
                        || j == height - 1) {
                        value
                    } else {
                        old(self).at(i, j)
                    },
            decreases width - x,
        {
            self.set(Cell { x, y: 0 }, value);
            self.set(Cell { x, y: height - 1 }, value);
            x += 1;
        }
        let mut y: i32 = 0;
        while y < height
            invariant
                0 <= y <= height,
                width == self.shape.x,
                height == self.shape.y,
                self.wf(),
                self.shape == old(self).shape,
                forall|i: int, j: int|
                    self.shape.contains(i, j) ==> #[trigger] self.at(i, j) == if j == 0 || j
                        == height - 1 || (j < y && (i == 0 || i == width - 1)) {
                        value
                    } else {
                        old(self).at(i, j)
                    },
            decreases height - y,
        {
            self.set(Cell { x: 0, y }, value);
            self.set(Cell { x: width - 1, y }, value);
            y += 1;
        }
    }

    /// What the cell that `index` names holds.
    pub fn index(&self, index: Cell) -> (value: &T)
        requires
            self.wf(),
        ensures
            *value == self.get(index),
    {
        let i = self.offset(index);
        &self.cells[i]
    }

    /// Puts `value` in the cell that `index` names, and leaves all others as
    /// they are.
    pub fn set(&mut self, index: Cell, value: T)
        requires
            old(self).wf(),
        ensures
            final(self).wf(),
            final(self).shape() == old(self).shape(),
            final(self).get(index) == value,
            forall|x: int, y: int|
                old(self).shape().contains(x, y) ==> #[trigger] final(self).at(x, y) == if x
                    == old(self).shape().clamp_x(index.x as int) && y == old(self).shape().clamp_y(
                    index.y as int,
                ) {
                    value
                } else {
                    old(self).at(x, y)
                },
    {
        let i = self.offset(index);
        self.cells[i] = value;
        proof {
            let cx = self.shape.clamp_x(index.x as int);
            let cy = self.shape.clamp_y(index.y as int);
            assert forall|x: int, y: int| self.shape.contains(x, y) implies #[trigger] self.at(x, y)
                == if x == cx && y == cy {
                value
            } else {
                old(self).at(x, y)
            } by {
                lemma_offset_in_range(self.shape, x, y);
                if x != cx || y != cy {
                    lemma_offsets_differ(self.shape, x, y, cx, cy);
                }
            }
        }
    }

    /// The place in `cells` of the cell that `index` names.
    fn offset(&self, index: Cell) -> (i: usize)
        requires
            self.wf(),
        ensures
            i < self.cells.len(),
            i == self.shape.clamp_y(index.y as int) * self.shape.x + self.shape.clamp_x(
                index.x as int,
            ),
    {
        proof {
            lemma_sides_fit(self.shape);
        }
        let max_x: i32 = (self.shape.x - 1) as i32;
        let max_y: i32 = (self.shape.y - 1) as i32;
        let x: i32 = if index.x < 0 {
            0
        } else if index.x > max_x {
            max_x
        } else {
            index.x
        };
        let y: i32 = if index.y < 0 {
            0
        } else if index.y > max_y {
            max_y
        } else {
            index.y
        };
        proof {
            lemma_offset_in_range(self.shape, x as int, y as int);
        }
        (y * (self.shape.x as i32) + x) as usize
    }
}

/// Neither side of a valid shape is longer than the number of its cells.
proof fn lemma_sides_fit(shape: GridShape)
    requires
        shape.valid(),
    ensures
        shape.x <= i32::MAX,
        shape.y <= i32::MAX,
{
    assert(shape.x <= shape.x * shape.y && shape.y <= shape.x * shape.y) by (nonlinear_arith)
        requires
            shape.x >= 1,
            shape.y >= 1,
    ;
}

/// The cells of a row lie side by side in `cells`, row after row.
proof fn lemma_offset_in_range(shape: GridShape, x: int, y: int)
    requires
        shape.contains(x, y),
    ensures
        0 <= y * shape.x <= y * shape.x + x < shape.x * shape.y,
{
    assert(0 <= y * shape.x && (y + 1) * shape.x <= shape.y * shape.x && (y + 1) * shape.x == y
        * shape.x + shape.x && shape.y * shape.x == shape.x * shape.y) by (nonlinear_arith)
        requires
            0 <= y < shape.y,
            shape.x >= 1,
    ;
}

/// Two different cells have different places in `cells`.
proof fn lemma_offsets_differ(shape: GridShape, x: int, y: int, cx: int, cy: int)
    requires
        shape.contains(x, y),
        shape.contains(cx, cy),
        x != cx || y != cy,
    ensures
        y * shape.x + x != cy * shape.x + cx,
{
    if y < cy {
        assert((y + 1) * shape.x <= cy * shape.x && (y + 1) * shape.x == y * shape.x + shape.x)
            by (nonlinear_arith)
            requires
                y + 1 <= cy,
                shape.x >= 1,
        ;
    } else if cy < y {
        assert((cy + 1) * shape.x <= y * shape.x && (cy + 1) * shape.x == cy * shape.x + shape.x)
            by (nonlinear_arith)
            requires
                cy + 1 <= y,
                shape.x >= 1,
        ;
    }
}

} // verus!
