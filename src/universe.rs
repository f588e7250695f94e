use vstd::arithmetic::div_mod::lemma_fundamental_div_mod_converse;
use vstd::prelude::*;

use crate::cell::{
    change_tag, flipped, glider_cells, glider_mask, next_state, weight, Cell, GliderDirection,
    StartMode,
};
use crate::random::random_below;

verus! {

/// A random fill draws a number from `0..DRAW_RANGE` for each cell.
pub const DRAW_RANGE: u32 = 10;

/// A drawn cell is alive when its draw is below `ALIVE_DRAWS`: one cell in ten.
pub const ALIVE_DRAWS: u32 = 1;

/// Why a grid operation refused its arguments.
#[derive(Clone, Copy, Debug, PartialEq, Eq, Structural)]
pub enum GridError {
    /// A grid needs at least one row and one column.
    EmptyDimension,
    /// `rows * columns` does not fit in a `u32`.
    TooManyCells,
    /// A row or column lies outside the grid.
    OutOfBounds,
}

/// `x` wrapped onto `0..n`, for `x` at most one step outside that range.
pub open spec fn torus(x: int, n: int) -> int {
    if x < 0 {
        x + n
    } else if x >= n {
        x - n
    } else {
        x
    }
}

/// The state a render consumer sees: the dimensions, the current buffer and
/// the change tags, all row-major.
pub struct GridState {
    pub rows: nat,
    pub columns: nat,
    pub cells: Seq<Cell>,
    pub changed: Seq<u8>,
}

impl GridState {
    pub open spec fn size(self) -> nat {
        self.rows * self.columns
    }

    pub open spec fn well_formed(self) -> bool {
        &&& self.rows >= 1
        &&& self.columns >= 1
        &&& self.size() <= u32::MAX
        &&& self.cells.len() == self.size()
        &&& self.changed.len() == self.size()
        &&& forall|i: int| 0 <= i < self.changed.len() ==> #[trigger] self.changed[i] <= 2
    }

    pub open spec fn index(self, row: int, column: int) -> int {
        row * self.columns + column
    }

    pub open spec fn at(self, row: int, column: int) -> Cell {
        self.cells[self.index(row, column)]
    }

    /// 1 when the cell at (`row`, `column`), wrapped onto the torus, is alive.
    pub open spec fn live(self, row: int, column: int) -> nat {
        weight(self.at(torus(row, self.rows as int), torus(column, self.columns as int)))
    }

    /// The live cells among the eight around (`row`, `column`), wrapping at
    /// every edge.
    pub open spec fn live_neighbors(self, row: int, column: int) -> nat {
        self.live(row - 1, column - 1) + self.live(row - 1, column) + self.live(row - 1, column + 1)
            + self.live(row, column - 1) + self.live(row, column + 1) + self.live(row + 1, column - 1)
            + self.live(row + 1, column) + self.live(row + 1, column + 1)
    }

    /// The cell at flat index `i` after one generation.
    pub open spec fn next_cell(self, i: int) -> Cell {
        next_state(
            self.cells[i],
            self.live_neighbors(i / self.columns as int, i % self.columns as int),
        )
    }

    /// The tag that one generation leaves at flat index `i`.
    pub open spec fn next_tag(self, i: int) -> u8 {
        change_tag(
            self.cells[i],
            self.live_neighbors(i / self.columns as int, i % self.columns as int),
        )
    }

    /// The grid one generation on, every cell computed from this state alone.
    pub open spec fn next(self) -> GridState {
        GridState {
            rows: self.rows,
            columns: self.columns,
            cells: Seq::new(self.size(), |i: int| self.next_cell(i)),
            changed: Seq::new(self.size(), |i: int| self.next_tag(i)),
        }
    }

    pub open spec fn with_cells(self, cells: Seq<Cell>) -> GridState {
        GridState { rows: self.rows, columns: self.columns, cells, changed: self.changed }
    }

    /// The nine flat indexes of the 3x3 block centred on (`row`, `column`),
    /// wrapped: row above, own row, row below, each left, centre, right.
    pub open spec fn stamp_indexes(self, row: int, column: int) -> Seq<int> {
        let up = torus(row - 1, self.rows as int);
        let down = torus(row + 1, self.rows as int);
        let left = torus(column - 1, self.columns as int);
        let right = torus(column + 1, self.columns as int);
        seq![
            self.index(up, left), self.index(up, column), self.index(up, right),
            self.index(row, left), self.index(row, column), self.index(row, right),
            self.index(down, left), self.index(down, column), self.index(down, right),
        ]
    }
}

/// `cells` with `vals[k]` written at `at[k]`, in order of `k`, so that a later
/// write to the same place wins.
pub open spec fn overwrite(cells: Seq<Cell>, at: Seq<int>, vals: Seq<Cell>) -> Seq<Cell>
    decreases at.len(),
{
    if at.len() == 0 || vals.len() == 0 {
        cells
    } else {
        overwrite(cells, at.drop_last(), vals.drop_last()).update(at.last(), vals.last())
    }
}

/// The state a draw of a random fill gives a cell.
pub open spec fn drawn_cell(draw: u32) -> Cell {
    if draw < ALIVE_DRAWS {
        Cell::Alive
    } else {
        Cell::Dead
    }
}

/// The tag a random fill leaves: 2 (born) for a live cell, 1 (died) for a dead one.
pub open spec fn drawn_tag(draw: u32) -> u8 {
    if draw < ALIVE_DRAWS {
        2
    } else {
        1
    }
}

proof fn lemma_index_bound(rows: int, columns: int, row: int, column: int)
    requires
        0 <= row < rows,
        0 <= column < columns,
    ensures
        0 <= row * columns + column < rows * columns,
{
    assert(0 <= row * columns) by (nonlinear_arith)
        requires
            0 <= row,
            0 <= columns,
    ;
    assert(row * columns + columns <= rows * columns) by (nonlinear_arith)
        requires
            row < rows,
            0 <= columns,
    ;
}

/// The cells written by a glider stamp and where they went.
pub struct Glider {
    indexes: Vec<usize>,
    cells: Vec<Cell>,
}

impl View for Glider {
    type V = (Seq<usize>, Seq<Cell>);

    closed spec fn view(&self) -> (Seq<usize>, Seq<Cell>) {
        (self.indexes@, self.cells@)
    }
}

impl Glider {
    /// The flat indexes written, in stamp order.
    pub fn indexes(&self) -> (r: &[usize])
        ensures
            r@ == self@.0,
    {
        self.indexes.as_slice()
    }

    /// The states written, in the same order as `indexes`.
    pub fn cells(&self) -> (r: &[Cell])
        ensures
            r@ == self@.1,
    {
        self.cells.as_slice()
    }
}

/// A toroidal grid of cells with a scratch buffer for stepping and a change
/// tag per cell.
pub struct Universe {
    columns: u32,
    rows: u32,
    cells: Vec<Cell>,
    cells_next: Vec<Cell>,
    cells_changed: Vec<u8>,
}

impl View for Universe {
    type V = GridState;

    closed spec fn view(&self) -> GridState {
        GridState {
            rows: self.rows as nat,
            columns: self.columns as nat,
            cells: self.cells@,
            changed: self.cells_changed@,
        }
    }
}

impl Universe {
    /// The visible state is well formed and the scratch buffer has its size.
    pub closed spec fn wf(&self) -> bool {
        self@.well_formed() && self.cells_next@.len() == self.cells@.len()
    }

    pub fn columns(&self) -> (r: u32)
        ensures
            r as nat == self@.columns,
    {
        self.columns
    }

    pub fn rows(&self) -> (r: u32)
        ensures
            r as nat == self@.rows,
    {
        self.rows
    }

    fn size(&self) -> (r: usize)
        requires
            self.wf(),
        ensures
            r as nat == self@.size(),
    {
        (self.rows * self.columns) as usize
    }

    /// The current buffer, row-major; valid until the next mutating call.
    pub fn cells(&self) -> (r: &[Cell])
        ensures
            r@ == self@.cells,
    {
        self.cells.as_slice()
    }

    /// The change tags, row-major: 0 unchanged, 1 died, 2 born.
    pub fn cells_changed(&self) -> (r: &[u8])
        ensures
            r@ == self@.changed,
    {
        self.cells_changed.as_slice()
    }

    fn get_index(&self, row: u32, column: u32) -> (r: usize)
        requires
            self.wf(),
            row < self@.rows,
            column < self@.columns,
        ensures
            r as int == self@.index(row as int, column as int),
            r < self@.size(),
    {
        proof {
            lemma_index_bound(self.rows as int, self.columns as int, row as int, column as int);
        }
        (row * self.columns + column) as usize
    }
    /// 1 when the cell at (`row`, `column`) is alive.
    fn live_at(&self, row: u32, column: u32) -> (r: u8)
        requires
            self.wf(),
            row < self@.rows,
            column < self@.columns,
        ensures
            r as nat == weight(self@.at(row as int, column as int)),
    {
        let idx = self.get_index(row, column);
        self.cells[idx].weight()
    }

    /// The live cells among the eight around (`row`, `column`), wrapping at
    /// every edge of the grid.
    fn live_neighbor_count(&self, row: u32, column: u32) -> (r: u8)
        requires
            self.wf(),
            row < self@.rows,
            column < self@.columns,
        ensures
            r as nat == self@.live_neighbors(row as int, column as int),
    {
        let ghost s = self@;
        let north = if row == 0 { self.rows - 1 } else { row - 1 };
        let south = if row == self.rows - 1 { 0 } else { row + 1 };
        let west = if column == 0 { self.columns - 1 } else { column - 1 };
        let east = if column == self.columns - 1 { 0 } else { column + 1 };
        assert(north == torus(row - 1, s.rows as int) && south == torus(row + 1, s.rows as int));
        assert(west == torus(column - 1, s.columns as int) && east == torus(
            column + 1,
            s.columns as int,
        ));
        assert(row == torus(row as int, s.rows as int) && column == torus(
            column as int,
            s.columns as int,
        ));

        let nw = self.live_at(north, west);
        let n = self.live_at(north, column);
        let ne = self.live_at(north, east);
        let w = self.live_at(row, west);
        let e = self.live_at(row, east);
        let sw = self.live_at(south, west);
        let so = self.live_at(south, column);
        let se = self.live_at(south, east);
        nw + n + ne + w + e + sw + so + se
    }

    /// Advances the grid one generation and tags every cell with what
    /// happened to it.
    pub fn tick(&mut self)
        requires
            old(self).wf(),
        ensures
            final(self).wf(),
            final(self)@ == old(self)@.next(),
    {
        let ghost pre = self@;
        let rows = self.rows;
        let columns = self.columns;
        let mut idx: usize = 0;
        let mut row: u32 = 0;
        while row < rows
            invariant
                self.wf(),
                self.rows == rows,
                self.columns == columns,
                self.cells@ == pre.cells,
                pre == (GridState { changed: pre.changed, ..self@ }),
                0 <= row <= rows,
                idx as int == row as int * columns as int,
                forall|k: int| 0 <= k < idx ==> #[trigger] self.cells_next@[k] == pre.next_cell(k),
                forall|k: int| 0 <= k < idx ==> #[trigger] self.cells_changed@[k] == pre.next_tag(k),
            decreases rows - row,
        {
            proof {
                lemma_index_bound(rows as int, columns as int, row as int, 0);
            }
            let mut col: u32 = 0;
            while col < columns
                invariant
                    self.wf(),
                    self.rows == rows,
                    self.columns == columns,
                    self.cells@ == pre.cells,
                    pre == (GridState { changed: pre.changed, ..self@ }),
                    0 <= row < rows,
                    0 <= col <= columns,
                    idx as int == row as int * columns as int + col,
                    forall|k: int|
                        0 <= k < idx ==> #[trigger] self.cells_next@[k] == pre.next_cell(k),
                    forall|k: int|
                        0 <= k < idx ==> #[trigger] self.cells_changed@[k] == pre.next_tag(k),
                decreases columns - col,
            {
                proof {
                    lemma_index_bound(rows as int, columns as int, row as int, col as int);
                    lemma_fundamental_div_mod_converse(
                        idx as int,
                        columns as int,
                        row as int,
                        col as int,
                    );
                }
                let cell = self.cells[idx];
                let live_neighbors = self.live_neighbor_count(row, col);
                if cell == Cell::Alive && (live_neighbors < 2 || live_neighbors > 3) {
                    self.cells_next.set(idx, Cell::Dead);
                    self.cells_changed.set(idx, 1);
                } else if cell == Cell::Dead && live_neighbors == 3 {
                    self.cells_next.set(idx, Cell::Alive);
                    self.cells_changed.set(idx, 2);
                } else {
                    self.cells_next.set(idx, cell);
                    self.cells_changed.set(idx, 0);
                }
                idx += 1;
                col += 1;
            }
            proof {
                assert((row as int + 1) * columns as int == row as int * columns as int
                    + columns as int) by (nonlinear_arith);
            }
            row += 1;
        }
        std::mem::swap(&mut self.cells, &mut self.cells_next);
        assert(self.cells@ =~= pre.next().cells);
        assert(self.cells_changed@ =~= pre.next().changed);
    }
    /// Flips the cell at (`row`, `column`) and returns its new state. The
    /// change tags are left as they were.
    pub fn toggle_cell(&mut self, row: u32, column: u32) -> (r: Result<Cell, GridError>)
        requires
            old(self).wf(),
        ensures
            final(self).wf(),
            row < old(self)@.rows && column < old(self)@.columns ==> {
                let i = old(self)@.index(row as int, column as int);
                let c = flipped(old(self)@.cells[i]);
                &&& r == Ok::<Cell, GridError>(c)
                &&& final(self)@ == old(self)@.with_cells(old(self)@.cells.update(i, c))
            },
            !(row < old(self)@.rows && column < old(self)@.columns) ==> {
                &&& r == Err::<Cell, GridError>(GridError::OutOfBounds)
                &&& final(self)@ == old(self)@
            },
    {
        if row >= self.rows || column >= self.columns {
            return Err(GridError::OutOfBounds);
        }
        let idx = self.get_index(row, column);
        let mut cell = self.cells[idx];
        cell.toggle();
        self.cells.set(idx, cell);
        assert(self@.cells =~= old(self)@.cells.update(idx as int, cell));
        Ok(cell)
    }

    /// Writes the 3x3 glider for `direction` over the block centred on
    /// (`row`, `column`), wrapping at the edges, whatever the cells held.
    /// Returns the nine indexes and states written, in stamp order. The
    /// change tags are left as they were.
    pub fn toggle_glider(&mut self, row: u32, column: u32, direction: GliderDirection) -> (r:
        Result<Glider, GridError>)
        requires
            old(self).wf(),
        ensures
            final(self).wf(),
            row < old(self)@.rows && column < old(self)@.columns ==> {
                let at = old(self)@.stamp_indexes(row as int, column as int);
                let mask = glider_mask(direction);
                &&& r is Ok
                &&& r->Ok_0@.1 == mask
                &&& r->Ok_0@.0.len() == 9
                &&& forall|k: int| 0 <= k < 9 ==> #[trigger] r->Ok_0@.0[k] as int == at[k]
                &&& final(self)@ == old(self)@.with_cells(overwrite(old(self)@.cells, at, mask))
            },
            !(row < old(self)@.rows && column < old(self)@.columns) ==> {
                &&& r is Err
                &&& r->Err_0 == GridError::OutOfBounds
                &&& final(self)@ == old(self)@
            },
    {
        if row >= self.rows || column >= self.columns {
            return Err(GridError::OutOfBounds);
        }
        let ghost pre = self@;
        let ghost at = pre.stamp_indexes(row as int, column as int);
        let cells = glider_cells(direction);
        let up = if row == 0 { self.rows - 1 } else { row - 1 };
        let down = if row == self.rows - 1 { 0 } else { row + 1 };
        let left = if column == 0 { self.columns - 1 } else { column - 1 };
        let right = if column == self.columns - 1 { 0 } else { column + 1 };
        let mut indexes: Vec<usize> = Vec::new();
        indexes.push(self.get_index(up, left));
        indexes.push(self.get_index(up, column));
        indexes.push(self.get_index(up, right));
        indexes.push(self.get_index(row, left));
        indexes.push(self.get_index(row, column));
        indexes.push(self.get_index(row, right));
        indexes.push(self.get_index(down, left));
        indexes.push(self.get_index(down, column));
        indexes.push(self.get_index(down, right));
        assert(forall|k: int| 0 <= k < 9 ==> #[trigger] indexes@[k] as int == at[k]);
        assert(at.len() == 9 && cells@.len() == 9);
        let mut i: usize = 0;
        while i < 9
            invariant
                self.wf(),
                self@ == pre.with_cells(self@.cells),
                cells@ == glider_mask(direction),
                indexes@.len() == 9,
                at.len() == 9,
                cells@.len() == 9,
                forall|k: int| 0 <= k < 9 ==> #[trigger] indexes@[k] as int == at[k],
                forall|k: int| 0 <= k < 9 ==> #[trigger] indexes@[k] < pre.size(),
                0 <= i <= 9,
                self@.cells == overwrite(pre.cells, at.take(i as int), cells@.take(i as int)),
            decreases 9 - i,
        {
            let idx = indexes[i];
            self.cells.set(idx, cells[i]);
            proof {
                assert(at.take(i + 1).drop_last() =~= at.take(i as int));
                assert(cells@.take(i + 1).drop_last() =~= cells@.take(i as int));
            }
            i += 1;
        }
        assert(at.take(9) =~= at);
        assert(cells@.take(9) =~= cells@);
        Ok(Glider { indexes, cells })
    }

    /// A grid of `rows` by `columns` dead cells, every tag 0. Refuses a zero
    /// dimension, and a size that does not fit in a `u32`.
    pub fn new(rows: u32, columns: u32) -> (r: Result<Universe, GridError>)
        ensures
            rows == 0 || columns == 0 ==> r == Err::<Universe, GridError>(
                GridError::EmptyDimension,
            ),
            rows > 0 && columns > 0 && rows * columns > u32::MAX ==> r == Err::<
                Universe,
                GridError,
            >(GridError::TooManyCells),
            rows > 0 && columns > 0 && rows * columns <= u32::MAX ==> {
                &&& r is Ok
                &&& r->Ok_0.wf()
                &&& r->Ok_0@.rows == rows
                &&& r->Ok_0@.columns == columns
                &&& forall|i: int|
                    0 <= i < rows * columns ==> #[trigger] r->Ok_0@.cells[i] == Cell::Dead
                &&& forall|i: int| 0 <= i < rows * columns ==> #[trigger] r->Ok_0@.changed[i] == 0
            },
    {
        if rows == 0 || columns == 0 {
            return Err(GridError::EmptyDimension);
        }
        let size = match rows.checked_mul(columns) {
            Some(n) => n as usize,
            None => return Err(GridError::TooManyCells),
        };
        let mut cells: Vec<Cell> = Vec::new();
        let mut cells_next: Vec<Cell> = Vec::new();
        let mut cells_changed: Vec<u8> = Vec::new();
        let mut i: usize = 0;
        while i < size
            invariant
                0 <= i <= size,
                cells@.len() == i && cells_next@.len() == i && cells_changed@.len() == i,
                forall|k: int| 0 <= k < i ==> #[trigger] cells@[k] == Cell::Dead,
                forall|k: int| 0 <= k < i ==> #[trigger] cells_changed@[k] == 0,
            decreases size - i,
        {
            cells.push(Cell::Dead);
            cells_next.push(Cell::Dead);
            cells_changed.push(0);
            i += 1;
        }
        Ok(Universe { columns, rows, cells, cells_next, cells_changed })
    }

    /// Fills the grid for a start: `Blank` makes every cell dead and tags it 1
    /// (died), so that a renderer redraws it all; `Random` gives each cell a
    /// draw of its own, alive one time in ten, as `populate_from_draws` says.
    pub fn populate(universe: Universe, start_mode: StartMode) -> (r: Universe)
        requires
            universe.wf(),
        ensures
            r.wf(),
            r@.rows == universe@.rows,
            r@.columns == universe@.columns,
            start_mode == StartMode::Blank ==> forall|i: int|
                0 <= i < r@.size() ==> #[trigger] r@.cells[i] == Cell::Dead && r@.changed[i] == 1,
            start_mode == StartMode::Random ==> forall|i: int|
                0 <= i < r@.size() ==> {
                    ||| #[trigger] r@.cells[i] == Cell::Alive && r@.changed[i] == 2
                    ||| r@.cells[i] == Cell::Dead && r@.changed[i] == 1
                },
    {
        let size = universe.size();
        if start_mode == StartMode::Random {
            let mut draws: Vec<u32> = Vec::new();
            let mut i: usize = 0;
            while i < size
                invariant
                    0 <= i <= size,
                    draws@.len() == i,
                decreases size - i,
            {
                draws.push(random_below(DRAW_RANGE));
                i += 1;
            }
            Universe::populate_from_draws(universe, &draws)
        } else {
            let mut universe = universe;
            let ghost pre = universe@;
            let mut i: usize = 0;
            while i < size
                invariant
                    universe.wf(),
                    universe@.rows == pre.rows && universe@.columns == pre.columns,
                    size == pre.size(),
                    0 <= i <= size,
                    forall|k: int|
                        0 <= k < i ==> #[trigger] universe@.cells[k] == Cell::Dead
                            && universe@.changed[k] == 1,
                decreases size - i,
            {
                universe.cells.set(i, Cell::Dead);
                universe.cells_changed.set(i, 1);
                i += 1;
            }
            universe
        }
    }

    /// Fills the grid from one draw per cell: the cell at `i` is alive and
    /// tagged 2 (born) when `draws[i] < ALIVE_DRAWS`, else dead and tagged 1
    /// (died).
    pub fn populate_from_draws(universe: Universe, draws: &Vec<u32>) -> (r: Universe)
        requires
            universe.wf(),
            draws@.len() == universe@.size(),
        ensures
            r.wf(),
            r@.rows == universe@.rows,
            r@.columns == universe@.columns,
            r@.cells == Seq::new(universe@.size(), |i: int| drawn_cell(draws@[i])),
            r@.changed == Seq::new(universe@.size(), |i: int| drawn_tag(draws@[i])),
    {
        let mut universe = universe;
        let ghost pre = universe@;
        let size = universe.size();
        let mut i: usize = 0;
        while i < size
            invariant
                universe.wf(),
                universe@.rows == pre.rows && universe@.columns == pre.columns,
                size == pre.size(),
                draws@.len() == size,
                0 <= i <= size,
                forall|k: int| 0 <= k < i ==> #[trigger] universe@.cells[k] == drawn_cell(draws@[k]),
                forall|k: int| 0 <= k < i ==> #[trigger] universe@.changed[k] == drawn_tag(draws@[k]),
            decreases size - i,
        {
            if draws[i] < ALIVE_DRAWS {
                universe.cells.set(i, Cell::Alive);
                universe.cells_changed.set(i, 2);
            } else {
                universe.cells.set(i, Cell::Dead);
                universe.cells_changed.set(i, 1);
            }
            i += 1;
        }
        assert(universe@.cells =~= Seq::new(size as nat, |i: int| drawn_cell(draws@[i])));
        assert(universe@.changed =~= Seq::new(size as nat, |i: int| drawn_tag(draws@[i])));
        universe
    }
    /// Every state reachable through this type's operations keeps one cell
    /// and one tag per position of the grid, and every tag is 0, 1 or 2.
    pub proof fn lemma_reachable_invariant(&self)
        requires
            self.wf(),
        ensures
            self@.well_formed(),
            self@.cells.len() == self@.rows * self@.columns,
            self@.changed.len() == self@.rows * self@.columns,
            forall|i: int| 0 <= i < self@.changed.len() ==> #[trigger] self@.changed[i] <= 2,
    {
    }
}

} // verus!
