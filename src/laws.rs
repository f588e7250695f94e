use vstd::arithmetic::div_mod::lemma_fundamental_div_mod_converse;
use vstd::prelude::*;

use crate::cell::{change_tag, glider_mask, next_state, weight, Cell, GliderDirection};
use crate::universe::{overwrite, torus, GridState};

verus! {

proof fn lemma_index_in_range(s: GridState, row: int, column: int)
    requires
        s.well_formed(),
        0 <= row < s.rows,
        0 <= column < s.columns,
    ensures
        0 <= s.index(row, column) < s.size(),
        s.index(row, column) / s.columns as int == row,
        s.index(row, column) % s.columns as int == column,
{
    assert(0 <= row * s.columns) by (nonlinear_arith)
        requires
            0 <= row,
    ;
    assert(row * s.columns + s.columns <= s.rows * s.columns) by (nonlinear_arith)
        requires
            row < s.rows,
    ;
    lemma_fundamental_div_mod_converse(s.index(row, column), s.columns as int, row, column);
}

/// One generation reads only the state before it: the cell at (`row`,
/// `column`) afterwards, and its tag, are the rule applied to that cell's
/// earlier state and the earlier count of its live neighbours.
pub proof fn lemma_next_at(s: GridState, row: int, column: int)
    requires
        s.well_formed(),
        0 <= row < s.rows,
        0 <= column < s.columns,
    ensures
        s.next().well_formed(),
        s.next().at(row, column) == next_state(s.at(row, column), s.live_neighbors(row, column)),
        s.next().changed[s.index(row, column)] == change_tag(
            s.at(row, column),
            s.live_neighbors(row, column),
        ),
{
    lemma_index_in_range(s, row, column);
    let t = s.next();
    assert forall|i: int| 0 <= i < t.changed.len() implies #[trigger] t.changed[i] <= 2 by {
        assert(t.changed[i] == s.next_tag(i));
    }
}

/// On a 3x3 grid the neighbours of the corner (0, 0) are all eight other
/// cells: the count wraps over both edges at once.
pub proof fn lemma_corner_wraps_both_ways(s: GridState)
    requires
        s.well_formed(),
        s.rows == 3,
        s.columns == 3,
    ensures
        s.live_neighbors(0, 0) == weight(s.at(2, 2)) + weight(s.at(2, 0)) + weight(s.at(2, 1))
            + weight(s.at(0, 2)) + weight(s.at(0, 1)) + weight(s.at(1, 2)) + weight(s.at(1, 0))
            + weight(s.at(1, 1)),
{
}

/// A live cell with no live neighbour is dead one generation on, tagged 1.
pub proof fn lemma_lonely_cell_dies(s: GridState, row: int, column: int)
    requires
        s.well_formed(),
        0 <= row < s.rows,
        0 <= column < s.columns,
        s.at(row, column) == Cell::Alive,
        s.live_neighbors(row, column) == 0,
    ensures
        s.next().at(row, column) == Cell::Dead,
        s.next().changed[s.index(row, column)] == 1,
{
    lemma_next_at(s, row, column);
}

/// A dead cell with exactly three live neighbours is born, tagged 2; with two
/// or four it stays dead, tagged 0.
pub proof fn lemma_birth(s: GridState, row: int, column: int)
    requires
        s.well_formed(),
        0 <= row < s.rows,
        0 <= column < s.columns,
        s.at(row, column) == Cell::Dead,
    ensures
        s.live_neighbors(row, column) == 3 ==> s.next().at(row, column) == Cell::Alive
            && s.next().changed[s.index(row, column)] == 2,
        s.live_neighbors(row, column) == 2 || s.live_neighbors(row, column) == 4 ==> s.next().at(
            row,
            column,
        ) == Cell::Dead && s.next().changed[s.index(row, column)] == 0,
{
    lemma_next_at(s, row, column);
}

/// (`x`, `y`) is one of the four cells of the 2x2 block whose top left
/// corner is (`row`, `column`), wrapped.
pub open spec fn in_block(s: GridState, row: int, column: int, x: int, y: int) -> bool {
    (x == row || x == torus(row + 1, s.rows as int)) && (y == column || y == torus(
        column + 1,
        s.columns as int,
    ))
}

#[verifier::rlimit(30)]
proof fn lemma_block_cell(s: GridState, row: int, column: int, x: int, y: int)
    requires
        s.well_formed(),
        s.rows >= 4,
        s.columns >= 4,
        0 <= row < s.rows,
        0 <= column < s.columns,
        0 <= x < s.rows,
        0 <= y < s.columns,
        forall|a: int, b: int|
            0 <= a < s.rows && 0 <= b < s.columns ==> (#[trigger] s.at(a, b) == Cell::Alive
                <==> in_block(s, row, column, a, b)),
    ensures
        s.next().at(x, y) == s.at(x, y),
        s.next().changed[s.index(x, y)] == 0,
{
    lemma_next_at(s, x, y);
}

/// A 2x2 block alone on a grid of at least 4x4 is a still life: one
/// generation changes no cell and tags every cell 0.
pub proof fn lemma_block_is_still(s: GridState, row: int, column: int)
    requires
        s.well_formed(),
        s.rows >= 4,
        s.columns >= 4,
        0 <= row < s.rows,
        0 <= column < s.columns,
        forall|a: int, b: int|
            0 <= a < s.rows && 0 <= b < s.columns ==> (#[trigger] s.at(a, b) == Cell::Alive
                <==> in_block(s, row, column, a, b)),
    ensures
        forall|x: int, y: int|
            0 <= x < s.rows && 0 <= y < s.columns ==> #[trigger] s.next().at(x, y) == s.at(x, y)
                && s.next().changed[s.index(x, y)] == 0,
{
    assert forall|x: int, y: int| 0 <= x < s.rows && 0 <= y < s.columns implies #[trigger] s.next().at(
        x,
        y,
    ) == s.at(x, y) && s.next().changed[s.index(x, y)] == 0 by {
        lemma_block_cell(s, row, column, x, y);
    }
}

proof fn lemma_index_injective(s: GridState, a: int, b: int, c: int, d: int)
    requires
        s.well_formed(),
        0 <= a < s.rows,
        0 <= b < s.columns,
        0 <= c < s.rows,
        0 <= d < s.columns,
    ensures
        s.index(a, b) == s.index(c, d) <==> a == c && b == d,
{
    lemma_index_in_range(s, a, b);
    lemma_index_in_range(s, c, d);
}

/// (`x`, `y`) is a live cell of the glider that a north-west stamp centred on
/// (`row`, `column`) writes.
pub open spec fn in_nw_glider(s: GridState, row: int, column: int, x: int, y: int) -> bool {
    let up = torus(row - 1, s.rows as int);
    let down = torus(row + 1, s.rows as int);
    let left = torus(column - 1, s.columns as int);
    let right = torus(column + 1, s.columns as int);
    ||| x == up && (y == left || y == column || y == right)
    ||| x == row && y == left
    ||| x == down && y == column
}

/// (`x`, `y`) is a live cell of that glider one generation on: the same shape
/// in its next phase, moved toward the north-west.
pub open spec fn in_nw_glider_next(s: GridState, row: int, column: int, x: int, y: int) -> bool {
    let up = torus(row - 1, s.rows as int);
    let up2 = torus(row - 2, s.rows as int);
    let left = torus(column - 1, s.columns as int);
    let right = torus(column + 1, s.columns as int);
    ||| x == up2 && y == column
    ||| x == up && (y == left || y == column)
    ||| x == row && (y == left || y == right)
}

/// The grid `s` after a north-west glider stamp centred on (`row`, `column`).
pub open spec fn stamped_nw(s: GridState, row: int, column: int) -> GridState {
    s.with_cells(
        overwrite(s.cells, s.stamp_indexes(row, column), glider_mask(GliderDirection::NW)),
    )
}

proof fn lemma_overwrite_at(cells: Seq<Cell>, at: Seq<int>, vals: Seq<Cell>, j: int)
    requires
        at.len() == vals.len(),
        0 <= j < cells.len(),
        forall|k: int| 0 <= k < at.len() ==> 0 <= #[trigger] at[k] < cells.len(),
    ensures
        overwrite(cells, at, vals).len() == cells.len(),
        (forall|k: int| 0 <= k < at.len() ==> #[trigger] at[k] != j) ==> overwrite(
            cells,
            at,
            vals,
        )[j] == cells[j],
        forall|k: int|
            0 <= k < at.len() && #[trigger] at[k] == j && (forall|m: int|
                0 <= m < at.len() && m != k ==> at[m] != j) ==> overwrite(cells, at, vals)[j]
                == vals[k],
    decreases at.len(),
{
    if at.len() > 0 {
        let (a, v) = (at.drop_last(), vals.drop_last());
        lemma_overwrite_at(cells, a, v, j);
        assert forall|k: int|
            0 <= k < at.len() && #[trigger] at[k] == j && (forall|m: int|
                0 <= m < at.len() && m != k ==> at[m] != j) implies overwrite(cells, at, vals)[j]
            == vals[k] by {
            if k < at.len() - 1 {
                assert(a[k] == j);
                assert(forall|m: int| 0 <= m < a.len() && m != k ==> a[m] != j);
            }
        }
        if forall|k: int| 0 <= k < at.len() ==> #[trigger] at[k] != j {
            assert(forall|k: int| 0 <= k < a.len() ==> #[trigger] a[k] != j);
        }
    }
}

#[verifier::rlimit(30)]
proof fn lemma_stamped_cell(s: GridState, row: int, column: int, x: int, y: int)
    requires
        s.well_formed(),
        s.rows >= 3,
        s.columns >= 3,
        0 <= row < s.rows,
        0 <= column < s.columns,
        0 <= x < s.rows,
        0 <= y < s.columns,
        forall|i: int| 0 <= i < s.size() ==> #[trigger] s.cells[i] == Cell::Dead,
    ensures
        stamped_nw(s, row, column).well_formed(),
        stamped_nw(s, row, column).at(x, y) == Cell::Alive <==> in_nw_glider(s, row, column, x, y),
{
    let rs = seq![
        torus(row - 1, s.rows as int),
        row,
        torus(row + 1, s.rows as int),
    ];
    let cs = seq![
        torus(column - 1, s.columns as int),
        column,
        torus(column + 1, s.columns as int),
    ];
    let at = s.stamp_indexes(row, column);
    let mask = glider_mask(GliderDirection::NW);
    let j = s.index(x, y);
    lemma_index_in_range(s, x, y);
    assert forall|k: int| 0 <= k < 9 implies at[k] == s.index(rs[k / 3], cs[k % 3]) && (at[k] == j
        <==> x == rs[k / 3] && y == cs[k % 3]) && 0 <= #[trigger] at[k] < s.size() by {
        lemma_index_in_range(s, rs[k / 3], cs[k % 3]);
        lemma_index_injective(s, x, y, rs[k / 3], cs[k % 3]);
    }
    lemma_overwrite_at(s.cells, at, mask, j);
}

proof fn lemma_glider_cell(t: GridState, s: GridState, row: int, column: int, x: int, y: int)
    requires
        t.well_formed(),
        t.rows == s.rows,
        t.columns == s.columns,
        s.rows >= 5,
        s.columns >= 5,
        0 <= row < s.rows,
        0 <= column < s.columns,
        0 <= x < s.rows,
        0 <= y < s.columns,
        forall|a: int, b: int|
            0 <= a < s.rows && 0 <= b < s.columns ==> (#[trigger] t.at(a, b) == Cell::Alive
                <==> in_nw_glider(s, row, column, a, b)),
    ensures
        t.next().at(x, y) == Cell::Alive <==> in_nw_glider_next(s, row, column, x, y),
{
    lemma_next_at(t, x, y);
}

/// A north-west glider stamped on an empty grid of at least 5x5 becomes,
/// after one generation, the glider's next phase shifted toward the
/// north-west, and nothing else is alive.
pub proof fn lemma_glider_steps(s: GridState, row: int, column: int)
    requires
        s.well_formed(),
        s.rows >= 5,
        s.columns >= 5,
        0 <= row < s.rows,
        0 <= column < s.columns,
        forall|i: int| 0 <= i < s.size() ==> #[trigger] s.cells[i] == Cell::Dead,
    ensures
        forall|x: int, y: int|
            0 <= x < s.rows && 0 <= y < s.columns ==> (#[trigger] stamped_nw(s, row, column).next().at(
                x,
                y,
            ) == Cell::Alive <==> in_nw_glider_next(s, row, column, x, y)),
{
    let t = stamped_nw(s, row, column);
    lemma_stamped_cell(s, row, column, 0, 0);
    assert forall|a: int, b: int| 0 <= a < s.rows && 0 <= b < s.columns implies (#[trigger] t.at(
        a,
        b,
    ) == Cell::Alive <==> in_nw_glider(s, row, column, a, b)) by {
        lemma_stamped_cell(s, row, column, a, b);
    }
    assert forall|x: int, y: int| 0 <= x < s.rows && 0 <= y < s.columns implies (
    #[trigger] t.next().at(x, y) == Cell::Alive <==> in_nw_glider_next(s, row, column, x, y)) by {
        lemma_glider_cell(t, s, row, column, x, y);
    }
}

} // verus!
