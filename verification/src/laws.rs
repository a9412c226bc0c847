//! Laws of the grid and of the universe, each proved from the model in
//! [`crate::grid`] and the view of [`crate::universe::Universe`].

use vstd::prelude::*;
use vstd::arithmetic::div_mod::lemma_mod_bound;
use crate::cell::Cell;
use crate::cell::CellDelta;
use crate::grid::all_dead;
use crate::grid::deltas;
use crate::grid::index_of;
use crate::grid::lemma_index_in_bounds;
use crate::grid::lemma_index_unique;
use crate::grid::lemma_wrapped_step;
use crate::grid::live_neighbors;
use crate::grid::next_generation;
use crate::grid::weight_at;
use crate::grid::wrapped;
use crate::universe::UniverseView;

verus! {

/// Whether the steps -1, 0 and 1 from a place on a ring of `n` places lead to
/// no place that the step `d` also leads to: they all differ on a ring of
/// three or more places, and on a ring of two only standing still is alone.
pub open spec fn step_stands_alone(n: int, d: int) -> bool {
    n >= 3 || (n == 2 && d == 0)
}

/// Whether the cell at (`row`, `column`) is the only live cell of the grid.
pub open spec fn only_live_cell(cells: Seq<Cell>, width: int, row: int, column: int) -> bool {
    forall|i: int|
        0 <= i < cells.len() ==> (#[trigger] cells[i] == Cell::Alive <==> i == index_of(
            row,
            column,
            width,
        ))
}

/// Any step from a cell of the grid wraps to a cell of the grid, which adds 0
/// or 1 to a count.
pub proof fn lemma_weight_at_range(cells: Seq<Cell>, width: int, height: int, row: int, column: int)
    requires
        0 < width,
        0 < height,
        cells.len() == width * height,
    ensures
        0 <= wrapped(row, height) < height,
        0 <= wrapped(column, width) < width,
        0 <= index_of(wrapped(row, height), wrapped(column, width), width) < cells.len(),
        0 <= weight_at(cells, width, height, row, column) <= 1,
{
    lemma_mod_bound(row, height);
    lemma_mod_bound(column, width);
    lemma_index_in_bounds(wrapped(row, height), wrapped(column, width), width, height);
}

/// The count of live neighbours lies between 0 and 8.
pub proof fn lemma_live_neighbors_range(
    cells: Seq<Cell>,
    width: int,
    height: int,
    row: int,
    column: int,
)
    requires
        0 < width,
        0 < height,
        cells.len() == width * height,
    ensures
        0 <= live_neighbors(cells, width, height, row, column) <= 8,
{
    lemma_weight_at_range(cells, width, height, row - 1, column - 1);
    lemma_weight_at_range(cells, width, height, row - 1, column);
    lemma_weight_at_range(cells, width, height, row - 1, column + 1);
    lemma_weight_at_range(cells, width, height, row, column - 1);
    lemma_weight_at_range(cells, width, height, row, column + 1);
    lemma_weight_at_range(cells, width, height, row + 1, column - 1);
    lemma_weight_at_range(cells, width, height, row + 1, column);
    lemma_weight_at_range(cells, width, height, row + 1, column + 1);
}

/// On a grid without a live cell, every cell has no live neighbour.
pub proof fn lemma_dead_grid_has_no_live_neighbors(
    cells: Seq<Cell>,
    width: int,
    height: int,
    row: int,
    column: int,
)
    requires
        cells.len() == width * height,
        0 <= row < height,
        0 <= column < width,
        forall|i: int| 0 <= i < cells.len() ==> cells[i] == Cell::Dead,
    ensures
        live_neighbors(cells, width, height, row, column) == 0,
{
    lemma_weight_at_range(cells, width, height, row - 1, column - 1);
    lemma_weight_at_range(cells, width, height, row - 1, column);
    lemma_weight_at_range(cells, width, height, row - 1, column + 1);
    lemma_weight_at_range(cells, width, height, row, column - 1);
    lemma_weight_at_range(cells, width, height, row, column + 1);
    lemma_weight_at_range(cells, width, height, row + 1, column - 1);
    lemma_weight_at_range(cells, width, height, row + 1, column);
    lemma_weight_at_range(cells, width, height, row + 1, column + 1);
}

/// Where the only live cell of the grid is at (`live_row`, `live_column`), a
/// step to (`row`, `column`) finds it there and nowhere else.
proof fn lemma_weight_of_only_live_cell(
    cells: Seq<Cell>,
    width: int,
    height: int,
    row: int,
    column: int,
    live_row: int,
    live_column: int,
)
    requires
        0 < width,
        0 < height,
        cells.len() == width * height,
        0 <= live_row < height,
        0 <= live_column < width,
        only_live_cell(cells, width, live_row, live_column),
    ensures
        weight_at(cells, width, height, row, column) == if wrapped(row, height) == live_row
            && wrapped(column, width) == live_column {
            1int
        } else {
            0int
        },
{
    lemma_weight_at_range(cells, width, height, row, column);
    let r = wrapped(row, height);
    let c = wrapped(column, width);
    let i = index_of(r, c, width);
    assert(cells[i] == Cell::Alive <==> i == index_of(live_row, live_column, width));
    if i == index_of(live_row, live_column, width) {
        lemma_index_unique(r, c, live_row, live_column, width);
    }
}

/// Where the only live cell of the grid lies one step from a cell,
/// horizontally, vertically or diagonally and across an edge or not, that
/// cell has exactly one live neighbour. The step (`row_step`, `column_step`)
/// must stand alone in both directions: on a grid of two rows or columns the
/// steps back and on lead to one and the same cell, which is then counted
/// twice, and on a grid of one row or column every step does.
pub proof fn lemma_only_live_neighbor_counts_once(
    cells: Seq<Cell>,
    width: int,
    height: int,
    row: int,
    column: int,
    row_step: int,
    column_step: int,
)
    requires
        cells.len() == width * height,
        0 <= row < height,
        0 <= column < width,
        -1 <= row_step <= 1,
        -1 <= column_step <= 1,
        row_step != 0 || column_step != 0,
        step_stands_alone(height, row_step),
        step_stands_alone(width, column_step),
        only_live_cell(
            cells,
            width,
            wrapped(row + row_step, height),
            wrapped(column + column_step, width),
        ),
    ensures
        live_neighbors(cells, width, height, row, column) == 1,
{
    lemma_wrapped_step(row, height);
    lemma_wrapped_step(column, width);
    let live_row = wrapped(row + row_step, height);
    let live_column = wrapped(column + column_step, width);
    lemma_weight_of_only_live_cell(cells, width, height, row - 1, column - 1, live_row, live_column);
    lemma_weight_of_only_live_cell(cells, width, height, row - 1, column, live_row, live_column);
    lemma_weight_of_only_live_cell(cells, width, height, row - 1, column + 1, live_row, live_column);
    lemma_weight_of_only_live_cell(cells, width, height, row, column - 1, live_row, live_column);
    lemma_weight_of_only_live_cell(cells, width, height, row, column + 1, live_row, live_column);
    lemma_weight_of_only_live_cell(cells, width, height, row + 1, column - 1, live_row, live_column);
    lemma_weight_of_only_live_cell(cells, width, height, row + 1, column, live_row, live_column);
    lemma_weight_of_only_live_cell(cells, width, height, row + 1, column + 1, live_row, live_column);
}

/// A live cell one step from a cell, across an edge or not, is counted among
/// that cell's live neighbours.
pub proof fn lemma_live_neighbor_is_counted(
    cells: Seq<Cell>,
    width: int,
    height: int,
    row: int,
    column: int,
    row_step: int,
    column_step: int,
)
    requires
        cells.len() == width * height,
        0 <= row < height,
        0 <= column < width,
        -1 <= row_step <= 1,
        -1 <= column_step <= 1,
        row_step != 0 || column_step != 0,
        cells[index_of(
            wrapped(row + row_step, height),
            wrapped(column + column_step, width),
            width,
        )] == Cell::Alive,
    ensures
        live_neighbors(cells, width, height, row, column) >= 1,
{
    lemma_weight_at_range(cells, width, height, row - 1, column - 1);
    lemma_weight_at_range(cells, width, height, row - 1, column);
    lemma_weight_at_range(cells, width, height, row - 1, column + 1);
    lemma_weight_at_range(cells, width, height, row, column - 1);
    lemma_weight_at_range(cells, width, height, row, column + 1);
    lemma_weight_at_range(cells, width, height, row + 1, column - 1);
    lemma_weight_at_range(cells, width, height, row + 1, column);
    lemma_weight_at_range(cells, width, height, row + 1, column + 1);
    assert(weight_at(cells, width, height, row + row_step, column + column_step) == 1);
}

/// A live cell in the first row and first column is a neighbour of the cells
/// at the far ends of its row and of its column and of the cell in the
/// opposite corner: the grid wraps at every edge.
pub proof fn lemma_origin_is_counted_across_edges(cells: Seq<Cell>, width: int, height: int)
    requires
        0 < width,
        0 < height,
        cells.len() == width * height,
        cells[0] == Cell::Alive,
    ensures
        live_neighbors(cells, width, height, height - 1, 0) >= 1,
        live_neighbors(cells, width, height, 0, width - 1) >= 1,
        live_neighbors(cells, width, height, height - 1, width - 1) >= 1,
{
    lemma_wrapped_step(height - 1, height);
    lemma_wrapped_step(width - 1, width);
    lemma_wrapped_step(0, height);
    lemma_wrapped_step(0, width);
    assert(index_of(0, 0, width) == 0) by (nonlinear_arith);
    lemma_live_neighbor_is_counted(cells, width, height, height - 1, 0, 1, 0);
    lemma_live_neighbor_is_counted(cells, width, height, 0, width - 1, 0, 1);
    lemma_live_neighbor_is_counted(cells, width, height, height - 1, width - 1, 1, 1);
}

/// The change of a cell is a birth exactly where it was dead and is alive, a
/// death exactly where it was alive and is dead, and none otherwise.
pub proof fn lemma_deltas_classify(current: Seq<Cell>, previous: Seq<Cell>, i: int)
    requires
        0 <= i < current.len(),
    ensures
        deltas(current, previous).len() == current.len(),
        deltas(current, previous)[i] == CellDelta::Birth <==> previous[i] == Cell::Dead
            && current[i] == Cell::Alive,
        deltas(current, previous)[i] == CellDelta::Death <==> previous[i] == Cell::Alive
            && current[i] == Cell::Dead,
        deltas(current, previous)[i] == CellDelta::Unchanged <==> previous[i] == current[i],
{
}

/// After a step, the change of every cell is a birth exactly where the cell
/// was dead in the baseline and is alive, a death exactly where it was alive
/// in the baseline and is dead, and none otherwise.
pub proof fn lemma_tick_changes(universe: UniverseView, i: int)
    requires
        universe.wf(),
        0 <= i < universe.cells.len(),
    ensures
        universe.ticked().changes.len() == universe.cells.len(),
        universe.ticked().changes[i] == CellDelta::Birth <==> universe.baseline()[i] == Cell::Dead
            && universe.ticked().cells[i] == Cell::Alive,
        universe.ticked().changes[i] == CellDelta::Death <==> universe.baseline()[i] == Cell::Alive
            && universe.ticked().cells[i] == Cell::Dead,
        universe.ticked().changes[i] == CellDelta::Unchanged <==> universe.baseline()[i]
            == universe.ticked().cells[i],
{
}

/// Where the baseline is the grid itself, the changes after a step are those
/// from the grid before the step to the grid after it: a birth exactly where
/// the cell was dead before the step and is alive after it, a death exactly
/// where it was alive and is dead, and none otherwise.
pub proof fn lemma_tick_changes_from_grid(universe: UniverseView, i: int)
    requires
        universe.wf(),
        universe.baseline() == universe.cells,
        0 <= i < universe.cells.len(),
    ensures
        universe.ticked().changes == deltas(universe.ticked().cells, universe.cells),
        universe.ticked().changes[i] == CellDelta::Birth <==> universe.cells[i] == Cell::Dead
            && universe.ticked().cells[i] == Cell::Alive,
        universe.ticked().changes[i] == CellDelta::Death <==> universe.cells[i] == Cell::Alive
            && universe.ticked().cells[i] == Cell::Dead,
        universe.ticked().changes[i] == CellDelta::Unchanged <==> universe.cells[i]
            == universe.ticked().cells[i],
{
}

/// The baseline is the grid itself wherever the grid is the newest
/// remembered generation, as it is after a step; and it is a dead grid where
/// nothing is remembered.
pub proof fn lemma_baseline(universe: UniverseView)
    requires
        universe.wf(),
    ensures
        universe.history.len() > 0 && universe.history[0] == universe.cells
            ==> universe.baseline() == universe.cells,
        universe.history.len() == 0 ==> universe.baseline() == all_dead(universe.cells.len()),
        universe.ticked().baseline() == universe.ticked().cells,
{
    if universe.history.len() > 0 && universe.history[0] == universe.cells {
        assert(universe.baseline() =~= universe.cells);
    }
    assert(universe.ticked().baseline() =~= universe.ticked().cells);
}

/// A step keeps the dimensions and the number of cells, and the universe
/// after it is well formed.
pub proof fn lemma_tick_keeps_shape(universe: UniverseView)
    requires
        universe.wf(),
    ensures
        universe.ticked().wf(),
        universe.ticked().width == universe.width,
        universe.ticked().height == universe.height,
        universe.ticked().cells.len() == universe.cells.len(),
        universe.ticked().history[0] == universe.ticked().cells,
{
}

/// Two universes with the same dimensions and the same grid go through the
/// same generations, step after step, whatever either remembers.
pub proof fn lemma_generations_are_determined(a: UniverseView, b: UniverseView, steps: nat)
    requires
        a.width == b.width,
        a.height == b.height,
        a.cells == b.cells,
    ensures
        a.after_ticks(steps).width == b.after_ticks(steps).width,
        a.after_ticks(steps).height == b.after_ticks(steps).height,
        a.after_ticks(steps).cells == b.after_ticks(steps).cells,
    decreases steps,
{
    if steps > 0 {
        lemma_generations_are_determined(a.ticked(), b.ticked(), (steps - 1) as nat);
    }
}

/// The cells of the universe `steps` steps on are those of the grid moved on
/// `steps` times by the transition rule.
pub proof fn lemma_after_ticks_unfolds(universe: UniverseView, steps: nat)
    ensures
        universe.after_ticks(steps + 1).cells == next_generation(
            universe.after_ticks(steps).cells,
            universe.width as int,
            universe.height as int,
        ),
        universe.after_ticks(steps).width == universe.width,
        universe.after_ticks(steps).height == universe.height,
    decreases steps,
{
    if steps > 0 {
        lemma_after_ticks_unfolds(universe.ticked(), (steps - 1) as nat);
        assert(universe.after_ticks(steps + 1) == universe.ticked().after_ticks(steps));
    } else {
        assert(universe.after_ticks(1) == universe.ticked().after_ticks(0));
    }
}

} // verus!
