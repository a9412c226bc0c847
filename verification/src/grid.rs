//! The mathematical model of the grid.
//!
//! A grid of `width` columns and `height` rows is a sequence of
//! `width * height` cells in row-major order. It wraps at its edges: the row
//! above row 0 is the last row, the column left of column 0 is the last
//! column, and likewise at the far edges.

use vstd::prelude::*;
use vstd::arithmetic::div_mod::lemma_fundamental_div_mod;
use vstd::arithmetic::div_mod::lemma_fundamental_div_mod_converse;
use vstd::arithmetic::div_mod::lemma_mod_add_multiples_vanish;
use vstd::arithmetic::div_mod::lemma_mod_bound;
use vstd::arithmetic::div_mod::lemma_small_mod;
use crate::cell::Cell;
use crate::cell::CellDelta;

verus! {

/// The place of the cell at (`row`, `column`) in the sequence.
pub open spec fn index_of(row: int, column: int, width: int) -> int {
    row * width + column
}

/// The coordinate that `x` stands for on a ring of `n` places.
pub open spec fn wrapped(x: int, n: int) -> int {
    x % n
}

/// A grid of `len` dead cells.
pub open spec fn all_dead(len: nat) -> Seq<Cell> {
    Seq::new(len, |i: int| Cell::Dead)
}

/// 1 if the cell that (`row`, `column`) wraps to is alive, else 0. Either
/// coordinate may lie one step outside the grid.
pub open spec fn weight_at(cells: Seq<Cell>, width: int, height: int, row: int, column: int) -> int {
    cells[index_of(wrapped(row, height), wrapped(column, width), width)].weight()
}

/// The number of live cells among the eight neighbours of (`row`, `column`):
/// the cells one step away horizontally, vertically and diagonally, found by
/// wrapping. Standing still is no step, so the cell does not count itself
/// that way. On a grid with fewer than three rows or columns several steps
/// lead to one cell, which may be the cell itself; it is counted once for
/// each step that leads to it.
pub open spec fn live_neighbors(
    cells: Seq<Cell>,
    width: int,
    height: int,
    row: int,
    column: int,
) -> int {
    weight_at(cells, width, height, row - 1, column - 1)
        + weight_at(cells, width, height, row - 1, column)
        + weight_at(cells, width, height, row - 1, column + 1)
        + weight_at(cells, width, height, row, column - 1)
        + weight_at(cells, width, height, row, column + 1)
        + weight_at(cells, width, height, row + 1, column - 1)
        + weight_at(cells, width, height, row + 1, column)
        + weight_at(cells, width, height, row + 1, column + 1)
}

/// The generation that follows `cells`: every cell moves by the transition
/// rule, on its own state and its live neighbours in `cells`.
pub open spec fn next_generation(cells: Seq<Cell>, width: int, height: int) -> Seq<Cell> {
    Seq::new(
        cells.len(),
        |i: int| cells[i].successor(live_neighbors(cells, width, height, i / width, i % width)),
    )
}

/// The change of every cell from `previous` to `current`.
pub open spec fn deltas(current: Seq<Cell>, previous: Seq<Cell>) -> Seq<CellDelta> {
    Seq::new(current.len(), |i: int| CellDelta::between(current[i], previous[i]))
}

/// A stored generation read at a grid size of `len` cells: the places that
/// the generation lacks are dead, and those beyond `len` are left out. The
/// empty sequence stands for a generation that is missing altogether.
pub open spec fn fitted(generation: Seq<Cell>, len: nat) -> Seq<Cell> {
    Seq::new(
        len,
        |i: int|
            if i < generation.len() {
                generation[i]
            } else {
                Cell::Dead
            },
    )
}

/// The generation `back` places behind the newest in `history`, read at a
/// grid size of `len` cells; a dead grid where `history` is shorter.
pub open spec fn generation_at(history: Seq<Seq<Cell>>, back: int, len: nat) -> Seq<Cell> {
    if 0 <= back < history.len() {
        fitted(history[back], len)
    } else {
        all_dead(len)
    }
}

/// The remembered generations after `generation` became the newest: it
/// stands first, the newest of `history` behind it, and older ones are gone.
pub open spec fn remembered(history: Seq<Seq<Cell>>, generation: Seq<Cell>) -> Seq<Seq<Cell>> {
    if history.len() == 0 {
        seq![generation]
    } else {
        seq![generation, history[0]]
    }
}

/// The grid as text: row after row, each as the glyphs of its cells from
/// left to right, and a line break after every row, the last included.
pub open spec fn rendering(cells: Seq<Cell>, width: int, height: int) -> Seq<char> {
    Seq::new(
        (height * (width + 1)) as nat,
        |i: int|
            if i % (width + 1) == width {
                '\n'
            } else {
                cells[index_of(i / (width + 1), i % (width + 1), width)].glyph()
            },
    )
}

/// The cells of a grid after those named by `coords`, as (row, column)
/// pairs, were set alive.
pub open spec fn with_live(cells: Seq<Cell>, coords: Seq<(u32, u32)>, width: int) -> Seq<Cell> {
    Seq::new(
        cells.len(),
        |i: int|
            if names(coords, width, i) {
                Cell::Alive
            } else {
                cells[i]
            },
    )
}

/// Whether one of `coords` is the cell at place `i`.
pub open spec fn names(coords: Seq<(u32, u32)>, width: int, i: int) -> bool {
    exists|k: int|
        0 <= k < coords.len() && #[trigger] index_of(
            coords[k].0 as int,
            coords[k].1 as int,
            width,
        ) == i
}

/// A cell inside the grid has its place inside the sequence.
pub proof fn lemma_index_in_bounds(row: int, column: int, width: int, height: int)
    requires
        0 <= row < height,
        0 <= column < width,
    ensures
        0 <= index_of(row, column, width) < width * height,
{
    assert(row * width + column < width * height) by (nonlinear_arith)
        requires
            0 <= row < height,
            0 <= column < width,
    ;
    assert(0 <= row * width) by (nonlinear_arith)
        requires
            0 <= row,
            0 <= width,
    ;
}

/// A place in the sequence is the place of exactly one cell: the one at row
/// `i / width` and column `i % width`.
pub proof fn lemma_index_split(i: int, width: int, height: int)
    requires
        0 <= i < width * height,
        0 < width,
    ensures
        0 <= i / width < height,
        0 <= i % width < width,
        index_of(i / width, i % width, width) == i,
{
    lemma_fundamental_div_mod(i, width);
    lemma_mod_bound(i, width);
    let q = i / width;
    assert(width * q == q * width) by (nonlinear_arith);
    assert(0 <= q < height) by (nonlinear_arith)
        requires
            0 <= i < width * height,
            0 < width,
            i == q * width + i % width,
            0 <= i % width < width,
    ;
}

/// The row and column of a cell are found back from its place.
pub proof fn lemma_index_unsplit(row: int, column: int, width: int)
    requires
        0 <= column < width,
    ensures
        index_of(row, column, width) / width == row,
        index_of(row, column, width) % width == column,
{
    lemma_fundamental_div_mod_converse(index_of(row, column, width), width, row, column);
}

/// Two cells inside the grid share a place only if they are the same cell.
pub proof fn lemma_index_unique(row: int, column: int, other_row: int, other_column: int, width: int)
    requires
        0 <= column < width,
        0 <= other_column < width,
        index_of(row, column, width) == index_of(other_row, other_column, width),
    ensures
        row == other_row,
        column == other_column,
{
    lemma_index_unsplit(row, column, width);
    lemma_index_unsplit(other_row, other_column, width);
}

/// Where one step from a coordinate inside the ring leads: back from 0 to the
/// last place, on from the last place to 0.
pub proof fn lemma_wrapped_step(x: int, n: int)
    requires
        0 <= x < n,
    ensures
        wrapped(x, n) == x,
        wrapped(x - 1, n) == if x == 0 {
            n - 1
        } else {
            x - 1
        },
        wrapped(x + 1, n) == if x == n - 1 {
            0
        } else {
            x + 1
        },
        wrapped(x + (n - 1), n) == wrapped(x - 1, n),
{
    lemma_small_mod(x as nat, n as nat);
    lemma_mod_add_multiples_vanish(x - 1, n);
    if x == 0 {
        lemma_small_mod((n - 1) as nat, n as nat);
    } else {
        lemma_small_mod((x - 1) as nat, n as nat);
    }
    if x == n - 1 {
        lemma_mod_add_multiples_vanish(0, n);
        lemma_small_mod(0, n as nat);
    } else {
        lemma_small_mod((x + 1) as nat, n as nat);
    }
}

} // verus!
