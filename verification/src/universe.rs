//! The universe: a grid of cells, the generations it remembers, and the
//! changes that the last step made.

use std::collections::VecDeque;
use vstd::prelude::*;
use vstd::arithmetic::div_mod::lemma_mod_bound;
use vstd::slice::slice_to_vec;
use crate::cell::Cell;
use crate::cell::CellDelta;
use crate::cell::ROLL_BOUND;
use crate::grid::all_dead;
use crate::grid::deltas;
use crate::grid::fitted;
use crate::grid::generation_at;
use crate::grid::index_of;
use crate::grid::lemma_index_in_bounds;
use crate::grid::lemma_index_unsplit;
use crate::grid::lemma_wrapped_step;
use crate::grid::live_neighbors;
use crate::grid::names;
use crate::grid::next_generation;
use crate::grid::remembered;
use crate::grid::rendering;
use crate::grid::weight_at;
use crate::grid::with_live;
use crate::grid::wrapped;
use crate::random::gen_range;

verus! {

/// A toroidal grid of cells that moves by the rules of the Game of Life.
pub struct Universe {
    width: u32,
    height: u32,
    cells: Vec<Cell>,
    history: VecDeque<Vec<Cell>>,
    changes: Vec<CellDelta>,
}

/// What a universe holds, as mathematical values.
pub struct UniverseView {
    /// The number of columns.
    pub width: nat,
    /// The number of rows.
    pub height: nat,
    /// The current generation, row by row.
    pub cells: Seq<Cell>,
    /// The remembered generations, the newest first.
    pub history: Seq<Seq<Cell>>,
    /// The change of every cell that the last step computed.
    pub changes: Seq<CellDelta>,
}

impl UniverseView {
    /// The dimensions fit the machine, the grid has one cell for each
    /// position, and at most two generations are remembered.
    pub open spec fn wf(self) -> bool {
        &&& self.width <= u32::MAX
        &&& self.height <= u32::MAX
        &&& self.width * self.height <= u32::MAX
        &&& self.cells.len() == self.width * self.height
        &&& self.history.len() <= 2
    }

    /// The number of live cells around (`row`, `column`).
    pub open spec fn live_neighbors(self, row: int, column: int) -> int {
        live_neighbors(self.cells, self.width as int, self.height as int, row, column)
    }

    /// The generation that the changes of the next step are measured from:
    /// the newest remembered one, read at the grid's size, or a dead grid
    /// where none is remembered.
    pub open spec fn baseline(self) -> Seq<Cell> {
        generation_at(self.history, 0, self.cells.len())
    }

    /// The universe one step on. The new grid follows from the old grid
    /// alone; it becomes the newest remembered generation, with only the
    /// newest of the old ones behind it; and the changes are those from the
    /// baseline to the new grid.
    pub open spec fn ticked(self) -> UniverseView {
        let cells = next_generation(self.cells, self.width as int, self.height as int);
        UniverseView {
            width: self.width,
            height: self.height,
            cells: cells,
            history: remembered(self.history, cells),
            changes: deltas(cells, self.baseline()),
        }
    }

    /// The universe `steps` steps on.
    pub open spec fn after_ticks(self, steps: nat) -> UniverseView
        decreases steps,
    {
        if steps == 0 {
            self
        } else {
            self.ticked().after_ticks((steps - 1) as nat)
        }
    }
}

impl View for Universe {
    type V = UniverseView;

    closed spec fn view(&self) -> UniverseView {
        UniverseView {
            width: self.width as nat,
            height: self.height as nat,
            cells: self.cells@,
            history: generations(self.history),
            changes: self.changes@,
        }
    }
}

/// The generations that a buffer holds, the newest first.
spec fn generations(history: VecDeque<Vec<Cell>>) -> Seq<Seq<Cell>> {
    Seq::new(history@.len(), |i: int| history@[i]@)
}

/// The part of the neighbour count that the step `i` rows and `j` columns
/// into the three-by-three block around a cell adds; the centre adds nothing.
spec fn block_term(universe: UniverseView, row: int, column: int, i: int, j: int) -> int {
    if i == 1 && j == 1 {
        0
    } else {
        weight_at(
            universe.cells,
            universe.width as int,
            universe.height as int,
            row + i - 1,
            column + j - 1,
        )
    }
}

/// The first `upto` terms of row `i` of the block.
spec fn block_row(universe: UniverseView, row: int, column: int, i: int, upto: int) -> int {
    (if upto > 0 {
        block_term(universe, row, column, i, 0)
    } else {
        0
    }) + (if upto > 1 {
        block_term(universe, row, column, i, 1)
    } else {
        0
    }) + (if upto > 2 {
        block_term(universe, row, column, i, 2)
    } else {
        0
    })
}

/// The first `upto` rows of the block.
spec fn block_rows(universe: UniverseView, row: int, column: int, upto: int) -> int {
    (if upto > 0 {
        block_row(universe, row, column, 0, 3)
    } else {
        0
    }) + (if upto > 1 {
        block_row(universe, row, column, 1, 3)
    } else {
        0
    }) + (if upto > 2 {
        block_row(universe, row, column, 2, 3)
    } else {
        0
    })
}

/// Moves `x` by `step` places on a ring of `n` places.
fn wrapping_step(x: u32, step: u32, n: u32) -> (moved: u32)
    requires
        0 < n,
    ensures
        moved == wrapped(x + step, n as int),
        moved < n,
{
    proof {
        lemma_mod_bound(x + step, n as int);
    }
    ((x as u64 + step as u64) % (n as u64)) as u32
}

impl Universe {
    /// The universe holds what its view's `wf` asks for.
    pub open spec fn wf(&self) -> bool {
        self@.wf()
    }

    /// The place of the cell at (`row`, `column`) in the grid.
    fn get_index(&self, row: u32, column: u32) -> (index: usize)
        requires
            self.wf(),
            row < self.height,
            column < self.width,
        ensures
            index == index_of(row as int, column as int, self.width as int),
            index < self.cells.len(),
    {
        proof {
            lemma_index_in_bounds(row as int, column as int, self.width as int, self.height as int);
        }
        (row * self.width + column) as usize
    }

    /// The cell at (`row`, `column`).
    fn get_cell(&self, row: u32, column: u32) -> (cell: Cell)
        requires
            self.wf(),
            row < self.height,
            column < self.width,
        ensures
            cell == self.cells@[index_of(row as int, column as int, self.width as int)],
    {
        self.cells[self.get_index(row, column)]
    }

    /// 1 if the cell at (`row`, `column`) is alive, else 0.
    fn get_cell_byte(&self, row: u32, column: u32) -> (byte: u8)
        requires
            self.wf(),
            row < self.height,
            column < self.width,
        ensures
            byte == self.cells@[index_of(row as int, column as int, self.width as int)].weight(),
    {
        self.get_cell(row, column).byte()
    }

    /// Counts the live cells around (`row`, `column`): the three-by-three
    /// block of steps back, none and on, in rows and in columns, without its
    /// centre.
    fn live_neighbor_count(&self, row: u32, column: u32) -> (count: u8)
        requires
            self.wf(),
            row < self.height,
            column < self.width,
        ensures
            count == self@.live_neighbors(row as int, column as int),
    {
        let row_steps: [u32; 3] = [self.height - 1, 0, 1];
        let column_steps: [u32; 3] = [self.width - 1, 0, 1];
        proof {
            lemma_wrapped_step(row as int, self.height as int);
            lemma_wrapped_step(column as int, self.width as int);
        }
        let mut count: u8 = 0;
        for i in 0..3usize
            invariant
                self.wf(),
                row < self.height,
                column < self.width,
                row_steps@ == seq![(self.height - 1) as u32, 0u32, 1u32],
                column_steps@ == seq![(self.width - 1) as u32, 0u32, 1u32],
                wrapped(row + (self.height - 1), self.height as int) == wrapped(
                    row - 1,
                    self.height as int,
                ),
                wrapped(column + (self.width - 1), self.width as int) == wrapped(
                    column - 1,
                    self.width as int,
                ),
                count == block_rows(self@, row as int, column as int, i as int),
                count <= 3 * i,
        {
            let ghost before = count;
            for j in 0..3usize
                invariant
                    self.wf(),
                    row < self.height,
                    column < self.width,
                    i < 3,
                    row_steps@ == seq![(self.height - 1) as u32, 0u32, 1u32],
                    column_steps@ == seq![(self.width - 1) as u32, 0u32, 1u32],
                    wrapped(row + (self.height - 1), self.height as int) == wrapped(
                        row - 1,
                        self.height as int,
                    ),
                    wrapped(column + (self.width - 1), self.width as int) == wrapped(
                        column - 1,
                        self.width as int,
                    ),
                    count == before + block_row(self@, row as int, column as int, i as int, j as int),
                    before <= 3 * i,
                    count <= before + j,
            {
                if !(i == 1 && j == 1) {
                    let neighbor_row = wrapping_step(row, row_steps[i], self.height);
                    let neighbor_col = wrapping_step(column, column_steps[j], self.width);
                    count += self.get_cell_byte(neighbor_row, neighbor_col);
                }
            }
        }
        count
    }

    /// The cells of `stored`, read at a grid size of `len` cells.
    fn fitted_cells(stored: &Vec<Cell>, len: u32) -> (cells: Vec<Cell>)
        ensures
            cells@ == fitted(stored@, len as nat),
    {
        let mut cells: Vec<Cell> = Vec::new();
        for i in 0..len
            invariant
                cells@ == fitted(stored@, i as nat),
        {
            let cell = if (i as usize) < stored.len() {
                stored[i as usize]
            } else {
                Cell::Dead
            };
            cells.push(cell);
            assert(cells@ =~= fitted(stored@, (i + 1) as nat));
        }
        cells
    }

    /// The generation `index` places behind the newest in `deque`, read at
    /// the grid's size; a dead grid where `deque` is shorter.
    fn safe_state_from_deque(&self, deque: &VecDeque<Vec<Cell>>, index: usize) -> (cells: Vec<Cell>)
        requires
            self.wf(),
        ensures
            cells@ == generation_at(
                generations(*deque),
                index as int,
                (self.width * self.height) as nat,
            ),
    {
        if index < deque.len() {
            Universe::fitted_cells(&deque[index], self.width * self.height)
        } else {
            Universe::dead_cells(self.width, self.height)
        }
    }

    /// The remembered generations.
    fn get_state_deque(&self) -> (deque: &VecDeque<Vec<Cell>>)
        ensures
            *deque == self.history,
    {
        &self.history
    }

    /// The changes from the generation behind the newest remembered one to
    /// the newest, both read at the grid's size.
    fn get_changes(&self) -> (changes: Vec<CellDelta>)
        requires
            self.wf(),
        ensures
            changes@ == deltas(
                generation_at(self@.history, 0, self@.cells.len()),
                generation_at(self@.history, 1, self@.cells.len()),
            ),
    {
        let prev = self.safe_state_from_deque(self.get_state_deque(), 1);
        let current = self.safe_state_from_deque(self.get_state_deque(), 0);
        Universe::calculate_changes(&current, &prev)
    }

    /// Moves the universe on by one generation. Every cell of the new grid
    /// follows from the old grid alone, by the transition rule. The new grid
    /// becomes the newest remembered generation, and only the newest of the
    /// old ones stays behind it. The changes are those from that older
    /// generation, read at the grid's size, to the new grid; where none is
    /// remembered, from a dead grid.
    pub fn tick(&mut self)
        requires
            old(self).wf(),
        ensures
            final(self).wf(),
            final(self)@ == old(self)@.ticked(),
    {
        let ghost target = next_generation(self@.cells, self.width as int, self.height as int);
        let mut next = Universe::dead_cells(self.width, self.height);

        for row in 0..self.height
            invariant
                self.wf(),
                *self == *old(self),
                target == next_generation(self@.cells, self.width as int, self.height as int),
                next@.len() == self.width * self.height,
                forall|i: int| 0 <= i < row * self.width ==> next@[i] == target[i],
        {
            for col in 0..self.width
                invariant
                    self.wf(),
                    *self == *old(self),
                    row < self.height,
                    target == next_generation(self@.cells, self.width as int, self.height as int),
                    next@.len() == self.width * self.height,
                    forall|i: int| 0 <= i < row * self.width + col ==> next@[i] == target[i],
            {
                let idx = self.get_index(row, col);
                let cell = self.cells[idx];
                let live_neighbors = self.live_neighbor_count(row, col);
                let next_cell = cell.next(live_neighbors);
                proof {
                    lemma_index_unsplit(row as int, col as int, self.width as int);
                }
                next[idx] = next_cell;
            }
            assert(row * self.width + self.width == (row + 1) * self.width) by (nonlinear_arith);
        }
        assert(self.height * self.width == self.width * self.height) by (nonlinear_arith);
        assert(next@ =~= target);

        self.history.push_front(slice_to_vec(next.as_slice()));
        self.history.truncate(2);
        self.cells = next;
        assert(self@.history =~= remembered(old(self)@.history, target));

        self.changes = self.get_changes();
        assert(generation_at(self@.history, 0, target.len()) =~= target);
    }

    /// The number of live cells among the eight neighbours of the cell at
    /// (`row`, `column`), on the wrapped grid.
    pub fn count_neighbours(&self, row: u32, column: u32) -> (count: u8)
        requires
            self.wf(),
            row < self@.height,
            column < self@.width,
        ensures
            count == self@.live_neighbors(row as int, column as int),
    {
        self.live_neighbor_count(row, column)
    }

    /// Sets every cell that `cells` names, as (row, column) pairs, alive, and
    /// leaves the others, the remembered generations and the changes as they
    /// are.
    pub fn set_cells(&mut self, cells: &[(u32, u32)])
        requires
            old(self).wf(),
            forall|k: int|
                0 <= k < cells@.len() ==> (#[trigger] cells@[k]).0 < old(self)@.height
                    && cells@[k].1 < old(self)@.width,
        ensures
            final(self).wf(),
            final(self)@ == (UniverseView {
                cells: with_live(old(self)@.cells, cells@, old(self)@.width as int),
                ..old(self)@
            }),
    {
        let ghost before = self@;
        assert(self.cells@ =~= with_live(before.cells, cells@.take(0), before.width as int));
        for k in 0..cells.len()
            invariant
                self.wf(),
                before.wf(),
                forall|k: int|
                    0 <= k < cells@.len() ==> (#[trigger] cells@[k]).0 < before.height
                        && cells@[k].1 < before.width,
                self@ == (UniverseView {
                    cells: with_live(before.cells, cells@.take(k as int), before.width as int),
                    ..before
                }),
        {
            let (row, col) = cells[k];
            let ghost named = cells@.take(k as int);
            let ghost sofar = self.cells@;
            let idx = self.get_index(row, col);
            self.cells[idx] = Cell::Alive;
            proof {
                let more = cells@.take(k + 1);
                let width = before.width as int;
                assert(more[k as int] == cells@[k as int]);
                assert forall|i: int| 0 <= i < before.cells.len() implies names(more, width, i) == (
                names(named, width, i) || i == idx) by {
                    if names(named, width, i) {
                        let j = choose|j: int|
                            0 <= j < named.len() && #[trigger] index_of(
                                named[j].0 as int,
                                named[j].1 as int,
                                width,
                            ) == i;
                        assert(more[j] == named[j]);
                        assert(index_of(more[j].0 as int, more[j].1 as int, width) == i);
                    }
                    if i == idx {
                        assert(index_of(more[k as int].0 as int, more[k as int].1 as int, width) == i);
                    }
                    if names(more, width, i) {
                        let j = choose|j: int|
                            0 <= j < more.len() && #[trigger] index_of(
                                more[j].0 as int,
                                more[j].1 as int,
                                width,
                            ) == i;
                        if j < k {
                            assert(named[j] == more[j]);
                            assert(index_of(named[j].0 as int, named[j].1 as int, width) == i);
                        }
                    }
                }
                assert(self.cells@ =~= with_live(before.cells, more, width));
            }
        }
        assert(cells@.take(cells@.len() as int) =~= cells@);
    }

    /// Flips the cell at (`row`, `column`) and leaves everything else as it
    /// is.
    pub fn toggle_cell(&mut self, row: u32, column: u32)
        requires
            old(self).wf(),
            row < old(self)@.height,
            column < old(self)@.width,
        ensures
            final(self).wf(),
            final(self)@ == (UniverseView {
                cells: old(self)@.cells.update(
                    index_of(row as int, column as int, old(self)@.width as int),
                    old(self)@.cells[index_of(
                        row as int,
                        column as int,
                        old(self)@.width as int,
                    )].flipped(),
                ),
                ..old(self)@
            }),
    {
        let idx = self.get_index(row, column);
        self.cells[idx].toggle();
    }

    /// Gives the universe `width` columns and resets the grid: every cell of
    /// the new grid is dead. The remembered generations and the changes stay
    /// as they are.
    pub fn set_width(&mut self, width: u32)
        requires
            old(self).wf(),
            width * old(self)@.height <= u32::MAX,
        ensures
            final(self).wf(),
            final(self)@ == (UniverseView {
                width: width as nat,
                cells: all_dead((width * old(self)@.height) as nat),
                ..old(self)@
            }),
    {
        self.width = width;
        self.cells = Universe::dead_cells(width, self.height);
    }

    /// Gives the universe `height` rows and resets the grid: every cell of
    /// the new grid is dead. The remembered generations and the changes stay
    /// as they are.
    pub fn set_height(&mut self, height: u32)
        requires
            old(self).wf(),
            old(self)@.width * height <= u32::MAX,
        ensures
            final(self).wf(),
            final(self)@ == (UniverseView {
                height: height as nat,
                cells: all_dead((old(self)@.width * height) as nat),
                ..old(self)@
            }),
    {
        self.height = height;
        self.cells = Universe::dead_cells(self.width, height);
    }

    /// The current generation, row by row. The view is good until the
    /// universe is next changed.
    pub fn get_cells(&self) -> (cells: &[Cell])
        ensures
            cells@ == self@.cells,
    {
        self.cells.as_slice()
    }

    /// The current generation, row by row, without a copy. The view is good
    /// until the universe is next changed.
    pub fn cells(&self) -> (cells: &[Cell])
        ensures
            cells@ == self@.cells,
    {
        self.cells.as_slice()
    }

    /// The change of every cell that the last step computed, without a copy.
    /// The view is good until the universe is next changed.
    pub fn changes(&self) -> (changes: &[CellDelta])
        ensures
            changes@ == self@.changes,
    {
        self.changes.as_slice()
    }

    /// The grid as text: row after row, each as the glyphs of its cells and
    /// a line break.
    pub fn render(&self) -> (text: String)
        requires
            self.wf(),
        ensures
            text@ == rendering(self@.cells, self@.width as int, self@.height as int),
    {
        let ghost target = rendering(self@.cells, self.width as int, self.height as int);
        let ghost line = self.width + 1;
        let mut text = String::new();
        assert(0 * line <= self.height * line) by (nonlinear_arith)
            requires
                0 <= line,
        ;
        for row in 0..self.height
            invariant
                self.wf(),
                line == self.width + 1,
                target == rendering(self@.cells, self.width as int, self.height as int),
                text@.len() == row * line,
                target.len() == self.height * line,
                row * line <= self.height * line,
                forall|i: int| 0 <= i < text@.len() ==> text@[i] == target[i],
        {
            assert(row * line + line == (row + 1) * line) by (nonlinear_arith);
            assert((row + 1) * line <= self.height * line) by (nonlinear_arith)
                requires
                    row < self.height,
                    0 <= line,
            ;
            for col in 0..self.width
                invariant
                    self.wf(),
                    row < self.height,
                    line == self.width + 1,
                    (row + 1) * line <= self.height * line,
                    row * line + line == (row + 1) * line,
                    target == rendering(self@.cells, self.width as int, self.height as int),
                    text@.len() == row * line + col,
                    target.len() == self.height * line,
                    forall|i: int| 0 <= i < text@.len() ==> text@[i] == target[i],
            {
                let cell = self.get_cell(row, col);
                proof {
                    lemma_index_unsplit(row as int, col as int, line);
                }
                text.append(cell.glyph_text());
            }
            proof {
                lemma_index_unsplit(row as int, self.width as int, line);
                reveal_strlit("\n");
                assert("\n"@ =~= seq!['\n']);
            }
            text.append("\n");
        }
        assert(text@ =~= target);
        text
    }

    /// The number of columns.
    pub fn width(&self) -> (width: u32)
        ensures
            width == self@.width,
    {
        self.width
    }

    /// The number of rows.
    pub fn height(&self) -> (height: u32)
        ensures
            height == self@.height,
    {
        self.height
    }

    /// A universe of `width` columns and `height` rows that holds `cells`: the
    /// grid is the newest remembered generation, a dead grid lies behind it,
    /// and the changes are those from the dead grid to `cells`.
    pub fn from_cells(width: u32, height: u32, cells: Vec<Cell>) -> (universe: Universe)
        requires
            width * height <= u32::MAX,
            cells@.len() == width * height,
        ensures
            universe.wf(),
            universe@ == (UniverseView {
                width: width as nat,
                height: height as nat,
                cells: cells@,
                history: seq![cells@, all_dead((width * height) as nat)],
                changes: deltas(cells@, all_dead((width * height) as nat)),
            }),
    {
        let dead_cells = Universe::dead_cells(width, height);
        let current = slice_to_vec(cells.as_slice());
        let changes = Universe::calculate_changes(&current, &dead_cells);
        let mut history: VecDeque<Vec<Cell>> = VecDeque::new();
        history.push_front(dead_cells);
        history.push_front(current);
        let universe = Universe { width, height, cells, history, changes };
        assert(universe@.history =~= seq![cells@, all_dead((width * height) as nat)]);
        universe
    }

    /// A universe of `width` columns and `height` rows in which every cell is
    /// seeded by a roll of its own from `0..ROLL_BOUND`, alive for the rolls
    /// below `ALIVE_ROLLS`. Whatever was rolled, the grid is the newest
    /// remembered generation, a dead grid lies behind it, and the changes are
    /// those from the dead grid to the seeded one.
    pub fn new_sized(width: u32, height: u32) -> (universe: Universe)
        requires
            width * height <= u32::MAX,
        ensures
            universe.wf(),
            universe@.width == width,
            universe@.height == height,
            universe@.history == seq![universe@.cells, all_dead((width * height) as nat)],
            universe@.changes == deltas(universe@.cells, all_dead((width * height) as nat)),
    {
        let mut rng = rand::thread_rng();
        let len: u32 = width * height;
        let mut cells: Vec<Cell> = Vec::new();
        for i in 0..len
            invariant
                cells.len() == i,
        {
            let roll = gen_range(&mut rng, 0, ROLL_BOUND);
            cells.push(Cell::from_roll(roll));
        }
        Universe::from_cells(width, height, cells)
    }

    /// A seeded universe of 64 columns and 64 rows.
    pub fn new() -> (universe: Universe)
        ensures
            universe.wf(),
            universe@.width == 64,
            universe@.height == 64,
            universe@.history == seq![universe@.cells, all_dead(4096)],
            universe@.changes == deltas(universe@.cells, all_dead(4096)),
    {
        let width: u32 = 64;
        let height: u32 = 64;
        Universe::new_sized(width, height)
    }

    /// A grid of `width * height` dead cells.
    pub fn dead_cells(width: u32, height: u32) -> (cells: Vec<Cell>)
        requires
            width * height <= u32::MAX,
        ensures
            cells@ == all_dead((width * height) as nat),
    {
        let len: u32 = width * height;
        let mut cells: Vec<Cell> = Vec::new();
        for i in 0..len
            invariant
                cells@ == all_dead(i as nat),
        {
            cells.push(Cell::Dead);
            assert(cells@ =~= all_dead((i + 1) as nat));
        }
        cells
    }

    /// The change of every cell from `prev` to `current`, two grids of one
    /// length.
    pub fn calculate_changes(current: &Vec<Cell>, prev: &Vec<Cell>) -> (changes: Vec<CellDelta>)
        requires
            current.len() == prev.len(),
        ensures
            changes@ == deltas(current@, prev@),
    {
        let mut changes: Vec<CellDelta> = Vec::new();
        for i in 0..current.len()
            invariant
                current.len() == prev.len(),
                changes@ == deltas(current@.take(i as int), prev@),
        {
            changes.push(CellDelta::of(current[i], prev[i]));
            assert(changes@ =~= deltas(current@.take(i + 1), prev@));
        }
        assert(current@.take(current.len() as int) =~= current@);
        changes
    }
}

} // verus!
