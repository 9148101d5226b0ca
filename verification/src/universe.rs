//! The simulation engine: grid topology, pheromone field, colony, and the
//! per-tick update that advances them together.

use vstd::prelude::*;

use crate::ant::{ant_view, Ant};
use crate::cell::{toggled, Cell, GridError};
use crate::field::{copy_buf, deposit_into, evaporate_vec};
use crate::model::{deposit_route, deposits_upto, evaporate_all, flat, lemma_deposit_route_props,
    lemma_dims_bound, lemma_flat_bounds, lemma_flat_injective, ph_int, route_amount, step_outcome,
    successes_upto};
use crate::rng::{ant_rand, ant_rand_exec, wrap_add64, wrap_add64_exec};
use crate::step::{opt_route_view, step_ant};
use crate::DEPOSIT_Q;
use crate::EVAPORATION_DEN;
use crate::EVAPORATION_NUM;
use crate::MAX_ANTS;
use crate::MAX_DIM;
use crate::PHEROMONE_CAP;

verus! {

/// The whole simulation state: a grid of cells, a same-shaped pheromone
/// field, a fixed colony of ants, and the seedable source of randomness.
pub struct Universe {
    /// Number of columns; fixed after construction.
    pub width: u32,
    /// Number of rows; fixed after construction.
    pub height: u32,
    /// Row of the unique Start cell.
    pub start_row: u32,
    /// Column of the unique Start cell.
    pub start_column: u32,
    /// Row of the unique End cell.
    pub end_row: u32,
    /// Column of the unique End cell.
    pub end_column: u32,
    /// Row-major cell array of length `width * height`.
    pub cells: Vec<Cell>,
    /// Row-major pheromone intensities, same shape as `cells`.
    pub pheromones: Vec<u64>,
    /// The colony; its size never changes after construction.
    pub ants: Vec<Ant>,
    /// Seed of the deterministic random source.
    pub seed: u64,
    /// Number of ticks performed so far.
    pub tick_count: u64,
    /// Total number of successfully completed routes over all ticks.
    pub completed: u64,
}

/// The initial cell at flattened index `i` of a fresh `n`-cell grid: Start
/// first, End last, and a fixed deterministic wall pattern in between.
pub open spec fn init_cell(i: int, n: int) -> Cell {
    if i == 0 {
        Cell::Start
    } else if i == n - 1 {
        Cell::End
    } else if i % 2 == 0 || i % 7 == 0 {
        Cell::Ground
    } else {
        Cell::Wall
    }
}

impl Universe {
    /// Flattened index of the Start cell.
    pub open spec fn start_idx(self) -> int {
        flat(self.start_row as int, self.start_column as int, self.width)
    }

    /// Flattened index of the End cell.
    pub open spec fn end_idx(self) -> int {
        flat(self.end_row as int, self.end_column as int, self.width)
    }

    /// Well-formed topology: positive extents within `MAX_DIM`, both buffers
    /// of the right length, and exactly one Start and one End cell, distinct,
    /// where the recorded coordinates say.
    pub open spec fn grid_wf(self) -> bool {
        &&& 0 < self.width <= MAX_DIM
        &&& 0 < self.height <= MAX_DIM
        &&& self.cells@.len() == self.width * self.height
        &&& self.pheromones@.len() == self.width * self.height
        &&& self.start_row < self.height && self.start_column < self.width
        &&& self.end_row < self.height && self.end_column < self.width
        &&& !(self.start_row == self.end_row && self.start_column == self.end_column)
        &&& self.cells@[self.start_idx()] == Cell::Start
        &&& self.cells@[self.end_idx()] == Cell::End
        &&& forall|i: int|
            0 <= i < self.cells@.len() && i != self.start_idx() ==> #[trigger] self.cells@[i]
                != Cell::Start
        &&& forall|i: int|
            0 <= i < self.cells@.len() && i != self.end_idx() ==> #[trigger] self.cells@[i]
                != Cell::End
    }

    /// Every pheromone intensity stays under the cap the tick arithmetic needs.
    pub open spec fn ph_wf(self) -> bool {
        forall|i: int|
            0 <= i < self.pheromones@.len() ==> #[trigger] self.pheromones@[i] <= PHEROMONE_CAP
    }

    /// A colony no larger than `MAX_ANTS` whose ants all fit the grid.
    pub open spec fn ants_wf(self) -> bool {
        &&& self.ants@.len() <= MAX_ANTS
        &&& forall|i: int|
            0 <= i < self.ants@.len() ==> (#[trigger] self.ants@[i]).wf(self.width, self.height)
    }

    /// The engine invariant: constructors establish it, every operation
    /// preserves it.
    pub open spec fn wf(self) -> bool {
        &&& self.grid_wf()
        &&& self.ph_wf()
        &&& self.ants_wf()
    }

    /// What one tick leaves of the colony: every ant's new state is a
    /// function of the grid, the pre-tick pheromone snapshot, the ant's own
    /// pre-tick state and its own draw alone — never of another ant.
    pub open spec fn tick_ants_rel(pre: Universe, post: Universe) -> bool {
        &&& post.ants@.len() == pre.ants@.len()
        &&& forall|i: int|
            0 <= i < pre.ants@.len() ==> ant_view(#[trigger] post.ants@[i]) == step_outcome(
                pre.cells@,
                ph_int(pre.pheromones@),
                pre.width,
                pre.height,
                pre.start_row,
                pre.start_column,
                pre.end_row,
                pre.end_column,
                pre.ants@[i].alive,
                pre.ants@[i].row,
                pre.ants@[i].column,
                pre.ants@[i].route@,
                ant_rand(pre.seed, pre.tick_count, i as u64),
            ).0
    }

    /// The whole effect of one tick: topology unchanged, every ant stepped
    /// against the same snapshot, the field rebuilt by the tick's deposits
    /// followed by evaporation, and the counters advanced.
    pub open spec fn tick_rel(pre: Universe, post: Universe) -> bool {
        &&& Universe::tick_ants_rel(pre, post)
        &&& post.width == pre.width && post.height == pre.height
        &&& post.cells@ == pre.cells@
        &&& post.start_row == pre.start_row && post.start_column == pre.start_column
        &&& post.end_row == pre.end_row && post.end_column == pre.end_column
        &&& post.seed == pre.seed
        &&& post.tick_count == wrap_add64(pre.tick_count, 1)
        &&& ph_int(post.pheromones@) == evaporate_all(
            deposits_upto(
                pre.cells@,
                ph_int(pre.pheromones@),
                pre.width,
                pre.height,
                pre.start_row,
                pre.start_column,
                pre.end_row,
                pre.end_column,
                pre.ants@,
                pre.seed,
                pre.tick_count,
                pre.ants@.len() as int,
            ),
            EVAPORATION_NUM as int,
            EVAPORATION_DEN as int,
        )
        &&& post.completed == wrap_add64(
            pre.completed,
            successes_upto(
                pre.cells@,
                ph_int(pre.pheromones@),
                pre.width,
                pre.height,
                pre.start_row,
                pre.start_column,
                pre.end_row,
                pre.end_column,
                pre.ants@,
                pre.seed,
                pre.tick_count,
                pre.ants@.len() as int,
            ) as u64,
        )
    }

    /// Builds a fresh universe: Start in the first cell, End in the last,
    /// a fixed deterministic wall pattern in between, a zeroed pheromone
    /// field, and `ants_count` ants alive at Start with empty routes.
    #[verifier::loop_isolation(false)]
    pub fn new(width: u32, height: u32, ants_count: u32, seed: u64) -> (u: Universe)
        requires
            0 < width <= MAX_DIM,
            0 < height <= MAX_DIM,
            2 <= width * height,
            0 < ants_count <= MAX_ANTS,
        ensures
            u.wf(),
            u.width == width,
            u.height == height,
            u.seed == seed,
            u.tick_count == 0,
            u.completed == 0,
            u.start_row == 0 && u.start_column == 0,
            u.end_row == height - 1 && u.end_column == width - 1,
            forall|i: int|
                0 <= i < u.cells@.len() ==> #[trigger] u.cells@[i] == init_cell(
                    i,
                    (width * height) as int,
                ),
            forall|i: int| 0 <= i < u.pheromones@.len() ==> #[trigger] u.pheromones@[i] == 0,
            u.ants@.len() == ants_count,
            forall|i: int|
                0 <= i < u.ants@.len() ==> ant_view(#[trigger] u.ants@[i]) == (
                    true,
                    (0u32, 0u32),
                    Seq::<(u32, u32)>::empty(),
                ),
    {
        proof {
            lemma_dims_bound(width, height);
        }
        let n: usize = (width as usize) * (height as usize);
        let mut cells: Vec<Cell> = Vec::new();
        let mut i: usize = 0;
        while i < n
            invariant
                0 <= i <= n,
                cells@.len() == i,
                forall|j: int| 0 <= j < i ==> #[trigger] cells@[j] == init_cell(j, n as int),
            decreases n - i,
        {
            let cell = if i == 0 {
                Cell::Start
            } else if i == n - 1 {
                Cell::End
            } else if i % 2 == 0 || i % 7 == 0 {
                Cell::Ground
            } else {
                Cell::Wall
            };
            cells.push(cell);
            i = i + 1;
        }
        let mut pheromones: Vec<u64> = Vec::new();
        let mut k: usize = 0;
        while k < n
            invariant
                0 <= k <= n,
                pheromones@.len() == k,
                forall|j: int| 0 <= j < k ==> #[trigger] pheromones@[j] == 0,
            decreases n - k,
        {
            pheromones.push(0);
            k = k + 1;
        }
        let mut ants: Vec<Ant> = Vec::new();
        let mut a: usize = 0;
        while a < ants_count as usize
            invariant
                0 <= a <= ants_count,
                ants@.len() == a,
                forall|j: int|
                    0 <= j < a ==> ant_view(#[trigger] ants@[j]) == (
                        true,
                        (0u32, 0u32),
                        Seq::<(u32, u32)>::empty(),
                    ),
                forall|j: int| 0 <= j < a ==> (#[trigger] ants@[j]).wf(width, height),
            decreases ants_count - a,
        {
            ants.push(Ant { alive: true, row: 0, column: 0, route: Vec::new() });
            a = a + 1;
        }
        let u = Universe {
            width,
            height,
            start_row: 0,
            start_column: 0,
            end_row: height - 1,
            end_column: width - 1,
            cells,
            pheromones,
            ants,
            seed,
            tick_count: 0,
            completed: 0,
        };
        proof {
            assert((height - 1) * width + (width - 1) == width * height - 1) by (nonlinear_arith);
            assert(width >= 2 || height >= 2) by (nonlinear_arith)
                requires
                    width >= 1,
                    height >= 1,
                    width * height >= 2,
            ;
            assert(u.cells@[u.start_idx()] == Cell::Start);
            assert(u.cells@[u.end_idx()] == Cell::End);
        }
        u
    }

    /// Flattened index of an in-bounds position.
    fn get_index(&self, row: u32, column: u32) -> (idx: usize)
        requires
            0 < self.width <= MAX_DIM,
            0 < self.height <= MAX_DIM,
            self.cells@.len() == self.width * self.height,
            row < self.height,
            column < self.width,
        ensures
            idx as int == flat(row as int, column as int, self.width),
            idx < self.cells@.len(),
    {
        proof {
            lemma_dims_bound(self.width, self.height);
            lemma_flat_bounds(row as int, column as int, self.width, self.height);
        }
        (row * self.width + column) as usize
    }

    /// Reverts every cell of the given special kind to Ground.
    fn remove_special(&mut self, special: Cell)
        ensures
            final(self).cells@.len() == old(self).cells@.len(),
            forall|i: int|
                0 <= i < old(self).cells@.len() ==> #[trigger] final(self).cells@[i] == (
                if old(self).cells@[i] == special {
                    Cell::Ground
                } else {
                    old(self).cells@[i]
                }),
            final(self).width == old(self).width,
            final(self).height == old(self).height,
            final(self).start_row == old(self).start_row,
            final(self).start_column == old(self).start_column,
            final(self).end_row == old(self).end_row,
            final(self).end_column == old(self).end_column,
            final(self).pheromones@ == old(self).pheromones@,
            final(self).ants@ == old(self).ants@,
            final(self).seed == old(self).seed,
            final(self).tick_count == old(self).tick_count,
            final(self).completed == old(self).completed,
    {
        let mut i: usize = 0;
        while i < self.cells.len()
            invariant
                0 <= i <= self.cells@.len(),
                self.cells@.len() == old(self).cells@.len(),
                forall|j: int|
                    0 <= j < i ==> #[trigger] self.cells@[j] == (
                    if old(self).cells@[j] == special {
                        Cell::Ground
                    } else {
                        old(self).cells@[j]
                    }),
                forall|j: int|
                    i <= j < self.cells@.len() ==> #[trigger] self.cells@[j] == old(
                        self,
                    ).cells@[j],
                self.width == old(self).width,
                self.height == old(self).height,
                self.start_row == old(self).start_row,
                self.start_column == old(self).start_column,
                self.end_row == old(self).end_row,
                self.end_column == old(self).end_column,
                self.pheromones@ == old(self).pheromones@,
                self.ants@ == old(self).ants@,
                self.seed == old(self).seed,
                self.tick_count == old(self).tick_count,
                self.completed == old(self).completed,
            decreases self.cells@.len() - i,
        {
            let c = self.cells[i];
            if c == special {
                self.cells.set(i, Cell::Ground);
            }
            i = i + 1;
        }
    }

    /// Flips Ground to Wall and back at the addressed cell; a no-op on the
    /// Start and End cells. Out-of-range coordinates are rejected.
    pub fn toggle_wall(&mut self, row: u32, column: u32) -> (r: Result<(), GridError>)
        requires
            old(self).wf(),
        ensures
            final(self).wf(),
            r is Ok <==> row < old(self).height && column < old(self).width,
            r is Err ==> r == Err::<(), GridError>(GridError::IndexOutOfBounds) && *final(self)
                == *old(self),
            r is Ok ==> final(self).cells@ == old(self).cells@.update(
                flat(row as int, column as int, old(self).width),
                toggled(old(self).cells@[flat(row as int, column as int, old(self).width)]),
            ),
            final(self).width == old(self).width,
            final(self).height == old(self).height,
            final(self).start_row == old(self).start_row,
            final(self).start_column == old(self).start_column,
            final(self).end_row == old(self).end_row,
            final(self).end_column == old(self).end_column,
            final(self).pheromones@ == old(self).pheromones@,
            final(self).ants@ == old(self).ants@,
            final(self).seed == old(self).seed,
            final(self).tick_count == old(self).tick_count,
            final(self).completed == old(self).completed,
    {
        if row >= self.height || column >= self.width {
            return Err(GridError::IndexOutOfBounds);
        }
        let idx = self.get_index(row, column);
        let mut c = self.cells[idx];
        c.toggle();
        self.cells.set(idx, c);
        proof {
            let pre = *old(self);
            lemma_flat_bounds(pre.start_row as int, pre.start_column as int, pre.width, pre.height);
            lemma_flat_bounds(pre.end_row as int, pre.end_column as int, pre.width, pre.height);
            assert forall|i: int|
                0 <= i < self.cells@.len() && i != self.start_idx()
                implies #[trigger] self.cells@[i] != Cell::Start by {
                if i != idx as int {
                    assert(self.cells@[i] == pre.cells@[i]);
                }
            }
            assert forall|i: int|
                0 <= i < self.cells@.len() && i != self.end_idx()
                implies #[trigger] self.cells@[i] != Cell::End by {
                if i != idx as int {
                    assert(self.cells@[i] == pre.cells@[i]);
                }
            }
        }
        Ok(())
    }

    /// Moves the Start marker: the previous Start cell reverts to Ground and
    /// the addressed cell becomes Start, even if it was a Wall. Out-of-range
    /// coordinates are rejected; addressing the End cell is a no-op, so that
    /// exactly one Start and one End always exist.
    pub fn set_start(&mut self, row: u32, column: u32) -> (r: Result<(), GridError>)
        requires
            old(self).wf(),
        ensures
            final(self).wf(),
            r is Ok <==> row < old(self).height && column < old(self).width,
            r is Err ==> r == Err::<(), GridError>(GridError::IndexOutOfBounds) && *final(self)
                == *old(self),
            r is Ok && row == old(self).end_row && column == old(self).end_column ==> *final(self)
                == *old(self),
            r is Ok && !(row == old(self).end_row && column == old(self).end_column) ==> {
                &&& final(self).cells@ == old(self).cells@.update(
                    old(self).start_idx(),
                    Cell::Ground,
                ).update(flat(row as int, column as int, old(self).width), Cell::Start)
                &&& final(self).start_row == row && final(self).start_column == column
            },
            final(self).width == old(self).width,
            final(self).height == old(self).height,
            final(self).end_row == old(self).end_row,
            final(self).end_column == old(self).end_column,
            final(self).pheromones@ == old(self).pheromones@,
            final(self).ants@ == old(self).ants@,
            final(self).seed == old(self).seed,
            final(self).tick_count == old(self).tick_count,
            final(self).completed == old(self).completed,
    {
        if row >= self.height || column >= self.width {
            return Err(GridError::IndexOutOfBounds);
        }
        if row == self.end_row && column == self.end_column {
            return Ok(());
        }
        let ghost pre = *old(self);
        self.remove_special(Cell::Start);
        let ghost mid = self.cells@;
        let idx = self.get_index(row, column);
        let mut c = self.cells[idx];
        c.start();
        self.cells.set(idx, c);
        self.start_row = row;
        self.start_column = column;
        proof {
            lemma_flat_bounds(pre.start_row as int, pre.start_column as int, pre.width, pre.height);
            lemma_flat_bounds(pre.end_row as int, pre.end_column as int, pre.width, pre.height);
            if idx as int == pre.end_idx() {
                lemma_flat_injective(
                    row as int,
                    column as int,
                    pre.end_row as int,
                    pre.end_column as int,
                    pre.width,
                );
            }
            let target = pre.cells@.update(pre.start_idx(), Cell::Ground).update(
                idx as int,
                Cell::Start,
            );
            assert forall|i: int| 0 <= i < self.cells@.len() implies self.cells@[i] == target[i] by {
                if i != idx as int {
                    assert(self.cells@[i] == mid[i]);
                    assert(mid[i] == (if pre.cells@[i] == Cell::Start {
                        Cell::Ground
                    } else {
                        pre.cells@[i]
                    }));
                    if i != pre.start_idx() {
                        assert(pre.cells@[i] != Cell::Start);
                    }
                }
            }
            assert(self.cells@ =~= target);
            assert forall|i: int|
                0 <= i < self.cells@.len() && i != self.start_idx()
                implies #[trigger] self.cells@[i] != Cell::Start by {
                if i != pre.start_idx() {
                    assert(pre.cells@[i] != Cell::Start);
                }
            }
            assert(self.cells@[self.end_idx()] == Cell::End);
        }
        Ok(())
    }

    /// Moves the End marker, symmetric to `set_start`: addressing the Start
    /// cell is a no-op.
    pub fn set_end(&mut self, row: u32, column: u32) -> (r: Result<(), GridError>)
        requires
            old(self).wf(),
        ensures
            final(self).wf(),
            r is Ok <==> row < old(self).height && column < old(self).width,
            r is Err ==> r == Err::<(), GridError>(GridError::IndexOutOfBounds) && *final(self)
                == *old(self),
            r is Ok && row == old(self).start_row && column == old(self).start_column
                ==> *final(self) == *old(self),
            r is Ok && !(row == old(self).start_row && column == old(self).start_column) ==> {
                &&& final(self).cells@ == old(self).cells@.update(
                    old(self).end_idx(),
                    Cell::Ground,
                ).update(flat(row as int, column as int, old(self).width), Cell::End)
                &&& final(self).end_row == row && final(self).end_column == column
            },
            final(self).width == old(self).width,
            final(self).height == old(self).height,
            final(self).start_row == old(self).start_row,
            final(self).start_column == old(self).start_column,
            final(self).pheromones@ == old(self).pheromones@,
            final(self).ants@ == old(self).ants@,
            final(self).seed == old(self).seed,
            final(self).tick_count == old(self).tick_count,
            final(self).completed == old(self).completed,
    {
        if row >= self.height || column >= self.width {
            return Err(GridError::IndexOutOfBounds);
        }
        if row == self.start_row && column == self.start_column {
            return Ok(());
        }
        let ghost pre = *old(self);
        self.remove_special(Cell::End);
        let ghost mid = self.cells@;
        let idx = self.get_index(row, column);
        let mut c = self.cells[idx];
        c.end();
        self.cells.set(idx, c);
        self.end_row = row;
        self.end_column = column;
        proof {
            lemma_flat_bounds(pre.start_row as int, pre.start_column as int, pre.width, pre.height);
            lemma_flat_bounds(pre.end_row as int, pre.end_column as int, pre.width, pre.height);
            if idx as int == pre.start_idx() {
                lemma_flat_injective(
                    row as int,
                    column as int,
                    pre.start_row as int,
                    pre.start_column as int,
                    pre.width,
                );
            }
            let target = pre.cells@.update(pre.end_idx(), Cell::Ground).update(
                idx as int,
                Cell::End,
            );
            assert forall|i: int| 0 <= i < self.cells@.len() implies self.cells@[i] == target[i] by {
                if i != idx as int {
                    assert(self.cells@[i] == mid[i]);
                    assert(mid[i] == (if pre.cells@[i] == Cell::End {
                        Cell::Ground
                    } else {
                        pre.cells@[i]
                    }));
                    if i != pre.end_idx() {
                        assert(pre.cells@[i] != Cell::End);
                    }
                }
            }
            assert(self.cells@ =~= target);
            assert forall|i: int|
                0 <= i < self.cells@.len() && i != self.end_idx()
                implies #[trigger] self.cells@[i] != Cell::End by {
                if i != pre.end_idx() {
                    assert(pre.cells@[i] != Cell::End);
                }
            }
            assert(self.cells@[self.start_idx()] == Cell::Start);
        }
        Ok(())
    }

    /// Number of columns.
    pub fn width(&self) -> (w: u32)
        ensures
            w == self.width,
    {
        self.width
    }

    /// Number of rows.
    pub fn height(&self) -> (h: u32)
        ensures
            h == self.height,
    {
        self.height
    }

    /// Read-only bulk access to the row-major cell array.
    pub fn cells(&self) -> (c: &Vec<Cell>)
        ensures
            c@ == self.cells@,
    {
        &self.cells
    }

    /// Read-only bulk access to the row-major pheromone array.
    pub fn pheromones(&self) -> (p: &Vec<u64>)
        ensures
            p@ == self.pheromones@,
    {
        &self.pheromones
    }

    /// Read-only access to the colony.
    pub fn ants(&self) -> (a: &Vec<Ant>)
        ensures
            a@ == self.ants@,
    {
        &self.ants
    }

    /// Total number of routes completed since construction.
    pub fn completed_routes(&self) -> (n: u64)
        ensures
            n == self.completed,
    {
        self.completed
    }

    /// Coordinates of the Start cell, as `(row, column)`.
    pub fn start(&self) -> (p: (u32, u32))
        ensures
            p == (self.start_row, self.start_column),
    {
        (self.start_row, self.start_column)
    }

    /// Coordinates of the End cell, as `(row, column)`.
    pub fn end(&self) -> (p: (u32, u32))
        ensures
            p == (self.end_row, self.end_column),
    {
        (self.end_row, self.end_column)
    }

    /// The pheromone intensity at a cell; never negative. Out-of-range
    /// coordinates are rejected.
    pub fn intensity_at(&self, row: u32, column: u32) -> (r: Result<u64, GridError>)
        requires
            self.wf(),
        ensures
            row < self.height && column < self.width ==> r == Ok::<u64, GridError>(
                self.pheromones@[flat(row as int, column as int, self.width)],
            ),
            !(row < self.height && column < self.width) ==> r == Err::<u64, GridError>(
                GridError::IndexOutOfBounds,
            ),
    {
        if row >= self.height || column >= self.width {
            return Err(GridError::IndexOutOfBounds);
        }
        let idx = self.get_index(row, column);
        Ok(self.pheromones[idx])
    }

    /// Adds `amount` to every cell of `path`, which must be in bounds and
    /// duplicate-free (a route never revisits a cell), without lifting any
    /// intensity over the cap.
    pub fn deposit(&mut self, path: &Vec<(u32, u32)>, amount: u64)
        requires
            old(self).wf(),
            forall|k: int|
                0 <= k < path@.len() ==> #[trigger] path@[k].0 < old(self).height && path@[k].1
                    < old(self).width,
            forall|k: int, l: int| 0 <= k < l < path@.len() ==> path@[k] != path@[l],
            forall|k: int|
                0 <= k < path@.len() ==> #[trigger] ph_int(old(self).pheromones@)[flat(
                    path@[k].0 as int,
                    path@[k].1 as int,
                    old(self).width,
                )] + amount <= PHEROMONE_CAP,
        ensures
            final(self).wf(),
            ph_int(final(self).pheromones@) == deposit_route(
                ph_int(old(self).pheromones@),
                old(self).width,
                path@,
                amount as int,
            ),
            final(self).cells@ == old(self).cells@,
            final(self).ants@ == old(self).ants@,
            final(self).width == old(self).width,
            final(self).height == old(self).height,
            final(self).start_row == old(self).start_row,
            final(self).start_column == old(self).start_column,
            final(self).end_row == old(self).end_row,
            final(self).end_column == old(self).end_column,
            final(self).seed == old(self).seed,
            final(self).tick_count == old(self).tick_count,
            final(self).completed == old(self).completed,
    {
        let w = self.width;
        let h = self.height;
        proof {
            lemma_deposit_route_props(
                ph_int(self.pheromones@),
                w,
                h,
                path@,
                amount as int,
            );
        }
        deposit_into(&mut self.pheromones, w, h, path, amount);
        proof {
            let pre = ph_int(old(self).pheromones@);
            let post = ph_int(self.pheromones@);
            assert forall|m: int|
                0 <= m < self.pheromones@.len() implies #[trigger] self.pheromones@[m]
                <= PHEROMONE_CAP by {
                if exists|k: int|
                    0 <= k < path@.len() && flat(
                        #[trigger] path@[k].0 as int,
                        path@[k].1 as int,
                        w,
                    ) == m {
                    let k = choose|k: int|
                        0 <= k < path@.len() && flat(
                            #[trigger] path@[k].0 as int,
                            path@[k].1 as int,
                            w,
                        ) == m;
                    assert(ph_int(old(self).pheromones@)[flat(
                        path@[k].0 as int,
                        path@[k].1 as int,
                        old(self).width,
                    )] + amount <= PHEROMONE_CAP);
                    assert(post[m] == pre[m] + amount);
                } else {
                    assert forall|k: int| 0 <= k < path@.len() implies flat(
                        #[trigger] path@[k].0 as int,
                        path@[k].1 as int,
                        w,
                    ) != m by {}
                    assert(post[m] == pre[m]);
                }
                assert(post[m] <= PHEROMONE_CAP as int);
                assert(self.pheromones@[m] as int == post[m]);
            }
        }
    }

    /// One discrete simulation step, committed as a whole.
    ///
    /// Every ant is advanced independently against the same pheromone
    /// snapshot, in colony index order; each completed route then deposits
    /// `DEPOSIT_Q / len` on each of its cells, and the whole field evaporates
    /// by `EVAPORATION_NUM / EVAPORATION_DEN`. The new colony and the new
    /// field replace the old ones together. The invariant guarantees one
    /// Start and one End cell, so no configuration check can fail here.
    ///
    /// Afterwards every ant stands inside the grid on a cell that is not a
    /// wall.
    #[verifier::loop_isolation(false)]
    pub fn tick(&mut self)
        requires
            old(self).wf(),
        ensures
            final(self).wf(),
            Universe::tick_rel(*old(self), *final(self)),
            forall|i: int|
                0 <= i < final(self).ants@.len() ==> {
                    let a = #[trigger] final(self).ants@[i];
                    &&& a.row < final(self).height
                    &&& a.column < final(self).width
                    &&& final(self).cells@[flat(a.row as int, a.column as int, final(self).width)]
                        != Cell::Wall
                },
    {
        let ghost pre = *old(self);
        proof {
            lemma_dims_bound(self.width, self.height);
            lemma_flat_bounds(
                self.start_row as int,
                self.start_column as int,
                self.width,
                self.height,
            );
        }
        let snapshot = copy_buf(&self.pheromones);
        let mut next_ph = copy_buf(&self.pheromones);
        let mut new_ants: Vec<Ant> = Vec::new();
        let mut succ: u64 = 0;
        let n = self.ants.len();
        let mut i: usize = 0;
        while i < n
            invariant
                0 <= i <= n,
                n == pre.ants@.len(),
                new_ants@.len() == i,
                forall|m: int|
                    0 <= m < i ==> ant_view(#[trigger] new_ants@[m]) == step_outcome(
                        pre.cells@,
                        ph_int(pre.pheromones@),
                        pre.width,
                        pre.height,
                        pre.start_row,
                        pre.start_column,
                        pre.end_row,
                        pre.end_column,
                        pre.ants@[m].alive,
                        pre.ants@[m].row,
                        pre.ants@[m].column,
                        pre.ants@[m].route@,
                        ant_rand(pre.seed, pre.tick_count, m as u64),
                    ).0,
                forall|m: int| 0 <= m < i ==> (#[trigger] new_ants@[m]).wf(pre.width, pre.height),
                forall|m: int|
                    0 <= m < i ==> ((#[trigger] new_ants@[m]).row == pre.start_row
                        && new_ants@[m].column == pre.start_column) || pre.cells@[flat(
                        new_ants@[m].row as int,
                        new_ants@[m].column as int,
                        pre.width,
                    )] != Cell::Wall,
                next_ph@.len() == pre.pheromones@.len(),
                ph_int(next_ph@) == deposits_upto(
                    pre.cells@,
                    ph_int(pre.pheromones@),
                    pre.width,
                    pre.height,
                    pre.start_row,
                    pre.start_column,
                    pre.end_row,
                    pre.end_column,
                    pre.ants@,
                    pre.seed,
                    pre.tick_count,
                    i as int,
                ),
                forall|m: int|
                    0 <= m < next_ph@.len() ==> #[trigger] next_ph@[m] as int <= PHEROMONE_CAP
                        + i * (DEPOSIT_Q as int),
                succ as int == successes_upto(
                    pre.cells@,
                    ph_int(pre.pheromones@),
                    pre.width,
                    pre.height,
                    pre.start_row,
                    pre.start_column,
                    pre.end_row,
                    pre.end_column,
                    pre.ants@,
                    pre.seed,
                    pre.tick_count,
                    i as int,
                ),
                succ <= i,
            decreases n - i,
        {
            let draw = ant_rand_exec(self.seed, self.tick_count, i as u64);
            let a = &self.ants[i];
            let (na, ev) = step_ant(
                &self.cells,
                &snapshot,
                self.width,
                self.height,
                self.start_row,
                self.start_column,
                self.end_row,
                self.end_column,
                a,
                draw,
            );
            new_ants.push(na);
            let ghost dep_before = ph_int(next_ph@);
            match ev {
                Some(route) => {
                    let amount = DEPOSIT_Q / (route.len() as u64);
                    proof {
                        vstd::arithmetic::div_mod::lemma_div_nonincreasing(
                            DEPOSIT_Q as int,
                            route@.len() as int,
                        );
                        assert forall|k: int| 0 <= k < route@.len() implies #[trigger] ph_int(
                            next_ph@,
                        )[flat(route@[k].0 as int, route@[k].1 as int, pre.width)] + amount
                            <= u64::MAX by {
                            lemma_flat_bounds(
                                route@[k].0 as int,
                                route@[k].1 as int,
                                pre.width,
                                pre.height,
                            );
                        }
                        lemma_deposit_route_props(
                            dep_before,
                            pre.width,
                            pre.height,
                            route@,
                            amount as int,
                        );
                    }
                    deposit_into(&mut next_ph, self.width, self.height, &route, amount);
                    succ = succ + 1;
                }
                None => {},
            }
            proof {
                assert forall|m: int|
                    0 <= m < next_ph@.len() implies #[trigger] next_ph@[m] as int <= PHEROMONE_CAP
                    + (i + 1) * (DEPOSIT_Q as int) by {
                    assert(ph_int(next_ph@)[m] == next_ph@[m] as int);
                    assert(dep_before[m] <= PHEROMONE_CAP + i * (DEPOSIT_Q as int));
                }
            }
            i = i + 1;
        }
        let ghost dep = deposits_upto(
            pre.cells@,
            ph_int(pre.pheromones@),
            pre.width,
            pre.height,
            pre.start_row,
            pre.start_column,
            pre.end_row,
            pre.end_column,
            pre.ants@,
            pre.seed,
            pre.tick_count,
            n as int,
        );
        evaporate_vec(&mut next_ph, EVAPORATION_NUM, EVAPORATION_DEN);
        proof {
            assert forall|m: int|
                0 <= m < next_ph@.len() implies #[trigger] next_ph@[m] <= PHEROMONE_CAP by {
                assert(ph_int(next_ph@)[m] == next_ph@[m] as int);
                assert(ph_int(next_ph@)[m] == evaporate_all(
                    dep,
                    EVAPORATION_NUM as int,
                    EVAPORATION_DEN as int,
                )[m]);
                assert(evaporate_all(dep, EVAPORATION_NUM as int, EVAPORATION_DEN as int)[m]
                    == dep[m] * (EVAPORATION_NUM as int) / (EVAPORATION_DEN as int));
                assert(dep[m] * 1int == dep[m]);
                assert(dep[m] <= PHEROMONE_CAP + (MAX_ANTS as int) * (DEPOSIT_Q as int));
                vstd::arithmetic::div_mod::lemma_div_is_ordered(
                    dep[m],
                    PHEROMONE_CAP + (MAX_ANTS as int) * (DEPOSIT_Q as int),
                    2int,
                );
            }
        }
        self.ants = new_ants;
        self.pheromones = next_ph;
        self.tick_count = wrap_add64_exec(self.tick_count, 1);
        self.completed = wrap_add64_exec(self.completed, succ);
        proof {
            assert forall|i: int|
                0 <= i < self.ants@.len() implies {
                let a = #[trigger] self.ants@[i];
                &&& a.row < self.height
                &&& a.column < self.width
                &&& self.cells@[flat(a.row as int, a.column as int, self.width)] != Cell::Wall
            } by {
                let a = self.ants@[i];
                if a.row == pre.start_row && a.column == pre.start_column {
                    assert(self.cells@[pre.start_idx()] == Cell::Start);
                }
            }
        }
    }

    /// Multiplies every intensity by the factor `num / den` in `(0, 1)`,
    /// rounding down — truncation floors vanishing intensities to zero.
    pub fn evaporate(&mut self, num: u64, den: u64)
        requires
            old(self).wf(),
            0 < num < den,
        ensures
            final(self).wf(),
            ph_int(final(self).pheromones@) == evaporate_all(
                ph_int(old(self).pheromones@),
                num as int,
                den as int,
            ),
            final(self).cells@ == old(self).cells@,
            final(self).ants@ == old(self).ants@,
            final(self).width == old(self).width,
            final(self).height == old(self).height,
            final(self).start_row == old(self).start_row,
            final(self).start_column == old(self).start_column,
            final(self).end_row == old(self).end_row,
            final(self).end_column == old(self).end_column,
            final(self).seed == old(self).seed,
            final(self).tick_count == old(self).tick_count,
            final(self).completed == old(self).completed,
    {
        evaporate_vec(&mut self.pheromones, num, den);
        proof {
            let pre = ph_int(old(self).pheromones@);
            assert forall|m: int|
                0 <= m < self.pheromones@.len() implies #[trigger] self.pheromones@[m]
                <= PHEROMONE_CAP by {
                assert((pre[m]) * (num as int) <= (pre[m]) * (den as int)) by (nonlinear_arith)
                    requires
                        num <= den,
                        pre[m] >= 0,
                ;
                vstd::arithmetic::div_mod::lemma_div_is_ordered(
                    pre[m] * (num as int),
                    pre[m] * (den as int),
                    den as int,
                );
                vstd::arithmetic::div_mod::lemma_div_multiples_vanish(pre[m], den as int);
                assert(pre[m] * (den as int) == (den as int) * pre[m]) by (nonlinear_arith);
                assert(pre[m] == old(self).pheromones@[m] as int);
                assert(old(self).pheromones@[m] <= PHEROMONE_CAP);
                assert(pre[m] * (num as int) / (den as int) <= pre[m]);
                assert(ph_int(self.pheromones@)[m] == evaporate_all(pre, num as int, den as int)[m]);
                assert(evaporate_all(pre, num as int, den as int)[m] == pre[m] * (num as int) / (
                den as int));
                assert(self.pheromones@[m] as int == pre[m] * (num as int) / (den as int));
            }
        }
    }
}

} // verus!
