//! The rectangular parameter lattice over which a surface is sampled.
//!
//! A lattice has a sweep axis (tooth width or generatrix position) and a
//! rolling-angle axis. Its cells are visited sweep-major: all rolling-angle
//! indices of sweep index 0, then those of sweep index 1, and so on. The
//! lattice only knows indices; what a cell's indices mean as lengths and
//! angles, and the point that belongs to them, is the caller's business and
//! enters through the function handed to [`SampleGrid::sample`].

use vstd::arithmetic::div_mod::lemma_fundamental_div_mod;
use vstd::arithmetic::div_mod::lemma_fundamental_div_mod_converse_div;
use vstd::arithmetic::div_mod::lemma_fundamental_div_mod_converse_mod;
use vstd::prelude::*;

verus! {

/// One cell of a lattice: its index along the sweep axis and its index along
/// the rolling-angle axis.
#[derive(Clone, Copy, Debug, PartialEq, Eq, Structural)]
pub struct Cell {
    pub sweep: usize,
    pub roll: usize,
}

/// The number of samples along each of the two axes.
#[derive(Clone, Copy, Debug, PartialEq, Eq, Structural)]
pub struct SampleGrid {
    pub sweep_count: usize,
    pub roll_count: usize,
}

impl SampleGrid {
    /// The number of cells.
    pub open spec fn len(self) -> nat {
        (self.sweep_count * self.roll_count) as nat
    }

    /// Whether both indices of `cell` are within the lattice.
    pub open spec fn contains(self, cell: Cell) -> bool {
        cell.sweep < self.sweep_count && cell.roll < self.roll_count
    }

    /// The place of `cell` in the sweep-major order.
    pub open spec fn position(self, cell: Cell) -> int {
        cell.sweep * self.roll_count + cell.roll
    }

    /// The cell at place `k` of the sweep-major order.
    pub open spec fn cell_at(self, k: int) -> Cell {
        Cell {
            sweep: (k / self.roll_count as int) as usize,
            roll: (k % self.roll_count as int) as usize,
        }
    }

    /// The lattice of two axes divided into the given numbers of intervals,
    /// with a sample at both ends of every interval.
    pub open spec fn divided(sweep_divisions: usize, roll_divisions: usize) -> SampleGrid {
        SampleGrid {
            sweep_count: (sweep_divisions + 1) as usize,
            roll_count: (roll_divisions + 1) as usize,
        }
    }

    /// All cells, in sweep-major order.
    pub open spec fn cells(self) -> Seq<Cell> {
        Seq::new(self.len(), |k: int| self.cell_at(k))
    }

    /// What it means for a sampling run to stop at place `k` with `error`:
    /// the places before `k` gave the points `done`, and place `k` gave the error.
    pub open spec fn stops_at<T, E, F: Fn(Cell) -> Result<T, E>>(
        self,
        point: F,
        k: int,
        done: Seq<T>,
        error: E,
    ) -> bool {
        &&& 0 <= k < self.len()
        &&& done.len() == k
        &&& forall|i: int| 0 <= i < k ==> point.ensures((self.cell_at(i),), Ok(#[trigger] done[i]))
        &&& point.ensures((self.cell_at(k),), Err(error))
    }

    /// `position` and `cell_at` are inverse to each other on the lattice.
    pub proof fn lemma_places(self)
        ensures
            forall|k: int|
                0 <= k < self.len() ==> self.contains(#[trigger] self.cell_at(k)) && self.position(
                    self.cell_at(k),
                ) == k,
            forall|cell: Cell|
                self.contains(cell) ==> 0 <= #[trigger] self.position(cell) < self.len()
                    && self.cell_at(self.position(cell)) == cell,
    {
        assert forall|k: int| 0 <= k < self.len() implies self.contains(#[trigger] self.cell_at(k))
            && self.position(self.cell_at(k)) == k by {
            self.lemma_cell_at(k);
        }
        assert forall|cell: Cell| self.contains(cell) implies 0 <= #[trigger] self.position(cell)
            < self.len() && self.cell_at(self.position(cell)) == cell by {
            self.lemma_position(cell);
        }
    }

    /// The cell at a place of the lattice lies in the lattice, at that place.
    pub proof fn lemma_cell_at(self, k: int)
        requires
            0 <= k < self.len(),
        ensures
            self.contains(self.cell_at(k)),
            self.position(self.cell_at(k)) == k,
    {
        let n = self.sweep_count as int;
        let m = self.roll_count as int;
        assert(m > 0) by (nonlinear_arith)
            requires
                0 <= k < n * m,
                0 <= n,
                0 <= m,
        ;
        lemma_fundamental_div_mod(k, m);
        let q = k / m;
        let r = k % m;
        assert(0 <= r < m);
        assert(0 <= q < n) by (nonlinear_arith)
            requires
                k == m * q + r,
                0 <= r < m,
                0 <= k < n * m,
                0 < m,
        ;
        assert(q * m == m * q) by (nonlinear_arith);
    }

    /// A cell of the lattice has a place, and is the cell at that place.
    pub proof fn lemma_position(self, cell: Cell)
        requires
            self.contains(cell),
        ensures
            0 <= self.position(cell) < self.len(),
            self.cell_at(self.position(cell)) == cell,
    {
        let n = self.sweep_count as int;
        let m = self.roll_count as int;
        let i = cell.sweep as int;
        let j = cell.roll as int;
        assert(0 <= i * m + j < n * m) by (nonlinear_arith)
            requires
                0 <= i < n,
                0 <= j < m,
        ;
        lemma_fundamental_div_mod_converse_div(i * m + j, m, i, j);
        lemma_fundamental_div_mod_converse_mod(i * m + j, m, i, j);
    }

    /// Sweep-major order: a cell comes before another exactly if its sweep
    /// index is smaller, or the sweep indices agree and its rolling-angle
    /// index is smaller.
    pub proof fn lemma_sweep_major(self, a: Cell, b: Cell)
        requires
            self.contains(a),
            self.contains(b),
        ensures
            self.position(a) < self.position(b) <==> (a.sweep < b.sweep || (a.sweep == b.sweep
                && a.roll < b.roll)),
            self.position(a) == self.position(b) <==> a == b,
    {
        let m = self.roll_count as int;
        let ai = a.sweep as int;
        let bi = b.sweep as int;
        if ai < bi {
            assert(ai * m + m <= bi * m) by (nonlinear_arith)
                requires
                    ai + 1 <= bi,
                    0 <= m,
            ;
        } else if bi < ai {
            assert(bi * m + m <= ai * m) by (nonlinear_arith)
                requires
                    bi + 1 <= ai,
                    0 <= m,
            ;
        }
    }

    /// No cell occurs twice in `cells`, and every cell of the lattice occurs.
    pub proof fn lemma_cells_exact(self)
        ensures
            self.cells().len() == self.len(),
            self.cells().no_duplicates(),
            forall|cell: Cell| self.contains(cell) <==> #[trigger] self.cells().contains(cell),
    {
        self.lemma_places();
        assert forall|cell: Cell| self.contains(cell) implies #[trigger] self.cells().contains(
            cell,
        ) by {
            assert(self.cells()[self.position(cell)] == cell);
        }
    }

    /// A lattice with the given numbers of samples.
    pub fn new(sweep_count: usize, roll_count: usize) -> (grid: SampleGrid)
        ensures
            grid.sweep_count == sweep_count,
            grid.roll_count == roll_count,
    {
        SampleGrid { sweep_count, roll_count }
    }

    /// The lattice that divides each axis into the given number of intervals
    /// and samples both ends of every interval, so that it has one sample
    /// more than intervals along each axis. There is none if a count does not
    /// fit the machine word.
    pub fn with_divisions(sweep_divisions: usize, roll_divisions: usize) -> (grid: Option<
        SampleGrid,
    >)
        ensures
            grid is Some <==> sweep_divisions < usize::MAX && roll_divisions < usize::MAX,
            grid is Some ==> grid.unwrap() == SampleGrid::divided(sweep_divisions, roll_divisions)
                && grid.unwrap().sweep_count == sweep_divisions + 1 && grid.unwrap().roll_count
                == roll_divisions + 1 && grid.unwrap().len() == (sweep_divisions + 1) * (
            roll_divisions + 1),
    {
        if sweep_divisions < usize::MAX && roll_divisions < usize::MAX {
            Some(SampleGrid { sweep_count: sweep_divisions + 1, roll_count: roll_divisions + 1 })
        } else {
            None
        }
    }

    /// The number of cells, if it fits the machine word.
    pub fn checked_len(&self) -> (count: Option<usize>)
        ensures
            count is Some <==> self.len() <= usize::MAX,
            count is Some ==> count.unwrap() == self.len(),
    {
        self.sweep_count.checked_mul(self.roll_count)
    }

    /// The cell at place `k` of the sweep-major order, if the lattice has
    /// that many cells.
    pub fn cell(&self, k: usize) -> (found: Option<Cell>)
        ensures
            found is Some <==> k < self.len(),
            found is Some ==> found.unwrap() == self.cell_at(k as int),
    {
        if self.roll_count == 0 {
            assert(self.sweep_count * 0 == 0) by (nonlinear_arith);
            return None;
        }
        let sweep: usize = k / self.roll_count;
        let roll: usize = k % self.roll_count;
        proof {
            let n = self.sweep_count as int;
            let m = self.roll_count as int;
            lemma_fundamental_div_mod(k as int, m);
            assert((sweep < n) <==> (k < n * m)) by (nonlinear_arith)
                requires
                    k == m * sweep + roll,
                    0 <= roll < m,
                    0 <= sweep,
                    0 <= n,
            ;
        }
        if sweep < self.sweep_count {
            Some(Cell { sweep, roll })
        } else {
            None
        }
    }

    /// The place of `cell` in the sweep-major order, if the cell lies in the
    /// lattice and its place fits the machine word.
    pub fn index(&self, cell: Cell) -> (place: Option<usize>)
        ensures
            place is Some <==> self.contains(cell) && self.position(cell) <= usize::MAX,
            place is Some ==> place.unwrap() == self.position(cell),
    {
        if cell.sweep < self.sweep_count && cell.roll < self.roll_count {
            match cell.sweep.checked_mul(self.roll_count) {
                Some(start) => start.checked_add(cell.roll),
                None => None,
            }
        } else {
            None
        }
    }

    /// The first cell of the sweep-major order, if the lattice has a cell.
    pub fn first(&self) -> (cell: Option<Cell>)
        ensures
            cell is Some <==> self.len() > 0,
            cell is Some ==> cell.unwrap() == self.cell_at(0),
    {
        proof {
            let n = self.sweep_count as int;
            let m = self.roll_count as int;
            assert((n * m > 0) <==> (n > 0 && m > 0)) by (nonlinear_arith)
                requires
                    0 <= n,
                    0 <= m,
            ;
        }
        if self.sweep_count > 0 && self.roll_count > 0 {
            proof {
                self.lemma_position(Cell { sweep: 0, roll: 0 });
                assert(0 * self.roll_count + 0 == 0);
            }
            Some(Cell { sweep: 0, roll: 0 })
        } else {
            None
        }
    }

    /// The cell that follows `cell` in the sweep-major order. There is none
    /// after the last cell, and none for a cell outside the lattice.
    pub fn next(&self, cell: Cell) -> (following: Option<Cell>)
        ensures
            following is Some <==> self.contains(cell) && self.position(cell) + 1 < self.len(),
            following is Some ==> following.unwrap() == self.cell_at(self.position(cell) + 1),
    {
        if cell.sweep >= self.sweep_count || cell.roll >= self.roll_count {
            return None;
        }
        proof {
            self.lemma_position(cell);
            let n = self.sweep_count as int;
            let m = self.roll_count as int;
            let i = cell.sweep as int;
            assert((i + 1) * m == i * m + m) by (nonlinear_arith);
            assert(i + 1 < n ==> (i + 1) * m + m <= n * m) by (nonlinear_arith)
                requires
                    0 <= m,
            ;
            assert(i + 1 == n ==> (i + 1) * m == n * m);
        }
        if cell.roll + 1 < self.roll_count {
            let following = Cell { sweep: cell.sweep, roll: cell.roll + 1 };
            proof {
                self.lemma_position(following);
            }
            Some(following)
        } else if cell.sweep + 1 < self.sweep_count {
            let following = Cell { sweep: cell.sweep + 1, roll: 0 };
            proof {
                self.lemma_position(following);
            }
            Some(following)
        } else {
            None
        }
    }

    /// All cells of the lattice, in sweep-major order.
    pub fn enumerate(&self) -> (cells: Vec<Cell>)
        ensures
            cells@ == self.cells(),
    {
        let same = |cell: Cell| -> (r: Cell)
            ensures
                r == cell,
            { cell };
        let cells = self.sample(same);
        assert(cells@ =~= self.cells());
        cells
    }

    /// The point of every cell, in sweep-major order. `point` is called once
    /// for each cell, in that order, and must accept every cell of the
    /// lattice.
    pub fn sample<T, F: Fn(Cell) -> T>(&self, point: F) -> (points: Vec<T>)
        requires
            forall|cell: Cell| #[trigger] self.contains(cell) ==> point.requires((cell,)),
        ensures
            points@.len() == self.len(),
            forall|k: int|
                0 <= k < self.len() ==> point.ensures((self.cell_at(k),), #[trigger] points@[k]),
    {
        let mut points: Vec<T> = Vec::new();
        let mut sweep: usize = 0;
        while sweep < self.sweep_count
            invariant
                sweep <= self.sweep_count,
                points@.len() == sweep * self.roll_count,
                forall|cell: Cell| #[trigger] self.contains(cell) ==> point.requires((cell,)),
                forall|k: int|
                    0 <= k < points@.len() ==> point.ensures(
                        (self.cell_at(k),),
                        #[trigger] points@[k],
                    ),
            decreases self.sweep_count - sweep,
        {
            let mut roll: usize = 0;
            while roll < self.roll_count
                invariant
                    sweep < self.sweep_count,
                    roll <= self.roll_count,
                    points@.len() == sweep * self.roll_count + roll,
                    forall|cell: Cell| #[trigger] self.contains(cell) ==> point.requires((cell,)),
                    forall|k: int|
                        0 <= k < points@.len() ==> point.ensures(
                            (self.cell_at(k),),
                            #[trigger] points@[k],
                        ),
                decreases self.roll_count - roll,
            {
                let cell = Cell { sweep, roll };
                proof {
                    self.lemma_position(cell);
                    assert(self.contains(cell));
                }
                let p = point(cell);
                points.push(p);
                roll += 1;
            }
            proof {
                let i = sweep as int;
                let m = self.roll_count as int;
                assert((i + 1) * m == i * m + m) by (nonlinear_arith);
            }
            sweep += 1;
        }
        points
    }

    /// The point of every cell, in sweep-major order, unless `point` fails.
    /// `point` is called for one cell after the other. Its first error ends
    /// the run and is returned; no cell after that one is visited.
    pub fn try_sample<T, E, F: Fn(Cell) -> Result<T, E>>(&self, point: F) -> (outcome: Result<
        Vec<T>,
        E,
    >)
        requires
            forall|cell: Cell| #[trigger] self.contains(cell) ==> point.requires((cell,)),
        ensures
            match outcome {
                Ok(points) => points@.len() == self.len() && forall|k: int|
                    0 <= k < self.len() ==> point.ensures(
                        (self.cell_at(k),),
                        Ok(#[trigger] points@[k]),
                    ),
                Err(error) => exists|k: int, done: Seq<T>| #[trigger]
                    self.stops_at(point, k, done, error),
            },
    {
        let mut points: Vec<T> = Vec::new();
        let mut sweep: usize = 0;
        while sweep < self.sweep_count
            invariant
                sweep <= self.sweep_count,
                points@.len() == sweep * self.roll_count,
                forall|cell: Cell| #[trigger] self.contains(cell) ==> point.requires((cell,)),
                forall|k: int|
                    0 <= k < points@.len() ==> point.ensures(
                        (self.cell_at(k),),
                        Ok(#[trigger] points@[k]),
                    ),
            decreases self.sweep_count - sweep,
        {
            let mut roll: usize = 0;
            while roll < self.roll_count
                invariant
                    sweep < self.sweep_count,
                    roll <= self.roll_count,
                    points@.len() == sweep * self.roll_count + roll,
                    forall|cell: Cell| #[trigger] self.contains(cell) ==> point.requires((cell,)),
                    forall|k: int|
                        0 <= k < points@.len() ==> point.ensures(
                            (self.cell_at(k),),
                            Ok(#[trigger] points@[k]),
                        ),
                decreases self.roll_count - roll,
            {
                let cell = Cell { sweep, roll };
                proof {
                    self.lemma_position(cell);
                    assert(self.contains(cell));
                }
                match point(cell) {
                    Ok(p) => {
                        points.push(p);
                    },
                    Err(error) => {
                        let outcome = Err(error);
                        assert(outcome matches Err(e) && self.stops_at(
                            point,
                            self.position(cell),
                            points@,
                            e,
                        ));
                        return outcome;
                    },
                }
                roll += 1;
            }
            proof {
                let i = sweep as int;
                let m = self.roll_count as int;
                assert((i + 1) * m == i * m + m) by (nonlinear_arith);
            }
            sweep += 1;
        }
        Ok(points)
    }
}

} // verus!
