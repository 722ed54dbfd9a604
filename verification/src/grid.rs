use vstd::prelude::*;

verus! {

/// Row-major position of cell `(x, y)` in a grid with `size_y` cells per column.
pub open spec fn cell_index(size_y: int, x: int, y: int) -> int {
    x * size_y + y
}

/// Every cell of a `size_x` by `size_y` grid has its own position, and all
/// positions lie in `0 .. size_x * size_y`.
pub proof fn lemma_cell_index_bijective(size_x: int, size_y: int, x1: int, y1: int, x2: int, y2: int)
    requires
        0 <= x1 < size_x,
        0 <= y1 < size_y,
        0 <= x2 < size_x,
        0 <= y2 < size_y,
    ensures
        0 <= cell_index(size_y, x1, y1) < size_x * size_y,
        cell_index(size_y, x1, y1) == cell_index(size_y, x2, y2) <==> (x1 == x2 && y1 == y2),
{
    lemma_cell_index_in_range(size_x, size_y, x1, y1);
    if x1 < x2 {
        assert(x1 * size_y + y1 < x2 * size_y + y2) by (nonlinear_arith)
            requires
                x1 < x2,
                0 <= y1 < size_y,
                0 <= y2,
        ;
    } else if x2 < x1 {
        assert(x2 * size_y + y2 < x1 * size_y + y1) by (nonlinear_arith)
            requires
                x2 < x1,
                0 <= y2 < size_y,
                0 <= y1,
        ;
    }
}

proof fn lemma_cell_index_in_range(size_x: int, size_y: int, x: int, y: int)
    requires
        0 <= x < size_x,
        0 <= y < size_y,
    ensures
        0 <= cell_index(size_y, x, y) < size_x * size_y,
{
    assert(0 <= x * size_y + y < size_x * size_y) by (nonlinear_arith)
        requires
            0 <= x < size_x,
            0 <= y < size_y,
    ;
}

/// The neighbours that the update stencils read: one step along y is the
/// next position, one step along x is `size_y` positions further.
pub proof fn lemma_cell_index_neighbours(size_y: int, x: int, y: int)
    ensures
        cell_index(size_y, x, y + 1) == cell_index(size_y, x, y) + 1,
        cell_index(size_y, x + 1, y) == cell_index(size_y, x, y) + size_y,
{
    assert((x + 1) * size_y == x * size_y + size_y) by (nonlinear_arith);
}

/// Discrete geometry and time-step counter of a 2D FDTD simulation: the
/// grid size in cells, the number of time steps, the source cell and the
/// current step (the time index `q`, which starts at 1).
pub struct FdtdGrid {
    size_x: usize,
    size_y: usize,
    max_time: usize,
    port_x: usize,
    port_y: usize,
    step: usize,
}

impl FdtdGrid {
    #[verifier::type_invariant]
    spec fn inv(self) -> bool {
        self.size_x * self.size_y <= usize::MAX
    }

    pub closed spec fn spec_size_x(self) -> nat {
        self.size_x as nat
    }

    pub closed spec fn spec_size_y(self) -> nat {
        self.size_y as nat
    }

    pub closed spec fn spec_max_time(self) -> nat {
        self.max_time as nat
    }

    pub closed spec fn spec_port(self) -> (nat, nat) {
        (self.port_x as nat, self.port_y as nat)
    }

    pub closed spec fn spec_step(self) -> nat {
        self.step as nat
    }

    /// The simulation has reached its last time step.
    pub open spec fn spec_finished(self) -> bool {
        self.spec_step() >= self.spec_max_time()
    }

    /// The number of cells, i.e. the length of each field array.
    pub open spec fn spec_total(self) -> nat {
        self.spec_size_x() * self.spec_size_y()
    }

    /// The source cell lies inside the grid.
    pub open spec fn spec_source_inside(self) -> bool {
        self.spec_port().0 < self.spec_size_x() && self.spec_port().1 < self.spec_size_y()
    }

    /// A grid of `size_x` by `size_y` cells run for `max_time` steps with the
    /// source at `(port_x, port_y)`, at its first step. The cell count must
    /// fit in `usize`, as the field arrays have one entry per cell.
    pub fn new(size_x: usize, size_y: usize, max_time: usize, port_x: usize, port_y: usize) -> (g: FdtdGrid)
        requires
            size_x * size_y <= usize::MAX,
        ensures
            g.spec_size_x() == size_x,
            g.spec_size_y() == size_y,
            g.spec_max_time() == max_time,
            g.spec_port() == (port_x as nat, port_y as nat),
            g.spec_step() == 1,
    {
        FdtdGrid { size_x, size_y, max_time, port_x, port_y, step: 1 }
    }

    /// `(size_x, size_y)` in cells.
    pub fn size(&self) -> (r: (usize, usize))
        ensures
            r.0 == self.spec_size_x(),
            r.1 == self.spec_size_y(),
    {
        (self.size_x, self.size_y)
    }

    /// The current time index.
    pub fn step_index(&self) -> (r: usize)
        ensures
            r == self.spec_step(),
    {
        self.step
    }

    /// The number of time steps of a run.
    pub fn max_time(&self) -> (r: usize)
        ensures
            r == self.spec_max_time(),
    {
        self.max_time
    }

    /// The number of cells.
    pub fn total(&self) -> (r: usize)
        ensures
            r == self.spec_total(),
    {
        proof {
            use_type_invariant(self);
        }
        self.size_x * self.size_y
    }

    /// Position of cell `(x, y)` in the field arrays.
    pub fn idx(&self, x: usize, y: usize) -> (r: usize)
        requires
            x < self.spec_size_x(),
            y < self.spec_size_y(),
        ensures
            r == cell_index(self.spec_size_y() as int, x as int, y as int),
            r < self.spec_total(),
    {
        proof {
            use_type_invariant(self);
            lemma_cell_index_in_range(self.size_x as int, self.size_y as int, x as int, y as int);
        }
        x * self.size_y + y
    }

    /// The run has reached `max_time`; a further step does nothing.
    pub fn is_finished(&self) -> (r: bool)
        ensures
            r == self.spec_finished(),
    {
        self.step >= self.max_time
    }

    /// Position of the source cell, when the source lies inside the grid
    /// (a source outside the grid is never excited).
    pub fn source_cell(&self) -> (r: Option<usize>)
        ensures
            r is Some <==> self.spec_source_inside(),
            r matches Some(i) ==> i == cell_index(
                self.spec_size_y() as int,
                self.spec_port().0 as int,
                self.spec_port().1 as int,
            ) && i < self.spec_total(),
    {
        if self.port_x < self.size_x && self.port_y < self.size_y {
            Some(self.idx(self.port_x, self.port_y))
        } else {
            None
        }
    }

    /// Moves to the next time index after the fields were updated, and tells
    /// whether the run has now reached its last step.
    pub fn advance(&mut self) -> (finished: bool)
        requires
            !old(self).spec_finished(),
        ensures
            final(self).spec_step() == old(self).spec_step() + 1,
            final(self).spec_size_x() == old(self).spec_size_x(),
            final(self).spec_size_y() == old(self).spec_size_y(),
            final(self).spec_max_time() == old(self).spec_max_time(),
            final(self).spec_port() == old(self).spec_port(),
            finished == final(self).spec_finished(),
    {
        proof {
            use_type_invariant(&*self);
        }
        self.step = self.step + 1;
        self.step >= self.max_time
    }

    /// Back to the first time step of the same grid.
    pub fn reset(&mut self)
        ensures
            final(self).spec_step() == 1,
            final(self).spec_size_x() == old(self).spec_size_x(),
            final(self).spec_size_y() == old(self).spec_size_y(),
            final(self).spec_max_time() == old(self).spec_max_time(),
            final(self).spec_port() == old(self).spec_port(),
    {
        proof {
            use_type_invariant(&*self);
        }
        self.step = 1;
    }
}

} // verus!
