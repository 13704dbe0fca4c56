//! The grid of cell states, fixed in size for the lifetime of a simulation.
//!
//! Cells are addressed by `(x, y)` with `0 <= x < numx` and `0 <= y < numy`.
//! The model of a grid is a sequence of `numx` columns, each of `numy`
//! states, so that `g[x][y]` is the state of cell `(x, y)`. A flat buffer
//! is read in the same axis order: cell `(x, y)` is entry `x * numy + y`.
use vstd::prelude::*;

verus! {

/// A non-empty rectangular sequence of columns.
pub open spec fn is_grid<T>(g: Seq<Seq<T>>) -> bool {
    &&& g.len() >= 1
    &&& g[0].len() >= 1
    &&& forall|x: int| 0 <= x < g.len() ==> #[trigger] g[x].len() == g[0].len()
}

/// The columns of a flat buffer of `numx * numy` cells, `numy` cells per column.
pub open spec fn reshape(cells: Seq<u8>, numx: nat, numy: nat) -> Seq<Seq<u8>> {
    Seq::new(numx, |x: int| Seq::new(numy, |y: int| cells[x * numy + y]))
}

/// The state of cell `(x, y)`, or `None` outside the grid.
pub open spec fn cell_at(g: Seq<Seq<u8>>, x: int, y: int) -> Option<u8> {
    if 0 <= x < g.len() && 0 <= y < g[x].len() {
        Some(g[x][y])
    } else {
        None
    }
}

/// The columns of a vector of vectors.
pub open spec fn columns<T>(v: Seq<Vec<T>>) -> Seq<Seq<T>> {
    v.map_values(|c: Vec<T>| c@)
}

/// Why a grid could not be built.
#[derive(Clone, Copy, Debug, PartialEq, Eq, Structural)]
pub enum GridError {
    /// One of the dimensions is zero.
    ZeroDimension,
    /// The number of cells given is not `numx * numy`.
    ShapeMismatch,
}

/// A rectangular grid of cell states.
#[derive(Debug, PartialEq, Eq)]
pub struct Grid {
    cells: Vec<Vec<u8>>,
    numx: usize,
    numy: usize,
}

impl View for Grid {
    type V = Seq<Seq<u8>>;

    closed spec fn view(&self) -> Seq<Seq<u8>> {
        columns(self.cells@)
    }
}

impl Grid {
    #[verifier::type_invariant]
    spec fn inv(&self) -> bool {
        &&& is_grid(self@)
        &&& self.numx == self@.len()
        &&& self.numy == self@[0].len()
    }

    /// Reads `cells` as a `numx` by `numy` grid, cell `(x, y)` at `x * numy + y`.
    pub fn new(numx: usize, numy: usize, cells: Vec<u8>) -> (r: Result<Grid, GridError>)
        ensures
            r == Err::<Grid, GridError>(GridError::ZeroDimension) <==> numx == 0 || numy == 0,
            r == Err::<Grid, GridError>(GridError::ShapeMismatch) <==> numx != 0 && numy != 0
                && cells@.len() != numx * numy,
            r is Ok <==> numx != 0 && numy != 0 && cells@.len() == numx * numy,
            r matches Ok(g) ==> is_grid(g@) && g@ == reshape(cells@, numx as nat, numy as nat),
    {
        if numx == 0 || numy == 0 {
            return Err(GridError::ZeroDimension);
        }
        let len = cells.len();
        let total = match numx.checked_mul(numy) {
            Some(t) => t,
            None => return Err(GridError::ShapeMismatch),
        };
        if len != total {
            return Err(GridError::ShapeMismatch);
        }
        let ghost target = reshape(cells@, numx as nat, numy as nat);
        let mut columns_built: Vec<Vec<u8>> = Vec::new();
        let mut x: usize = 0;
        while x < numx
            invariant
                x <= numx,
                numy >= 1,
                total == numx * numy,
                cells@.len() == total,
                target == reshape(cells@, numx as nat, numy as nat),
                columns_built@.len() == x,
                forall|i: int| 0 <= i < x ==> #[trigger] columns_built@[i]@ == target[i],
            decreases numx - x,
        {
            proof {
                assert((x + 1) * numy <= numx * numy) by (nonlinear_arith)
                    requires
                        x + 1 <= numx,
                ;
                assert((x + 1) * numy == x * numy + numy) by (nonlinear_arith);
            }
            let base = x * numy;
            let mut column: Vec<u8> = Vec::new();
            let mut y: usize = 0;
            while y < numy
                invariant
                    y <= numy,
                    base + numy <= total,
                    total == cells@.len(),
                    base == x * numy,
                    column@.len() == y,
                    forall|j: int| 0 <= j < y ==> #[trigger] column@[j] == cells@[base + j],
                decreases numy - y,
            {
                column.push(cells[base + y]);
                y = y + 1;
            }
            assert(column@ =~= target[x as int]);
            columns_built.push(column);
            x = x + 1;
        }
        let g = Grid { cells: columns_built, numx, numy };
        assert(g@ =~= target);
        Ok(g)
    }

    /// Builds a grid from its columns.
    pub(crate) fn from_columns(cells: Vec<Vec<u8>>) -> (r: Grid)
        requires
            is_grid(columns(cells@)),
        ensures
            r@ == columns(cells@),
    {
        let numx = cells.len();
        let numy = cells[0].len();
        Grid { cells, numx, numy }
    }

    /// The columns of the grid.
    pub(crate) fn columns(&self) -> (r: &Vec<Vec<u8>>)
        ensures
            columns(r@) == self@,
            is_grid(self@),
    {
        proof {
            use_type_invariant(self);
        }
        &self.cells
    }

    /// The state at `(x, y)`, or `None` outside the grid.
    pub fn cell(&self, x: usize, y: usize) -> (r: Option<u8>)
        ensures
            r == cell_at(self@, x as int, y as int),
    {
        proof {
            use_type_invariant(self);
        }
        if x < self.numx && y < self.numy {
            Some(self.cells[x][y])
        } else {
            None
        }
    }

    /// The number of columns.
    pub fn numx(&self) -> (r: usize)
        ensures
            r == self@.len(),
            is_grid(self@),
    {
        proof {
            use_type_invariant(self);
        }
        self.numx
    }

    /// The number of cells in each column.
    pub fn numy(&self) -> (r: usize)
        ensures
            r == self@[0].len(),
            is_grid(self@),
    {
        proof {
            use_type_invariant(self);
        }
        self.numy
    }
}

} // verus!
