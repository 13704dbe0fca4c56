//! The stepping strategies. Each holds the current generation and the rule,
//! and computes the next generation into a fresh buffer that replaces the
//! current one only once every cell is done.
use crate::convolution::{
    alive_mask, alive_mask_of, convolution, convolved_counts, kernel_of, lemma_convolution_step,
    neighbor_kernel,
};
use crate::grid::{cell_at, columns, Grid};
use crate::life::{
    apply_count_columns, apply_counts, check_counts, count_neighbors, counts_fit, neighbor_count,
    next_columns, next_generation,
};
use crate::rule::Rule;
use vstd::prelude::*;

verus! {

/// A simulation that can be advanced one generation at a time.
pub trait GameOfLife: Sized {
    /// The cells of the current generation, indexed `[x][y]`.
    spec fn current(&self) -> Seq<Seq<u8>>;

    /// The rule the simulation runs under.
    spec fn rule(&self) -> Rule;

    /// Starts a simulation from `field`.
    fn new(field: Grid, rules: Rule) -> (r: Self)
        ensures
            r.current() == field@,
            r.rule() == rules,
    ;

    /// Replaces the current generation by the next one.
    fn compute_next_generation(&mut self)
        ensures
            final(self).current() == next_generation(old(self).current(), old(self).rule()),
            final(self).rule() == old(self).rule(),
    ;

    /// The state at `(x, y)`, or `None` outside the grid.
    fn cell(&self, x: usize, y: usize) -> (r: Option<u8>)
        ensures
            r == cell_at(self.current(), x as int, y as int),
    ;

    /// The number of columns.
    fn numx(&self) -> (r: usize)
        ensures
            r == self.current().len(),
    ;

    /// The number of cells in each column.
    fn numy(&self) -> (r: usize)
        ensures
            r == self.current()[0].len(),
    ;

    /// The alive state.
    fn state(&self) -> (r: u8)
        ensures
            r == self.rule().state,
    ;
}

/// Computes each generation by counting every cell's neighbors directly.
pub struct GameOfLifeStd {
    field: Grid,
    rules: Rule,
}

impl GameOfLifeStd {
    /// The number of alive neighbors of `(x, y)`.
    pub fn count_living_neighbors(&self, x: usize, y: usize) -> (r: usize)
        requires
            x < self.current().len(),
            y < self.current()[0].len(),
        ensures
            r == neighbor_count(self.current(), self.rule(), x as int, y as int),
    {
        let cols = self.field.columns();
        count_neighbors(cols, &self.rules, x, y)
    }

    /// The current generation.
    pub fn field(&self) -> (r: &Grid)
        ensures
            r@ == self.current(),
    {
        &self.field
    }
}

impl GameOfLife for GameOfLifeStd {
    closed spec fn current(&self) -> Seq<Seq<u8>> {
        self.field@
    }

    closed spec fn rule(&self) -> Rule {
        self.rules
    }

    fn new(field: Grid, rules: Rule) -> (r: Self) {
        GameOfLifeStd { field, rules }
    }

    fn compute_next_generation(&mut self) {
        let next = next_columns(self.field.columns(), &self.rules);
        self.field = Grid::from_columns(next);
    }

    fn cell(&self, x: usize, y: usize) -> (r: Option<u8>) {
        self.field.cell(x, y)
    }

    fn numx(&self) -> (r: usize) {
        self.field.numx()
    }

    fn numy(&self) -> (r: usize) {
        self.field.numy()
    }

    fn state(&self) -> (r: u8) {
        self.rules.state
    }
}

/// Computes each generation by convolving the mask of alive cells with the
/// neighborhood's kernel, then moving every cell by its count.
pub struct GameOfLifeConvolution {
    field: Grid,
    rules: Rule,
}

impl GameOfLifeConvolution {
    /// The current generation.
    pub fn field(&self) -> (r: &Grid)
        ensures
            r@ == self.current(),
    {
        &self.field
    }
}

impl GameOfLife for GameOfLifeConvolution {
    closed spec fn current(&self) -> Seq<Seq<u8>> {
        self.field@
    }

    closed spec fn rule(&self) -> Rule {
        self.rules
    }

    fn new(field: Grid, rules: Rule) -> (r: Self) {
        GameOfLifeConvolution { field, rules }
    }

    fn compute_next_generation(&mut self) {
        let cols = self.field.columns();
        let counts = convolved_counts(cols, &self.rules);
        proof {
            lemma_convolution_step(self.field@, self.rules);
        }
        let next = apply_count_columns(cols, &counts, &self.rules);
        self.field = Grid::from_columns(next);
    }

    fn cell(&self, x: usize, y: usize) -> (r: Option<u8>) {
        self.field.cell(x, y)
    }

    fn numx(&self) -> (r: usize) {
        self.field.numx()
    }

    fn numy(&self) -> (r: usize) {
        self.field.numy()
    }

    fn state(&self) -> (r: u8) {
        self.rules.state
    }
}

/// Computes each generation from neighbor counts obtained in the frequency
/// domain: the caller convolves `alive_mask()` with `kernel()` by a Fourier
/// transform, rounds the result to integers, and hands it to
/// `compute_next_generation_from`.
pub struct GameOfLifeFFT {
    field: Grid,
    rules: Rule,
}

impl GameOfLifeFFT {
    /// The cells of the current generation, indexed `[x][y]`.
    pub closed spec fn current(&self) -> Seq<Seq<u8>> {
        self.field@
    }

    /// The rule the simulation runs under.
    pub closed spec fn rule(&self) -> Rule {
        self.rules
    }

    /// Starts a simulation from `field`.
    pub fn new(field: Grid, rules: Rule) -> (r: Self)
        ensures
            r.current() == field@,
            r.rule() == rules,
    {
        GameOfLifeFFT { field, rules }
    }

    /// 1 where a cell is alive, 0 elsewhere: the first operand of the convolution.
    pub fn alive_mask(&self) -> (r: Vec<Vec<usize>>)
        ensures
            columns(r@) == alive_mask(self.current(), self.rule().state),
    {
        alive_mask_of(self.field.columns(), self.rules.state)
    }

    /// The neighborhood's kernel: the second operand of the convolution.
    pub fn kernel(&self) -> (r: Vec<Vec<usize>>)
        ensures
            columns(r@) == kernel_of(self.rule().neighbor),
    {
        neighbor_kernel(self.rules.neighbor)
    }

    /// Moves every cell by the neighbor count given for it. Counts of the
    /// wrong shape, or above 8, are refused and leave the grid as it was.
    /// Given the exact convolution of `alive_mask()` with `kernel()`, the
    /// result is the next generation.
    pub fn compute_next_generation_from(&mut self, counts: &Vec<Vec<usize>>) -> (r: bool)
        ensures
            r == counts_fit(old(self).current(), columns(counts@)),
            r ==> final(self).current() == apply_counts(
                old(self).current(),
                columns(counts@),
                old(self).rule(),
            ),
            !r ==> final(self).current() == old(self).current(),
            columns(counts@) == convolution(
                alive_mask(old(self).current(), old(self).rule().state),
                kernel_of(old(self).rule().neighbor),
            ) ==> r && final(self).current() == next_generation(
                old(self).current(),
                old(self).rule(),
            ),
            final(self).rule() == old(self).rule(),
    {
        let cols = self.field.columns();
        proof {
            lemma_convolution_step(self.field@, self.rules);
        }
        if !check_counts(cols, counts) {
            return false;
        }
        let next = apply_count_columns(cols, counts, &self.rules);
        self.field = Grid::from_columns(next);
        true
    }

    /// The state at `(x, y)`, or `None` outside the grid.
    pub fn cell(&self, x: usize, y: usize) -> (r: Option<u8>)
        ensures
            r == cell_at(self.current(), x as int, y as int),
    {
        self.field.cell(x, y)
    }

    /// The number of columns.
    pub fn numx(&self) -> (r: usize)
        ensures
            r == self.current().len(),
    {
        self.field.numx()
    }

    /// The number of cells in each column.
    pub fn numy(&self) -> (r: usize)
        ensures
            r == self.current()[0].len(),
    {
        self.field.numy()
    }

    /// The alive state.
    pub fn state(&self) -> (r: u8)
        ensures
            r == self.rule().state,
    {
        self.rules.state
    }

    /// The current generation.
    pub fn field(&self) -> (r: &Grid)
        ensures
            r@ == self.current(),
    {
        &self.field
    }
}

} // verus!
