//! Neighbor counting as a convolution: the 0/1 mask of alive cells,
//! convolved with a 3x3 kernel over a zero border, gives every cell's
//! neighbor count at once.
use crate::grid::{columns, is_grid};
use crate::life::{alive, apply_counts, counts_fit, neighbor_count, next_generation};
use crate::rule::NeighborRule;
use ndarray::Array2;
use vstd::prelude::*;

verus! {

/// The entry of `m` at `(x, y)`, and 0 outside it.
pub open spec fn padded(m: Seq<Seq<usize>>, x: int, y: int) -> int {
    if 0 <= x < m.len() && 0 <= y < m[x].len() {
        m[x][y] as int
    } else {
        0
    }
}

/// The convolution of `m` (zero outside) with the 3x3 kernel `k`, whose
/// centre `k[1][1]` lies over `(x, y)`.
pub open spec fn convolution_at(m: Seq<Seq<usize>>, k: Seq<Seq<usize>>, x: int, y: int) -> int {
    k[0][0] * padded(m, x + 1, y + 1) + k[0][1] * padded(m, x + 1, y) + k[0][2] * padded(
        m,
        x + 1,
        y - 1,
    ) + k[1][0] * padded(m, x, y + 1) + k[1][1] * padded(m, x, y) + k[1][2] * padded(m, x, y - 1)
        + k[2][0] * padded(m, x - 1, y + 1) + k[2][1] * padded(m, x - 1, y) + k[2][2] * padded(
        m,
        x - 1,
        y - 1,
    )
}

/// The convolution of `m` with `k`, of the same shape as `m`.
pub open spec fn convolution(m: Seq<Seq<usize>>, k: Seq<Seq<usize>>) -> Seq<Seq<usize>> {
    Seq::new(m.len(), |x: int| Seq::new(m[x].len(), |y: int| convolution_at(m, k, x, y) as usize))
}

/// A 3x3 kernel.
pub open spec fn is_kernel(k: Seq<Seq<usize>>) -> bool {
    k.len() == 3 && forall|a: int| 0 <= a < 3 ==> #[trigger] k[a].len() == 3
}

/// Every entry is 0 or 1.
pub open spec fn is_binary(m: Seq<Seq<usize>>) -> bool {
    forall|x: int, y: int| 0 <= x < m.len() && 0 <= y < m[x].len() ==> #[trigger] m[x][y] <= 1
}

/// The kernel that counts the Moore neighborhood.
pub open spec fn moore_kernel() -> Seq<Seq<usize>> {
    seq![seq![1usize, 1usize, 1usize], seq![1usize, 0usize, 1usize], seq![1usize, 1usize, 1usize]]
}

/// The kernel that counts the von Neumann neighborhood.
pub open spec fn von_neumann_kernel() -> Seq<Seq<usize>> {
    seq![seq![0usize, 1usize, 0usize], seq![1usize, 0usize, 1usize], seq![0usize, 1usize, 0usize]]
}

/// The kernel of a neighborhood.
pub open spec fn kernel_of(n: NeighborRule) -> Seq<Seq<usize>> {
    match n {
        NeighborRule::Moore => moore_kernel(),
        NeighborRule::VonNeumann => von_neumann_kernel(),
    }
}

/// 1 where a cell holds `state`, 0 elsewhere.
pub open spec fn alive_mask(g: Seq<Seq<u8>>, state: u8) -> Seq<Seq<usize>> {
    Seq::new(g.len(), |x: int| Seq::new(g[x].len(), |y: int| alive(g, state, x, y) as usize))
}

/// Relies on `ndarray_ndimage::convolve` with a constant zero border and
/// origin 0: it reverses the kernel and sums, for each position, kernel
/// entry times the input entry under it, reading 0 beyond the edges. With
/// entries of 0 or 1 and a 3x3 kernel no sum exceeds 9.
#[verifier::external_body]
fn convolve_zero_border(mask: &Vec<Vec<usize>>, kernel: &Vec<Vec<usize>>) -> (r: Vec<Vec<usize>>)
    requires
        is_grid(columns(mask@)),
        is_binary(columns(mask@)),
        is_kernel(columns(kernel@)),
        is_binary(columns(kernel@)),
    ensures
        columns(r@) == convolution(columns(mask@), columns(kernel@)),
{
    let data = Array2::from_shape_fn((mask.len(), mask[0].len()), |(x, y)| mask[x][y]);
    let weights = Array2::from_shape_fn((3, 3), |(a, b)| kernel[a][b]);
    let out = ndarray_ndimage::convolve(&data, &weights, ndarray_ndimage::BorderMode::Constant(0), 0);
    out.outer_iter().map(|column| column.to_vec()).collect()
}

/// The kernel of a neighborhood.
pub fn neighbor_kernel(neighbor: NeighborRule) -> (r: Vec<Vec<usize>>)
    ensures
        columns(r@) == kernel_of(neighbor),
{
    let k = match neighbor {
        NeighborRule::Moore => vec![vec![1, 1, 1], vec![1, 0, 1], vec![1, 1, 1]],
        NeighborRule::VonNeumann => vec![vec![0, 1, 0], vec![1, 0, 1], vec![0, 1, 0]],
    };
    assert(columns(k@) =~~= kernel_of(neighbor));
    k
}

/// The mask of the cells of `cols` that hold `state`.
pub(crate) fn alive_mask_of(cols: &Vec<Vec<u8>>, state: u8) -> (r: Vec<Vec<usize>>)
    requires
        is_grid(columns(cols@)),
    ensures
        columns(r@) == alive_mask(columns(cols@), state),
{
    let ghost g = columns(cols@);
    let mut mask: Vec<Vec<usize>> = Vec::new();
    let mut x: usize = 0;
    while x < cols.len()
        invariant
            g == columns(cols@),
            is_grid(g),
            x <= g.len(),
            mask@.len() == x,
            forall|i: int| 0 <= i < x ==> #[trigger] mask@[i]@ == alive_mask(g, state)[i],
        decreases g.len() - x,
    {
        let mut column: Vec<usize> = Vec::new();
        let mut y: usize = 0;
        while y < cols[x].len()
            invariant
                g == columns(cols@),
                is_grid(g),
                x < g.len(),
                y <= g[x as int].len(),
                column@.len() == y,
                forall|j: int| 0 <= j < y ==> #[trigger] column@[j] == alive(g, state, x as int, j),
            decreases g[x as int].len() - y,
        {
            column.push(if cols[x][y] == state { 1 } else { 0 });
            y = y + 1;
        }
        assert(column@ =~= alive_mask(g, state)[x as int]);
        mask.push(column);
        x = x + 1;
    }
    assert(columns(mask@) =~= alive_mask(g, state));
    mask
}

/// The padded mask reads 1 exactly where a cell is alive.
proof fn lemma_padded_mask(g: Seq<Seq<u8>>, state: u8, x: int, y: int)
    ensures
        padded(alive_mask(g, state), x, y) == alive(g, state, x, y),
{
}

/// Convolving the alive mask with a neighborhood's kernel counts, at each
/// cell, the alive neighbors of that neighborhood.
pub proof fn lemma_convolution_counts_neighbors(
    g: Seq<Seq<u8>>,
    rule: crate::rule::Rule,
    x: int,
    y: int,
)
    ensures
        convolution_at(alive_mask(g, rule.state), kernel_of(rule.neighbor), x, y)
            == neighbor_count(g, rule, x, y),
{
    let s = rule.state;
    lemma_padded_mask(g, s, x - 1, y - 1);
    lemma_padded_mask(g, s, x - 1, y);
    lemma_padded_mask(g, s, x - 1, y + 1);
    lemma_padded_mask(g, s, x, y - 1);
    lemma_padded_mask(g, s, x, y);
    lemma_padded_mask(g, s, x, y + 1);
    lemma_padded_mask(g, s, x + 1, y - 1);
    lemma_padded_mask(g, s, x + 1, y);
    lemma_padded_mask(g, s, x + 1, y + 1);
    let k = kernel_of(rule.neighbor);
    match rule.neighbor {
        NeighborRule::Moore => {
            assert(k[0][0] == 1 && k[0][1] == 1 && k[0][2] == 1);
            assert(k[1][0] == 1 && k[1][1] == 0 && k[1][2] == 1);
            assert(k[2][0] == 1 && k[2][1] == 1 && k[2][2] == 1);
        },
        NeighborRule::VonNeumann => {
            assert(k[0][0] == 0 && k[0][1] == 1 && k[0][2] == 0);
            assert(k[1][0] == 1 && k[1][1] == 0 && k[1][2] == 1);
            assert(k[2][0] == 0 && k[2][1] == 1 && k[2][2] == 0);
        },
    }
}

/// Every neighbor count, by convolving the alive mask with the neighborhood's kernel.
pub(crate) fn convolved_counts(cols: &Vec<Vec<u8>>, rule: &crate::rule::Rule) -> (r: Vec<
    Vec<usize>,
>)
    requires
        is_grid(columns(cols@)),
    ensures
        columns(r@) == convolution(alive_mask(columns(cols@), rule.state), kernel_of(rule.neighbor)),
{
    let mask = alive_mask_of(cols, rule.state);
    let kernel = neighbor_kernel(rule.neighbor);
    convolve_zero_border(&mask, &kernel)
}

/// The convolution of the alive mask holds possible neighbor counts, and
/// moving each cell by it gives the next generation.
pub proof fn lemma_convolution_step(g: Seq<Seq<u8>>, rule: crate::rule::Rule)
    requires
        is_grid(g),
    ensures
        counts_fit(g, convolution(alive_mask(g, rule.state), kernel_of(rule.neighbor))),
        apply_counts(g, convolution(alive_mask(g, rule.state), kernel_of(rule.neighbor)), rule)
            == next_generation(g, rule),
{
    let c = convolution(alive_mask(g, rule.state), kernel_of(rule.neighbor));
    assert forall|x: int, y: int| 0 <= x < g.len() && 0 <= y < g[x].len() implies #[trigger] c[x][y]
        == neighbor_count(g, rule, x, y) by {
        lemma_convolution_counts_neighbors(g, rule, x, y);
    }
    assert(apply_counts(g, c, rule) =~~= next_generation(g, rule));
}

} // verus!
