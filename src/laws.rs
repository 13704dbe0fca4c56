//! Properties of the automaton that hold for every grid and rule.
use crate::convolution::{alive_mask, convolution, kernel_of, lemma_convolution_step};
use crate::grid::is_grid;
use crate::life::{
    alive, apply_counts, generations, neighbor_count, next_generation, next_state,
};
use crate::rule::{NeighborRule, Rule};
use vstd::prelude::*;

verus! {

/// The next generation has the shape of the grid it came from.
pub proof fn lemma_next_generation_shape(g: Seq<Seq<u8>>, rule: Rule)
    requires
        is_grid(g),
    ensures
        is_grid(next_generation(g, rule)),
        next_generation(g, rule).len() == g.len(),
        next_generation(g, rule)[0].len() == g[0].len(),
{
    let n = next_generation(g, rule);
    assert forall|x: int| 0 <= x < n.len() implies #[trigger] n[x].len() == n[0].len() by {
        assert(g[x].len() == g[0].len());
    }
}

/// Any number of generations keeps the shape of the grid.
pub proof fn lemma_generations_shape(g: Seq<Seq<u8>>, rule: Rule, n: nat)
    requires
        is_grid(g),
    ensures
        is_grid(generations(g, rule, n)),
        generations(g, rule, n).len() == g.len(),
        generations(g, rule, n)[0].len() == g[0].len(),
    decreases n,
{
    if n > 0 {
        lemma_generations_shape(g, rule, (n - 1) as nat);
        lemma_next_generation_shape(generations(g, rule, (n - 1) as nat), rule);
    }
}

/// One generation computed from the convolution of the alive mask with the
/// neighborhood's kernel, as the spatial and spectral strategies compute it.
pub open spec fn convolution_generation(g: Seq<Seq<u8>>, rule: Rule) -> Seq<Seq<u8>> {
    apply_counts(g, convolution(alive_mask(g, rule.state), kernel_of(rule.neighbor)), rule)
}

/// `g` after `n` generations computed by convolution.
pub open spec fn convolution_generations(g: Seq<Seq<u8>>, rule: Rule, n: nat) -> Seq<Seq<u8>>
    decreases n,
{
    if n == 0 {
        g
    } else {
        convolution_generation(convolution_generations(g, rule, (n - 1) as nat), rule)
    }
}

/// Counting neighbors directly and counting them by convolution give the
/// same grid after any number of generations, from any grid and rule.
pub proof fn lemma_strategies_agree(g: Seq<Seq<u8>>, rule: Rule, n: nat)
    requires
        is_grid(g),
    ensures
        convolution_generations(g, rule, n) == generations(g, rule, n),
    decreases n,
{
    if n > 0 {
        lemma_strategies_agree(g, rule, (n - 1) as nat);
        lemma_generations_shape(g, rule, (n - 1) as nat);
        lemma_convolution_step(generations(g, rule, (n - 1) as nat), rule);
    }
}

/// A cell neither born nor surviving loses one state, and a dead one stays dead.
pub proof fn lemma_decay_step(cur: u8, count: nat, rule: Rule)
    requires
        !rule.birth@[count as int],
        !(cur == rule.state && rule.survival@[count as int]),
    ensures
        next_state(cur, count, rule) == if cur > 0 {
            (cur - 1) as u8
        } else {
            0u8
        },
{
}

/// The state at `(x, y)` of generation `k` is neither born nor surviving.
pub open spec fn fades_at(g: Seq<Seq<u8>>, rule: Rule, x: int, y: int, k: nat) -> bool {
    let h = generations(g, rule, k);
    let c = neighbor_count(h, rule, x, y);
    !rule.birth@[c as int] && !(h[x][y] == rule.state && rule.survival@[c as int])
}

/// A cell that is never born nor survives during `n` generations counts
/// down one state per generation and then stays at 0: from the alive state
/// it passes through `state - 1, state - 2, ..., 0`.
pub proof fn lemma_decay(g: Seq<Seq<u8>>, rule: Rule, x: int, y: int, n: nat)
    requires
        is_grid(g),
        0 <= x < g.len(),
        0 <= y < g[0].len(),
        forall|k: nat| k < n ==> #[trigger] fades_at(g, rule, x, y, k),
    ensures
        generations(g, rule, n)[x][y] == if g[x][y] >= n {
            (g[x][y] - n) as u8
        } else {
            0u8
        },
    decreases n,
{
    if n > 0 {
        let m = (n - 1) as nat;
        assert forall|k: nat| k < m implies #[trigger] fades_at(g, rule, x, y, k) by {
            assert(fades_at(g, rule, x, y, k));
        }
        lemma_decay(g, rule, x, y, m);
        lemma_generations_shape(g, rule, m);
        assert(fades_at(g, rule, x, y, m));
        let h = generations(g, rule, m);
        assert(h[x].len() == h[0].len());
        lemma_decay_step(h[x][y], neighbor_count(h, rule, x, y), rule);
    }
}

/// The most alive neighbors that a corner cell can have.
pub open spec fn corner_max(n: NeighborRule) -> nat {
    match n {
        NeighborRule::Moore => 3,
        NeighborRule::VonNeumann => 2,
    }
}

/// The most alive neighbors that any cell can have.
pub open spec fn interior_max(n: NeighborRule) -> nat {
    match n {
        NeighborRule::Moore => 8,
        NeighborRule::VonNeumann => 4,
    }
}

/// No count reaches past the border: a cell at a corner of the grid sees at
/// most 3 alive neighbors (2 under von Neumann), whatever the grid holds.
pub proof fn lemma_corner_horizon(g: Seq<Seq<u8>>, rule: Rule, x: int, y: int)
    requires
        is_grid(g),
        x == 0 || x == g.len() - 1,
        y == 0 || y == g[0].len() - 1,
    ensures
        neighbor_count(g, rule, x, y) <= corner_max(rule.neighbor),
        corner_max(rule.neighbor) < interior_max(rule.neighbor),
{
    let s = rule.state;
    if x == 0 {
        assert(alive(g, s, x - 1, y - 1) == 0 && alive(g, s, x - 1, y) == 0 && alive(g, s, x - 1, y + 1) == 0);
    } else {
        assert(alive(g, s, x + 1, y - 1) == 0 && alive(g, s, x + 1, y) == 0 && alive(g, s, x + 1, y + 1) == 0);
    }
    assert(g[x].len() == g[0].len());
    if y == 0 {
        assert(alive(g, s, x - 1, y - 1) == 0 && alive(g, s, x, y - 1) == 0 && alive(g, s, x + 1, y - 1) == 0);
    } else {
        assert(alive(g, s, x - 1, y + 1) == 0 && alive(g, s, x, y + 1) == 0 && alive(g, s, x + 1, y + 1) == 0);
    }
}

/// An interior cell of a fully alive grid sees every neighbor of its
/// neighborhood alive: 8 under Moore, 4 under von Neumann.
pub proof fn lemma_interior_horizon(g: Seq<Seq<u8>>, rule: Rule, x: int, y: int)
    requires
        is_grid(g),
        0 < x < g.len() - 1,
        0 < y < g[0].len() - 1,
        forall|i: int, j: int| 0 <= i < g.len() && 0 <= j < g[i].len() ==> #[trigger] g[i][j] == rule.state,
    ensures
        neighbor_count(g, rule, x, y) == interior_max(rule.neighbor),
{
    assert(g[x - 1].len() == g[0].len());
    assert(g[x].len() == g[0].len());
    assert(g[x + 1].len() == g[0].len());
}

/// Conway's survival counts: 2 and 3.
pub open spec fn conway_survival() -> Seq<bool> {
    seq![false, false, true, true, false, false, false, false, false]
}

/// Conway's birth count: 3.
pub open spec fn conway_birth() -> Seq<bool> {
    seq![false, false, false, true, false, false, false, false, false]
}

/// `(x, y)` lies in the 2x2 block whose lowest corner is `(a, b)`.
pub open spec fn in_block(a: int, b: int, x: int, y: int) -> bool {
    a <= x <= a + 1 && b <= y <= b + 1
}

/// A 2x2 block of alive cells, all other cells dead, is a still life under
/// survival on 2 or 3 and birth on 3 with the Moore neighborhood: the next
/// generation is the grid itself.
pub proof fn lemma_block_still_life(g: Seq<Seq<u8>>, rule: Rule, a: int, b: int)
    requires
        is_grid(g),
        rule.survival@ == conway_survival(),
        rule.birth@ == conway_birth(),
        rule.state >= 1,
        rule.neighbor == NeighborRule::Moore,
        0 <= a && a + 1 < g.len(),
        0 <= b && b + 1 < g[0].len(),
        forall|x: int, y: int|
            0 <= x < g.len() && 0 <= y < g[x].len() ==> #[trigger] g[x][y] == if in_block(a, b, x, y) {
                rule.state
            } else {
                0u8
            },
    ensures
        next_generation(g, rule) == g,
{
    let n = next_generation(g, rule);
    let s = rule.state;
    assert forall|x: int, y: int| 0 <= x < g.len() && 0 <= y < g[x].len() implies #[trigger] n[x][y]
        == g[x][y] by {
        assert forall|i: int, j: int| #[trigger] alive(g, s, i, j) == (if in_block(a, b, i, j) {
            1nat
        } else {
            0nat
        }) by {
            if 0 <= i < g.len() {
                assert(g[i].len() == g[0].len());
            }
        }
        let c = neighbor_count(g, rule, x, y);
        if in_block(a, b, x, y) {
            assert(c == 3);
        } else {
            assert(c <= 2);
        }
    }
    assert forall|x: int| 0 <= x < g.len() implies #[trigger] n[x] == g[x] by {
        assert(n[x] =~= g[x]);
    }
    assert(n =~= g);
}

} // verus!
