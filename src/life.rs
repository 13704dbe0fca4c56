//! What one generation of the automaton does to a grid: neighbor counts
//! with open borders, and the birth, survival and decay of each cell.
use crate::grid::{columns, is_grid};
use crate::rule::{NeighborRule, Rule};
use vstd::prelude::*;

verus! {

/// 1 when `(x, y)` lies in the grid and holds the alive state, else 0.
/// A position outside the grid contributes nothing.
pub open spec fn alive(g: Seq<Seq<u8>>, state: u8, x: int, y: int) -> nat {
    if 0 <= x < g.len() && 0 <= y < g[x].len() && g[x][y] == state {
        1
    } else {
        0
    }
}

/// Alive cells among the eight around `(x, y)`.
pub open spec fn moore_count(g: Seq<Seq<u8>>, state: u8, x: int, y: int) -> nat {
    alive(g, state, x - 1, y - 1) + alive(g, state, x - 1, y) + alive(g, state, x - 1, y + 1)
        + alive(g, state, x, y - 1) + alive(g, state, x, y + 1) + alive(g, state, x + 1, y - 1)
        + alive(g, state, x + 1, y) + alive(g, state, x + 1, y + 1)
}

/// Alive cells among the four axis-adjacent to `(x, y)`.
pub open spec fn von_neumann_count(g: Seq<Seq<u8>>, state: u8, x: int, y: int) -> nat {
    alive(g, state, x - 1, y) + alive(g, state, x + 1, y) + alive(g, state, x, y - 1) + alive(
        g,
        state,
        x,
        y + 1,
    )
}

/// The number of alive neighbors of `(x, y)` under the rule's neighborhood.
pub open spec fn neighbor_count(g: Seq<Seq<u8>>, rule: Rule, x: int, y: int) -> nat {
    match rule.neighbor {
        NeighborRule::Moore => moore_count(g, rule.state, x, y),
        NeighborRule::VonNeumann => von_neumann_count(g, rule.state, x, y),
    }
}

/// The next state of a cell in state `cur` with `count` alive neighbors:
/// alive when born or surviving, else one step closer to dead.
pub open spec fn next_state(cur: u8, count: nat, rule: Rule) -> u8 {
    if rule.birth@[count as int] || (cur == rule.state && rule.survival@[count as int]) {
        rule.state
    } else if cur > 0 {
        (cur - 1) as u8
    } else {
        0
    }
}

/// The next generation of `g`: each cell from the previous generation alone.
pub open spec fn next_generation(g: Seq<Seq<u8>>, rule: Rule) -> Seq<Seq<u8>> {
    Seq::new(
        g.len(),
        |x: int|
            Seq::new(g[x].len(), |y: int| next_state(g[x][y], neighbor_count(g, rule, x, y), rule)),
    )
}

/// Every cell moved to its next state, given the neighbor count of each cell.
pub open spec fn apply_counts(g: Seq<Seq<u8>>, counts: Seq<Seq<usize>>, rule: Rule) -> Seq<
    Seq<u8>,
> {
    Seq::new(
        g.len(),
        |x: int| Seq::new(g[x].len(), |y: int| next_state(g[x][y], counts[x][y] as nat, rule)),
    )
}

/// `counts` has the shape of `g` and holds possible neighbor counts.
pub open spec fn counts_fit(g: Seq<Seq<u8>>, counts: Seq<Seq<usize>>) -> bool {
    &&& counts.len() == g.len()
    &&& forall|x: int| 0 <= x < g.len() ==> #[trigger] counts[x].len() == g[x].len()
    &&& forall|x: int, y: int|
        0 <= x < g.len() && 0 <= y < g[x].len() ==> #[trigger] counts[x][y] <= 8
}

/// `g` after `n` generations.
pub open spec fn generations(g: Seq<Seq<u8>>, rule: Rule, n: nat) -> Seq<Seq<u8>>
    decreases n,
{
    if n == 0 {
        g
    } else {
        next_generation(generations(g, rule, (n - 1) as nat), rule)
    }
}

/// 1 when `(x, y)` lies in the grid and holds `state`, else 0.
fn alive_at(cols: &Vec<Vec<u8>>, state: u8, x: usize, y: usize) -> (r: usize)
    requires
        is_grid(columns(cols@)),
    ensures
        r == alive(columns(cols@), state, x as int, y as int),
{
    if x < cols.len() && y < cols[x].len() && cols[x][y] == state {
        1
    } else {
        0
    }
}

/// The number of alive neighbors of `(x, y)`, borders open.
pub(crate) fn count_neighbors(cols: &Vec<Vec<u8>>, rule: &Rule, x: usize, y: usize) -> (r: usize)
    requires
        is_grid(columns(cols@)),
        x < cols@.len(),
        y < cols@[0]@.len(),
    ensures
        r == neighbor_count(columns(cols@), *rule, x as int, y as int),
        r <= 8,
{
    let numx = cols.len();
    let numy = cols[0].len();
    assert(x + 1 <= numx && y + 1 <= numy);
    let state = rule.state;
    let mut sum: usize = 0;
    if x > 0 {
        sum = sum + alive_at(cols, state, x - 1, y);
    }
    sum = sum + alive_at(cols, state, x + 1, y);
    if y > 0 {
        sum = sum + alive_at(cols, state, x, y - 1);
    }
    sum = sum + alive_at(cols, state, x, y + 1);
    match rule.neighbor {
        NeighborRule::Moore => {
            if x > 0 {
                if y > 0 {
                    sum = sum + alive_at(cols, state, x - 1, y - 1);
                }
                sum = sum + alive_at(cols, state, x - 1, y + 1);
            }
            if y > 0 {
                sum = sum + alive_at(cols, state, x + 1, y - 1);
            }
            sum = sum + alive_at(cols, state, x + 1, y + 1);
        },
        NeighborRule::VonNeumann => {},
    }
    sum
}

/// The next state of a cell in state `cur` with `count` alive neighbors.
pub(crate) fn step_cell(cur: u8, count: usize, rule: &Rule) -> (r: u8)
    requires
        count <= 8,
    ensures
        r == next_state(cur, count as nat, *rule),
{
    if rule.birth[count] || (cur == rule.state && rule.survival[count]) {
        rule.state
    } else if cur > 0 {
        cur - 1
    } else {
        0
    }
}

/// The next generation, each cell counting its own neighbors.
pub(crate) fn next_columns(cols: &Vec<Vec<u8>>, rule: &Rule) -> (r: Vec<Vec<u8>>)
    requires
        is_grid(columns(cols@)),
    ensures
        columns(r@) == next_generation(columns(cols@), *rule),
        is_grid(columns(r@)),
{
    let ghost g = columns(cols@);
    let ghost target = next_generation(g, *rule);
    let numx = cols.len();
    let numy = cols[0].len();
    let mut next: Vec<Vec<u8>> = Vec::new();
    let mut x: usize = 0;
    while x < numx
        invariant
            g == columns(cols@),
            is_grid(g),
            target == next_generation(g, *rule),
            numx == g.len(),
            numy == g[0].len(),
            x <= numx,
            next@.len() == x,
            forall|i: int| 0 <= i < x ==> #[trigger] next@[i]@ == target[i],
        decreases numx - x,
    {
        assert(g[x as int].len() == numy);
        let mut column: Vec<u8> = Vec::new();
        let mut y: usize = 0;
        while y < numy
            invariant
                g == columns(cols@),
                is_grid(g),
                target == next_generation(g, *rule),
                numx == g.len(),
                numy == g[0].len(),
                x < numx,
                y <= numy,
                column@.len() == y,
                forall|j: int| 0 <= j < y ==> #[trigger] column@[j] == target[x as int][j],
            decreases numy - y,
        {
            assert(g[x as int].len() == numy);
            let count = count_neighbors(cols, rule, x, y);
            column.push(step_cell(cols[x][y], count, rule));
            y = y + 1;
        }
        assert(column@ =~= target[x as int]);
        next.push(column);
        x = x + 1;
    }
    assert(columns(next@) =~= target);
    next
}

/// Every cell moved to its next state, given each cell's neighbor count.
pub(crate) fn apply_count_columns(cols: &Vec<Vec<u8>>, counts: &Vec<Vec<usize>>, rule: &Rule) -> (r:
    Vec<Vec<u8>>)
    requires
        is_grid(columns(cols@)),
        counts_fit(columns(cols@), columns(counts@)),
    ensures
        columns(r@) == apply_counts(columns(cols@), columns(counts@), *rule),
        is_grid(columns(r@)),
{
    let ghost g = columns(cols@);
    let ghost c = columns(counts@);
    let ghost target = apply_counts(g, c, *rule);
    let numx = cols.len();
    let numy = cols[0].len();
    let mut next: Vec<Vec<u8>> = Vec::new();
    let mut x: usize = 0;
    while x < numx
        invariant
            g == columns(cols@),
            c == columns(counts@),
            is_grid(g),
            counts_fit(g, c),
            target == apply_counts(g, c, *rule),
            numx == g.len(),
            numy == g[0].len(),
            x <= numx,
            next@.len() == x,
            forall|i: int| 0 <= i < x ==> #[trigger] next@[i]@ == target[i],
        decreases numx - x,
    {
        assert(g[x as int].len() == numy);
        assert(c[x as int].len() == numy);
        let mut column: Vec<u8> = Vec::new();
        let mut y: usize = 0;
        while y < numy
            invariant
                g == columns(cols@),
                c == columns(counts@),
                is_grid(g),
                counts_fit(g, c),
                target == apply_counts(g, c, *rule),
                numx == g.len(),
                numy == g[0].len(),
                x < numx,
                y <= numy,
                column@.len() == y,
                forall|j: int| 0 <= j < y ==> #[trigger] column@[j] == target[x as int][j],
            decreases numy - y,
        {
            assert(g[x as int].len() == numy);
            assert(c[x as int].len() == numy);
            assert(c[x as int][y as int] <= 8);
            column.push(step_cell(cols[x][y], counts[x][y], rule));
            y = y + 1;
        }
        assert(column@ =~= target[x as int]);
        next.push(column);
        x = x + 1;
    }
    assert(columns(next@) =~= target);
    next
}

/// Whether `counts` has the shape of the grid and holds possible neighbor counts.
pub(crate) fn check_counts(cols: &Vec<Vec<u8>>, counts: &Vec<Vec<usize>>) -> (r: bool)
    requires
        is_grid(columns(cols@)),
    ensures
        r == counts_fit(columns(cols@), columns(counts@)),
{
    let ghost g = columns(cols@);
    let ghost c = columns(counts@);
    if counts.len() != cols.len() {
        return false;
    }
    let mut x: usize = 0;
    while x < cols.len()
        invariant
            g == columns(cols@),
            c == columns(counts@),
            c.len() == g.len(),
            x <= g.len(),
            forall|i: int| 0 <= i < x ==> #[trigger] c[i].len() == g[i].len(),
            forall|i: int, j: int| 0 <= i < x && 0 <= j < g[i].len() ==> #[trigger] c[i][j] <= 8,
        decreases g.len() - x,
    {
        if counts[x].len() != cols[x].len() {
            assert(c[x as int].len() != g[x as int].len());
            return false;
        }
        let mut y: usize = 0;
        while y < cols[x].len()
            invariant
                g == columns(cols@),
                c == columns(counts@),
                c.len() == g.len(),
                x < g.len(),
                c[x as int].len() == g[x as int].len(),
                y <= g[x as int].len(),
                forall|i: int| 0 <= i < x ==> #[trigger] c[i].len() == g[i].len(),
                forall|i: int, j: int|
                    0 <= i < x && 0 <= j < g[i].len() ==> #[trigger] c[i][j] <= 8,
                forall|j: int| 0 <= j < y ==> #[trigger] c[x as int][j] <= 8,
            decreases g[x as int].len() - y,
        {
            if counts[x][y] > 8 {
                assert(c[x as int][y as int] > 8);
                return false;
            }
            y = y + 1;
        }
        x = x + 1;
    }
    true
}

} // verus!
