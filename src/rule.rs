//! The rule of a life-like automaton: which neighbor counts keep a cell
//! alive, which bring a dead cell to life, how many generations a cell
//! takes to decay, and which cells count as neighbors.
use crate::text::{lower_of, lowercase, same_text};
use vstd::prelude::*;

verus! {

/// Which cells around a cell count as its neighbors.
#[derive(Clone, Copy, Debug, PartialEq, Eq, Structural)]
pub enum NeighborRule {
    /// The eight cells of the surrounding 3x3 block.
    Moore,
    /// The four axis-adjacent cells.
    VonNeumann,
}

/// The neighborhood that a lower-case name stands for.
pub open spec fn neighbor_rule_named(name: Seq<char>) -> Option<NeighborRule> {
    if name == "m"@ || name == "moore"@ {
        Some(NeighborRule::Moore)
    } else if name == "v"@ || name == "vn"@ || name == "vonneumann"@ {
        Some(NeighborRule::VonNeumann)
    } else {
        None
    }
}

impl NeighborRule {
    /// The neighborhood named by `name`, already in lower case.
    pub fn from_lowercase(name: &str) -> (r: Option<NeighborRule>)
        ensures
            r == neighbor_rule_named(name@),
    {
        if same_text(name, "m") || same_text(name, "moore") {
            Some(NeighborRule::Moore)
        } else if same_text(name, "v") || same_text(name, "vn") || same_text(name, "vonneumann") {
            Some(NeighborRule::VonNeumann)
        } else {
            None
        }
    }

    /// The neighborhood named by `input`, in any case.
    pub fn parse(input: &str) -> (r: Result<NeighborRule, ()>)
        ensures
            r == match neighbor_rule_named(lower_of(input@)) {
                Some(n) => Ok::<NeighborRule, ()>(n),
                None => Err(()),
            },
    {
        let lower = lowercase(input);
        match NeighborRule::from_lowercase(lower.as_str()) {
            Some(n) => Ok(n),
            None => Err(()),
        }
    }

    /// The display name.
    pub fn name(&self) -> (r: String)
        ensures
            r@ == match self {
                NeighborRule::Moore => "Moore"@,
                NeighborRule::VonNeumann => "von Neumann"@,
            },
    {
        match self {
            NeighborRule::Moore => "Moore".to_owned(),
            NeighborRule::VonNeumann => "von Neumann".to_owned(),
        }
    }
}

impl std::str::FromStr for NeighborRule {
    type Err = ();

    fn from_str(input: &str) -> Result<NeighborRule, ()> {
        NeighborRule::parse(input)
    }
}

/// The largest neighbor count that a rule may name under each neighborhood.
pub open spec fn max_count(n: NeighborRule) -> int {
    match n {
        NeighborRule::Moore => 8,
        NeighborRule::VonNeumann => 4,
    }
}

/// Convenient ways of naming a set of neighbor counts.
pub enum LifeRule<'a> {
    /// A single count.
    One(usize),
    /// The counts of a half-open range.
    Range(std::ops::Range<usize>),
    /// The counts listed.
    Numbers(&'a [usize]),
    /// A mask: index is the count, value whether it is named.
    Raw([bool; 9]),
}

/// Whether `n` occurs in `ns`.
pub open spec fn lists(ns: Seq<usize>, n: int) -> bool {
    exists|i: int| 0 <= i < ns.len() && ns[i] == n
}

impl<'a> LifeRule<'a> {
    /// Whether the count `n` is named by this form.
    pub open spec fn names(self, n: int) -> bool {
        match self {
            LifeRule::One(k) => n == k,
            LifeRule::Range(r) => r.start <= n < r.end,
            LifeRule::Numbers(ns) => lists(ns@, n),
            LifeRule::Raw(m) => 0 <= n < 9 && m@[n],
        }
    }

    /// Every count named lies in `0..=8`.
    pub open spec fn in_range(self) -> bool {
        forall|n: int| #[trigger] self.names(n) ==> 0 <= n <= 8
    }

    /// The canonical nine-entry mask of the named counts.
    pub open spec fn mask(self) -> Seq<bool> {
        Seq::new(9, |i: int| self.names(i))
    }

    /// Returns the nine-entry mask, or `None` when a named count exceeds 8.
    pub fn into_array(self) -> (r: Option<[bool; 9]>)
        ensures
            r.is_some() == self.in_range(),
            r matches Some(a) ==> a@ == self.mask(),
    {
        let mut mask = [false; 9];
        match self {
            LifeRule::One(one) => {
                if one > 8 {
                    assert(self.names(one as int));
                    return None;
                }
                mask[one] = true;
                assert(mask@ =~= self.mask());
            },
            LifeRule::Range(range) => {
                if range.start < range.end && range.end > 9 {
                    assert(self.names(range.end - 1));
                    return None;
                }
                let mut i: usize = range.start;
                while i < range.end
                    invariant
                        self == LifeRule::Range(range),
                        range.start <= i,
                        range.start >= range.end ==> i == range.start,
                        range.start < range.end ==> i <= range.end <= 9,
                        forall|k: int| 0 <= k < 9 ==> mask@[k] == (range.start <= k < i),
                    decreases range.end - i,
                {
                    mask[i] = true;
                    i = i + 1;
                }
                assert(mask@ =~= self.mask());
            },
            LifeRule::Numbers(numbers) => {
                let mut i: usize = 0;
                while i < numbers.len()
                    invariant
                        self == LifeRule::Numbers(numbers),
                        i <= numbers@.len(),
                        forall|j: int| 0 <= j < i ==> numbers@[j] <= 8,
                        forall|k: int|
                            0 <= k < 9 ==> mask@[k] == (exists|j: int|
                                0 <= j < i && numbers@[j] == k),
                    decreases numbers@.len() - i,
                {
                    let n = numbers[i];
                    if n > 8 {
                        assert(numbers@[i as int] == n);
                        assert(lists(numbers@, n as int));
                        assert(self.names(n as int));
                        return None;
                    }
                    mask[n] = true;
                    proof {
                        assert forall|k: int| 0 <= k < 9 implies mask@[k] == (exists|j: int|
                            0 <= j < i + 1 && numbers@[j] == k) by {
                            if k == n {
                                assert(numbers@[i as int] == k);
                            } else if mask@[k] {
                                let j = choose|j: int| 0 <= j < i && numbers@[j] == k;
                                assert(0 <= j < i + 1 && numbers@[j] == k);
                            }
                        }
                    }
                    i = i + 1;
                }
                assert(mask@ =~= self.mask());
            },
            LifeRule::Raw(array) => {
                mask = array;
                assert(mask@ =~= self.mask());
            },
        }
        Some(mask)
    }
}

/// Why a rule was refused.
#[derive(Clone, Copy, Debug, PartialEq, Eq, Structural)]
pub enum InvalidRuleError {
    /// The alive state must be at least 1.
    ZeroState,
    /// A survival or birth count exceeds 8.
    CountOutOfRange,
    /// A von Neumann rule names a count above 4, which that neighborhood never reaches.
    CountAboveNeighborhood,
}

/// Rule of a life-like automaton.
/// - `survival[c]`: an alive cell with `c` alive neighbors stays alive
/// - `birth[c]`: a dead cell with `c` alive neighbors becomes alive
/// - `state`: the alive state, and the number of generations a cell takes to die
/// - `neighbor`: which cells count as neighbors
#[derive(Clone, Copy, Debug)]
pub struct Rule {
    pub survival: [bool; 9],
    pub birth: [bool; 9],
    pub state: u8,
    pub neighbor: NeighborRule,
}

/// No count above `bound` is set in the mask.
pub open spec fn mask_within(mask: Seq<bool>, bound: int) -> bool {
    forall|c: int| bound < c < mask.len() ==> !#[trigger] mask[c]
}

/// Whether no count above `bound` is set in the mask.
fn within(mask: &[bool; 9], bound: usize) -> (r: bool)
    requires
        bound <= 8,
    ensures
        r == mask_within(mask@, bound as int),
{
    let mut c: usize = bound + 1;
    while c < 9
        invariant
            bound < c <= 9,
            forall|k: int| bound < k < c ==> !mask@[k],
        decreases 9 - c,
    {
        if mask[c] {
            return false;
        }
        c = c + 1;
    }
    true
}

impl Rule {
    /// A rule as `Rule::new` builds it.
    pub open spec fn wf(self) -> bool {
        &&& self.state >= 1
        &&& mask_within(self.survival@, max_count(self.neighbor))
        &&& mask_within(self.birth@, max_count(self.neighbor))
    }

    /// Builds a rule from two count forms, the alive state and the neighborhood.
    pub fn new(survival: LifeRule, birth: LifeRule, state: u8, neighbor: NeighborRule) -> (r: Result<
        Self,
        InvalidRuleError,
    >)
        ensures
            r == Err::<Rule, InvalidRuleError>(InvalidRuleError::ZeroState) <==> state == 0,
            r == Err::<Rule, InvalidRuleError>(InvalidRuleError::CountOutOfRange) <==> state != 0
                && !(survival.in_range() && birth.in_range()),
            r == Err::<Rule, InvalidRuleError>(InvalidRuleError::CountAboveNeighborhood) <==> state
                != 0 && survival.in_range() && birth.in_range() && !(mask_within(
                survival.mask(),
                max_count(neighbor),
            ) && mask_within(birth.mask(), max_count(neighbor))),
            r is Ok <==> state != 0 && survival.in_range() && birth.in_range() && mask_within(
                survival.mask(),
                max_count(neighbor),
            ) && mask_within(birth.mask(), max_count(neighbor)),
            r matches Ok(rule) ==> {
                &&& rule.wf()
                &&& rule.survival@ == survival.mask()
                &&& rule.birth@ == birth.mask()
                &&& rule.state == state
                &&& rule.neighbor == neighbor
            },
    {
        if state == 0 {
            return Err(InvalidRuleError::ZeroState);
        }
        let survival = match survival.into_array() {
            Some(a) => a,
            None => return Err(InvalidRuleError::CountOutOfRange),
        };
        let birth = match birth.into_array() {
            Some(a) => a,
            None => return Err(InvalidRuleError::CountOutOfRange),
        };
        let bound: usize = match neighbor {
            NeighborRule::Moore => 8,
            NeighborRule::VonNeumann => 4,
        };
        if !within(&survival, bound) || !within(&birth, bound) {
            return Err(InvalidRuleError::CountAboveNeighborhood);
        }
        Ok(Rule { survival, birth, state, neighbor })
    }
}

impl Default for Rule {
    /// Conway's rule: survival on 2 or 3, birth on 3, two states, Moore neighborhood.
    fn default() -> (r: Self)
        ensures
            r.wf(),
            r.survival@ == seq![false, false, true, true, false, false, false, false, false],
            r.birth@ == seq![false, false, false, true, false, false, false, false, false],
            r.state == 1,
            r.neighbor == NeighborRule::Moore,
    {
        let r = Rule {
            survival: [false, false, true, true, false, false, false, false, false],
            birth: [false, false, false, true, false, false, false, false, false],
            state: 1,
            neighbor: NeighborRule::Moore,
        };
        assert(r.survival@ =~= seq![false, false, true, true, false, false, false, false, false]);
        assert(r.birth@ =~= seq![false, false, false, true, false, false, false, false, false]);
        r
    }
}

} // verus!
