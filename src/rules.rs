//! Rules, rule lists and rule sets: what a manual says and how it is read.
use vstd::prelude::*;

use crate::edgework::Edgework;
use crate::small_vec::{QueryVec, RuleVec};
use crate::wires::{Color, Query, Solution, WireQuery, WireQueryType};

verus! {

/// Whether `{x, y}` is the unordered pair `{p, q}`.
pub open spec fn is_pair(x: WireQueryType, y: WireQueryType, p: WireQueryType, q: WireQueryType) -> bool {
    (x == p && y == q) || (x == q && y == p)
}

/// Pairs of kinds that make a rule redundant when both conditions name the same color.
pub open spec fn same_color_redundant(x: WireQueryType, y: WireQueryType) -> bool {
    ||| is_pair(x, y, WireQueryType::ExactlyOneOfColor, WireQueryType::ExactlyZeroOfColor)
    ||| is_pair(x, y, WireQueryType::ExactlyOneOfColor, WireQueryType::MoreThanOneOfColor)
    ||| is_pair(x, y, WireQueryType::MoreThanOneOfColor, WireQueryType::ExactlyZeroOfColor)
    ||| is_pair(x, y, WireQueryType::LastWireIs, WireQueryType::ExactlyZeroOfColor)
}

/// Whether two wire conditions together make a redundant or impossible rule.
pub open spec fn redundant_pair(a: WireQuery, b: WireQuery) -> bool {
    if a.color == b.color {
        same_color_redundant(a.query_type, b.query_type)
    } else {
        a.query_type == WireQueryType::LastWireIs && b.query_type == WireQueryType::LastWireIs
    }
}

/// Whether a rule with the conditions `queries` is accepted: only a pair of wire conditions
/// can be rejected.
pub open spec fn valid_queries(queries: Seq<Query>) -> bool {
    queries.len() < 2 || !(queries[0] matches Query::Wire(a) && queries[1] matches Query::Wire(b)
        && redundant_pair(a, b))
}

/// A single sentence of the manual: if all `queries` hold, `solution` applies (unless an
/// earlier rule applies first).
#[derive(Debug, PartialEq, Eq)]
pub struct Rule {
    pub queries: QueryVec,
    pub solution: Solution,
}

impl Rule {
    /// A rule with the conditions `queries`, in order, and the solution `solution`.
    pub fn new(queries: Vec<Query>, solution: Solution) -> (r: Rule)
        ensures
            r.queries@ == queries@,
            r.solution == solution,
    {
        let mut held = QueryVec::empty();
        let mut i: usize = 0;
        while i < queries.len()
            invariant
                i <= queries@.len(),
                held@ == queries@.subrange(0, i as int),
            decreases queries@.len() - i,
        {
            held.push(queries[i]);
            i += 1;
            assert(held@ =~= queries@.subrange(0, i as int));
        }
        assert(queries@.subrange(0, i as int) =~= queries@);
        Rule { queries: held, solution }
    }

    /// The number of conditions.
    pub fn query_count(&self) -> (r: usize)
        ensures
            r == self.queries@.len(),
    {
        self.queries.len()
    }

    /// The condition at position `i`.
    pub fn query(&self, i: usize) -> (r: Query)
        requires
            i < self.queries@.len(),
        ensures
            r == self.queries@[i as int],
    {
        *self.queries.get(i)
    }

    /// Whether every condition holds of the bomb.
    pub open spec fn holds(self, edgework: Edgework, wires: Seq<Color>) -> bool {
        forall|i: int|
            0 <= i < self.queries@.len() ==> (#[trigger] self.queries@[i]).holds(edgework, wires)
    }

    /// Evaluates whether the rule applies to the bomb.
    pub fn evaluate(&self, edgework: &Edgework, wires: &[Color]) -> (r: bool)
        ensures
            r == self.holds(*edgework, wires@),
    {
        let n = self.queries.len();
        let mut i: usize = 0;
        while i < n
            invariant
                n == self.queries@.len(),
                i <= n,
                forall|j: int| 0 <= j < i ==> (#[trigger] self.queries@[j]).holds(*edgework, wires@),
            decreases n - i,
        {
            if !self.queries.get(i).evaluate(edgework, wires) {
                return false;
            }
            i += 1;
        }
        true
    }

    /// Whether the rule is free of redundancy: a single condition always is; two wire
    /// conditions are not when they cannot add information to each other or cannot both hold.
    pub fn is_valid(&self) -> (r: bool)
        ensures
            r == valid_queries(self.queries@),
    {
        // A single query can never be redundant.
        if self.queries.len() < 2 {
            return true;
        }
        if let Query::Wire(first) = *self.queries.get(0) {
            if let Query::Wire(second) = *self.queries.get(1) {
                if first.color == second.color {
                    let pairs = vec![
                        (WireQueryType::ExactlyOneOfColor, WireQueryType::ExactlyZeroOfColor),
                        (WireQueryType::ExactlyOneOfColor, WireQueryType::MoreThanOneOfColor),
                        (WireQueryType::MoreThanOneOfColor, WireQueryType::ExactlyZeroOfColor),
                        (WireQueryType::LastWireIs, WireQueryType::ExactlyZeroOfColor),
                    ];
                    let x = first.query_type;
                    let y = second.query_type;
                    let mut i: usize = 0;
                    while i < pairs.len()
                        invariant
                            i <= pairs@.len(),
                            2 <= self.queries@.len(),
                            self.queries@[0] == Query::Wire(first),
                            self.queries@[1] == Query::Wire(second),
                            first.color == second.color,
                            x == first.query_type,
                            y == second.query_type,
                            pairs@.len() == 4,
                            pairs@[0] == (
                                WireQueryType::ExactlyOneOfColor,
                                WireQueryType::ExactlyZeroOfColor,
                            ),
                            pairs@[1] == (
                                WireQueryType::ExactlyOneOfColor,
                                WireQueryType::MoreThanOneOfColor,
                            ),
                            pairs@[2] == (
                                WireQueryType::MoreThanOneOfColor,
                                WireQueryType::ExactlyZeroOfColor,
                            ),
                            pairs@[3] == (WireQueryType::LastWireIs, WireQueryType::ExactlyZeroOfColor),
                            forall|j: int|
                                0 <= j < i ==> !is_pair(x, y, #[trigger] pairs@[j].0, pairs@[j].1),
                        decreases pairs@.len() - i,
                    {
                        let (p, q) = pairs[i];
                        if (x == p && y == q) || (x == q && y == p) {
                            assert(i == 0 || i == 1 || i == 2 || i == 3);
                            return false;
                        }
                        i += 1;
                    }
                    assert(!is_pair(x, y, pairs@[0].0, pairs@[0].1));
                    assert(!is_pair(x, y, pairs@[1].0, pairs@[1].1));
                    assert(!is_pair(x, y, pairs@[2].0, pairs@[2].1));
                    assert(!is_pair(x, y, pairs@[3].0, pairs@[3].1));
                } else {
                    if first.query_type == WireQueryType::LastWireIs && second.query_type
                        == WireQueryType::LastWireIs {
                        return false;
                    }
                }
            }
        }
        true
    }
}

/// What the rules from position `i` on, then the fallback, say for the bomb: the solution of
/// the first rule that holds, or `otherwise` when none does.
pub open spec fn outcome_from(
    rules: Seq<Rule>,
    i: int,
    otherwise: Solution,
    edgework: Edgework,
    wires: Seq<Color>,
) -> Solution
    decreases rules.len() - i,
{
    if i < 0 || i >= rules.len() {
        otherwise
    } else if rules[i].holds(edgework, wires) {
        rules[i].solution
    } else {
        outcome_from(rules, i + 1, otherwise, edgework, wires)
    }
}

/// The rules for one wire count.
#[derive(Debug, PartialEq, Eq)]
pub struct RuleList {
    pub rules: RuleVec,
    /// The solution in case none of the rules applies.
    pub otherwise: Solution,
}

impl RuleList {
    /// A list of `rules`, in order, with the fallback `otherwise`.
    pub fn new(rules: Vec<Rule>, otherwise: Solution) -> (r: RuleList)
        ensures
            r.rules@ == rules@,
            r.otherwise == otherwise,
    {
        let mut rules = rules;
        let mut held = RuleVec::empty();
        let ghost all = rules@;
        let total = rules.len();
        while rules.len() > 0
            invariant
                all == held@ + rules@,
                total == all.len(),
            decreases rules@.len(),
        {
            let r = rules.remove(0);
            held.push(r);
            assert(all =~= held@ + rules@);
        }
        assert(all =~= held@);
        RuleList { rules: held, otherwise }
    }

    /// The number of rules.
    pub fn rule_count(&self) -> (r: usize)
        ensures
            r == self.rules@.len(),
    {
        self.rules.len()
    }

    /// The rule at position `i`.
    pub fn rule(&self, i: usize) -> (r: &Rule)
        requires
            i < self.rules@.len(),
        ensures
            *r == self.rules@[i as int],
    {
        self.rules.get(i)
    }

    /// What the list says for the bomb.
    pub open spec fn outcome(self, edgework: Edgework, wires: Seq<Color>) -> Solution {
        outcome_from(self.rules@, 0, self.otherwise, edgework, wires)
    }

    /// The solution of the first rule that applies to the bomb, or the fallback.
    pub fn evaluate(&self, edgework: &Edgework, wires: &[Color]) -> (r: Solution)
        ensures
            r == self.outcome(*edgework, wires@),
    {
        let n = self.rules.len();
        let mut i: usize = 0;
        while i < n
            invariant
                n == self.rules@.len(),
                i <= n,
                self.outcome(*edgework, wires@) == outcome_from(
                    self.rules@,
                    i as int,
                    self.otherwise,
                    *edgework,
                    wires@,
                ),
            decreases n - i,
        {
            let rule = self.rules.get(i);
            if rule.evaluate(edgework, wires) {
                return rule.solution;
            }
            i += 1;
        }
        self.otherwise
    }
}

/// The smallest wire count a module can have.
pub const MIN_WIRES: usize = 3;

/// The largest wire count a module can have.
pub const MAX_WIRES: usize = 6;

/// A full rule set: one rule list for each wire count from `MIN_WIRES` to `MAX_WIRES`.
#[derive(Debug, PartialEq, Eq)]
pub struct RuleSet([RuleList; 4]);

impl RuleSet {
    /// The rule lists, for wire counts `MIN_WIRES` upward.
    pub closed spec fn lists(self) -> Seq<RuleList> {
        self.0@
    }

    /// A rule set holds one list for each wire count.
    pub proof fn lemma_list_count(self)
        ensures
            self.lists().len() == MAX_WIRES - MIN_WIRES + 1,
    {
    }

    /// The rule list for `wire_count` wires.
    pub open spec fn list_for(self, wire_count: int) -> RuleList {
        self.lists()[wire_count - MIN_WIRES]
    }

    /// The rule set made of the lists for three, four, five and six wires.
    pub(crate) fn from_lists(
        three: RuleList,
        four: RuleList,
        five: RuleList,
        six: RuleList,
    ) -> (r: RuleSet)
        ensures
            r.lists() == seq![three, four, five, six],
    {
        let r = RuleSet([three, four, five, six]);
        assert(r.lists() =~= seq![three, four, five, six]);
        r
    }

    /// If `wire_count` is a possible wire count, the rules for that wire count.
    pub fn get(&self, wire_count: usize) -> (r: Option<&RuleList>)
        ensures
            r is Some <==> MIN_WIRES <= wire_count <= MAX_WIRES,
            r matches Some(list) ==> *list == self.list_for(wire_count as int),
    {
        if MIN_WIRES <= wire_count && wire_count <= MAX_WIRES {
            Some(&self.0[wire_count - MIN_WIRES])
        } else {
            None
        }
    }

    /// If `wire_count` is a possible wire count, the rules for that wire count, to change.
    pub fn get_mut(&mut self, wire_count: usize) -> (r: Option<&mut RuleList>)
        ensures
            r is Some <==> MIN_WIRES <= wire_count <= MAX_WIRES,
            r matches Some(list) ==> *list == old(self).list_for(wire_count as int)
                && final(self).lists() == old(self).lists().update(
                wire_count - MIN_WIRES,
                *final(list),
            ),
            r is None ==> *final(self) == *old(self),
    {
        if MIN_WIRES <= wire_count && wire_count <= MAX_WIRES {
            Some(&mut self.0[wire_count - MIN_WIRES])
        } else {
            None
        }
    }

    /// The solution for a module with the wire colors `wires`, first to last.
    pub fn evaluate(&self, edgework: &Edgework, wires: &[Color]) -> (r: Solution)
        requires
            MIN_WIRES <= wires@.len() <= MAX_WIRES,
        ensures
            r == self.list_for(wires@.len() as int).outcome(*edgework, wires@),
    {
        self.0[wires.len() - MIN_WIRES].evaluate(edgework, wires)
    }
}

} // verus!
