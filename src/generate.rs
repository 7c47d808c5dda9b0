//! Seeded synthesis of rule lists: weighted, decaying selection of conditions and solutions,
//! with redundant rules rejected and drawn again.
use vstd::prelude::*;

use crate::edgework::PortType;
use crate::random::{SeededRandom, MAX_VALUE, VANILLA_SEED};
use crate::rules::{valid_queries, Rule, RuleList, RuleSet};
use crate::small_vec::RuleVec;
use crate::wires::{
    Color, EdgeworkQuery, Query, QueryWeightKey, Solution, SolutionWeightKey, WireQuery,
    WireQueryType,
};

verus! {

/// How many condition kinds carry a weight.
pub const QUERY_KEY_COUNT: usize = 13;

/// How many solution kinds carry a weight.
pub const SOLUTION_KEY_COUNT: usize = 9;

/// Each choice of a condition kind multiplies its weight by `1 / QUERY_DECAY_DIVISOR`.
pub const QUERY_DECAY_DIVISOR: u32 = 10;

/// Each choice of a solution kind multiplies its weight by `1 / SOLUTION_DECAY_DIVISOR`.
pub const SOLUTION_DECAY_DIVISOR: u32 = 20;

/// How many candidate rules one rule list may draw before generation gives up.
pub const MAX_ATTEMPTS: u64 = 18446744073709551615;

/// A decay count after one more decay; a weight that has decayed `u32::MAX` times is zero
/// in double precision long before, so the count stops there.
pub open spec fn bump(d: u32) -> u32 {
    if d < u32::MAX {
        (d + 1) as u32
    } else {
        d
    }
}

fn bumped(d: u32) -> (r: u32)
    ensures
        r == bump(d),
{
    if d < u32::MAX {
        d + 1
    } else {
        d
    }
}

impl Query {
    /// The kind of the condition, without its color.
    pub open spec fn weight_key(self) -> QueryWeightKey {
        match self {
            Query::Edgework(q) => QueryWeightKey::Edgework(q),
            Query::Wire(q) => QueryWeightKey::Wire(q.query_type),
        }
    }
}

impl From<Query> for QueryWeightKey {
    fn from(query: Query) -> (r: QueryWeightKey)
        ensures
            r == query.weight_key(),
    {
        match query {
            Query::Edgework(q) => QueryWeightKey::Edgework(q),
            Query::Wire(WireQuery { query_type, .. }) => QueryWeightKey::Wire(query_type),
        }
    }
}

impl vstd::std_specs::convert::FromSpecImpl<Query> for QueryWeightKey {
    open spec fn obeys_from_spec() -> bool {
        true
    }

    open spec fn from_spec(query: Query) -> QueryWeightKey {
        query.weight_key()
    }
}

impl PortType {
    /// The position of the port type in catalog order.
    pub open spec fn ordinal(self) -> int {
        match self {
            PortType::Serial => 0,
            PortType::Parallel => 1,
            PortType::DVI => 2,
            PortType::PS2 => 3,
            PortType::RJ45 => 4,
            PortType::StereoRCA => 5,
        }
    }
}

impl WireQueryType {
    /// The position of the kind in catalog order.
    pub open spec fn ordinal(self) -> int {
        match self {
            WireQueryType::ExactlyOneOfColor => 0,
            WireQueryType::ExactlyZeroOfColor => 1,
            WireQueryType::LastWireIs => 2,
            WireQueryType::MoreThanOneOfColor => 3,
        }
    }
}

impl QueryWeightKey {
    /// Where the key's weight is kept in a weight table.
    pub open spec fn spec_slot(self) -> int {
        match self {
            QueryWeightKey::Wire(t) => t.ordinal(),
            QueryWeightKey::Edgework(EdgeworkQuery::SerialStartsWithLetter) => 4,
            QueryWeightKey::Edgework(EdgeworkQuery::SerialOdd) => 5,
            QueryWeightKey::Edgework(EdgeworkQuery::HasEmptyPortPlate) => 6,
            QueryWeightKey::Edgework(EdgeworkQuery::PortPresent(p)) => 7 + p.ordinal(),
        }
    }

    /// Where the key's weight is kept in a weight table.
    pub fn slot(self) -> (r: usize)
        ensures
            r == self.spec_slot(),
            r < QUERY_KEY_COUNT,
    {
        match self {
            QueryWeightKey::Wire(t) => match t {
                WireQueryType::ExactlyOneOfColor => 0,
                WireQueryType::ExactlyZeroOfColor => 1,
                WireQueryType::LastWireIs => 2,
                WireQueryType::MoreThanOneOfColor => 3,
            },
            QueryWeightKey::Edgework(q) => match q {
                EdgeworkQuery::SerialStartsWithLetter => 4,
                EdgeworkQuery::SerialOdd => 5,
                EdgeworkQuery::HasEmptyPortPlate => 6,
                EdgeworkQuery::PortPresent(p) => match p {
                    PortType::Serial => 7,
                    PortType::Parallel => 8,
                    PortType::DVI => 9,
                    PortType::PS2 => 10,
                    PortType::RJ45 => 11,
                    PortType::StereoRCA => 12,
                },
            },
        }
    }

    /// Gives the condition kind a color, drawn from `colors_available` and removed from it;
    /// edgework conditions need none.
    fn colorize<R: SeededRandom>(self, random: &mut R, colors_available: &mut Vec<Color>) -> (r:
        Query)
        requires
            0 < old(colors_available)@.len() <= 5,
            old(colors_available)@.no_duplicates(),
        ensures
            r.weight_key() == self,
            final(colors_available)@.no_duplicates(),
            forall|c: Color| #[trigger]
                final(colors_available)@.contains(c) ==> old(colors_available)@.contains(c),
            r matches Query::Wire(q) ==> (exists|index: int|
                0 <= index < old(colors_available)@.len() && q.color == old(
                    colors_available,
                )@[index] && final(colors_available)@ == old(colors_available)@.remove(index))
                && !final(colors_available)@.contains(q.color) && final(colors_available)@.len()
                == old(colors_available)@.len() - 1,
            r is Edgework ==> final(colors_available)@ == old(colors_available)@,
    {
        match self {
            QueryWeightKey::Edgework(q) => Query::Edgework(q),
            QueryWeightKey::Wire(query_type) => Query::Wire(
                query_type.colorize(random, colors_available),
            ),
        }
    }
}

impl WireQueryType {
    /// Gives the condition kind a color, drawn uniformly from `colors_available` and removed
    /// from it.
    fn colorize<R: SeededRandom>(self, random: &mut R, colors_available: &mut Vec<Color>) -> (r:
        WireQuery)
        requires
            0 < old(colors_available)@.len() <= 5,
            old(colors_available)@.no_duplicates(),
        ensures
            r.query_type == self,
            exists|index: int|
                0 <= index < old(colors_available)@.len() && r.color == old(
                    colors_available,
                )@[index] && final(colors_available)@ == old(colors_available)@.remove(index),
            !final(colors_available)@.contains(r.color),
            final(colors_available)@.len() == old(colors_available)@.len() - 1,
            final(colors_available)@.no_duplicates(),
            forall|c: Color| #[trigger]
                final(colors_available)@.contains(c) ==> old(colors_available)@.contains(c),
    {
        let index = random.next_below(colors_available.len() as u32) as usize;
        self.with_color(index, colors_available)
    }

    /// Gives the condition kind the color at position `index` of `colors_available`, drawn
    /// there, and removes it.
    fn with_color(self, index: usize, colors_available: &mut Vec<Color>) -> (r: WireQuery)
        requires
            index < old(colors_available)@.len(),
            old(colors_available)@.no_duplicates(),
        ensures
            r.query_type == self,
            r.color == old(colors_available)@[index as int],
            final(colors_available)@ == old(colors_available)@.remove(index as int),
            !final(colors_available)@.contains(r.color),
            final(colors_available)@.len() == old(colors_available)@.len() - 1,
            final(colors_available)@.no_duplicates(),
            forall|c: Color| #[trigger]
                final(colors_available)@.contains(c) ==> old(colors_available)@.contains(c),
    {
        let ghost before = colors_available@;
        let color = colors_available.remove(index);
        proof {
            let after = colors_available@;
            assert(after =~= before.remove(index as int));
            assert(before[index as int] == color);
            assert forall|j: int| 0 <= j < after.len() implies after[j] != color by {
                if j < index {
                    assert(after[j] == before[j]);
                } else {
                    assert(after[j] == before[j + 1]);
                }
            }
            assert forall|c: Color| #[trigger] after.contains(c) implies before.contains(c) by {
                let j = choose|j: int| 0 <= j < after.len() && after[j] == c;
                if j < index {
                    assert(before[j] == c);
                } else {
                    assert(before[j + 1] == c);
                }
            }
            assert forall|i: int, j: int|
                0 <= i < after.len() && 0 <= j < after.len() && i != j implies after[i]
                != after[j] by {
                let bi = if i < index {
                    i
                } else {
                    i + 1
                };
                let bj = if j < index {
                    j
                } else {
                    j + 1
                };
                assert(before[bi] == after[i]);
                assert(before[bj] == after[j]);
            }
        }
        WireQuery { query_type: self, color }
    }
}

impl Solution {
    /// The kind of the solution, without its color.
    pub open spec fn weight_key(self) -> SolutionWeightKey {
        match self {
            Solution::Index(n) => SolutionWeightKey::Index(n),
            Solution::TheOneOfColor(_) => SolutionWeightKey::TheOneOfColor,
            Solution::FirstOfColor(_) => SolutionWeightKey::FirstOfColor,
            Solution::LastOfColor(_) => SolutionWeightKey::LastOfColor,
        }
    }

    /// The color the solution names, if any.
    pub open spec fn color(self) -> Option<Color> {
        match self {
            Solution::Index(_) => None,
            Solution::TheOneOfColor(c) => Some(c),
            Solution::FirstOfColor(c) => Some(c),
            Solution::LastOfColor(c) => Some(c),
        }
    }
}

impl From<Solution> for SolutionWeightKey {
    fn from(solution: Solution) -> (r: SolutionWeightKey)
        ensures
            r == solution.weight_key(),
    {
        match solution {
            Solution::Index(n) => SolutionWeightKey::Index(n),
            Solution::TheOneOfColor(_) => SolutionWeightKey::TheOneOfColor,
            Solution::FirstOfColor(_) => SolutionWeightKey::FirstOfColor,
            Solution::LastOfColor(_) => SolutionWeightKey::LastOfColor,
        }
    }
}

impl vstd::std_specs::convert::FromSpecImpl<Solution> for SolutionWeightKey {
    open spec fn obeys_from_spec() -> bool {
        true
    }

    open spec fn from_spec(solution: Solution) -> SolutionWeightKey {
        solution.weight_key()
    }
}

impl SolutionWeightKey {
    /// Where the key's weight is kept in a weight table.
    pub open spec fn spec_slot(self) -> int {
        match self {
            SolutionWeightKey::Index(n) => n as int,
            SolutionWeightKey::TheOneOfColor => 6,
            SolutionWeightKey::FirstOfColor => 7,
            SolutionWeightKey::LastOfColor => 8,
        }
    }

    /// Where the key's weight is kept in a weight table.
    pub fn slot(self) -> (r: usize)
        requires
            self matches SolutionWeightKey::Index(n) ==> n < 6,
        ensures
            r == self.spec_slot(),
            r < SOLUTION_KEY_COUNT,
    {
        match self {
            SolutionWeightKey::Index(n) => n as usize,
            SolutionWeightKey::TheOneOfColor => 6,
            SolutionWeightKey::FirstOfColor => 7,
            SolutionWeightKey::LastOfColor => 8,
        }
    }

    /// Gives the solution kind a color picked uniformly from `colors_available`; a pick is
    /// drawn even for a solution by position, which needs none.
    fn colorize<R: SeededRandom>(self, random: &mut R, colors_available: &Vec<Color>) -> (r:
        Solution)
        requires
            !(self is Index) ==> 0 < colors_available@.len(),
        ensures
            r.weight_key() == self,
            r.color() matches Some(c) ==> colors_available@.contains(c),
    {
        let picked = random.choice(colors_available.len());
        self.with_color(picked, colors_available)
    }

    /// The solution of this kind in the color `color`; a solution by position ignores it.
    pub open spec fn colored(self, color: Color) -> Solution {
        match self {
            SolutionWeightKey::Index(n) => Solution::Index(n),
            SolutionWeightKey::TheOneOfColor => Solution::TheOneOfColor(color),
            SolutionWeightKey::FirstOfColor => Solution::FirstOfColor(color),
            SolutionWeightKey::LastOfColor => Solution::LastOfColor(color),
        }
    }

    /// Gives the solution kind the color at position `picked` of `colors_available`, as
    /// drawn; a solution by position takes none.
    fn with_color(self, picked: Option<usize>, colors_available: &Vec<Color>) -> (r: Solution)
        requires
            picked matches Some(i) ==> i < colors_available@.len(),
            !(self is Index) ==> picked is Some,
        ensures
            self matches SolutionWeightKey::Index(n) ==> r == Solution::Index(n),
            !(self is Index) ==> r == self.colored(colors_available@[picked->Some_0 as int]),
            r.weight_key() == self,
            r.color() matches Some(c) ==> colors_available@.contains(c),
    {
        let color = match picked {
            Some(i) => Some(colors_available[i]),
            None => None,
        };
        match self {
            SolutionWeightKey::Index(n) => Solution::Index(n),
            SolutionWeightKey::TheOneOfColor => Solution::TheOneOfColor(color.unwrap()),
            SolutionWeightKey::FirstOfColor => Solution::FirstOfColor(color.unwrap()),
            SolutionWeightKey::LastOfColor => Solution::LastOfColor(color.unwrap()),
        }
    }
}

/// The solutions by position that every rule of a list for `wire_count` wires may use: the
/// first, the second, the last, then the ones between, in order.
pub open spec fn base_solutions(wire_count: int) -> Seq<SolutionWeightKey> {
    seq![
        SolutionWeightKey::Index(0),
        SolutionWeightKey::Index(1),
        SolutionWeightKey::Index((wire_count - 1) as u8),
    ] + Seq::new((wire_count - 3) as nat, |i: int| SolutionWeightKey::Index((i + 2) as u8))
}

/// The solution kinds that the conditions `queries` add, in order.
pub open spec fn extra_solutions_of(queries: Seq<Query>) -> Seq<SolutionWeightKey>
    decreases queries.len(),
{
    if queries.len() == 0 {
        seq![]
    } else {
        extra_solutions_of(queries.drop_last()) + queries.last().extra_solutions()
    }
}

/// The solution kinds a rule with the conditions `queries` may use.
pub open spec fn candidate_solutions(queries: Seq<Query>, wire_count: int) -> Seq<
    SolutionWeightKey,
> {
    base_solutions(wire_count) + extra_solutions_of(queries)
}

/// The colors the conditions `queries` offer to a colored solution, in order.
pub open spec fn offered_colors(queries: Seq<Query>) -> Seq<Color>
    decreases queries.len(),
{
    if queries.len() == 0 {
        seq![]
    } else {
        offered_colors(queries.drop_last()) + match queries.last().offered_color() {
            Some(c) => seq![c],
            None => seq![],
        }
    }
}

/// Added solution kinds are never by position, and come only with an offered color.
proof fn lemma_extra_solutions(queries: Seq<Query>, k: SolutionWeightKey)
    requires
        extra_solutions_of(queries).contains(k),
    ensures
        !(k is Index),
        0 < offered_colors(queries).len(),
    decreases queries.len(),
{
    let init = queries.drop_last();
    let last = queries.last();
    let j = choose|j: int|
        0 <= j < extra_solutions_of(queries).len() && extra_solutions_of(queries)[j] == k;
    if j < extra_solutions_of(init).len() {
        assert(extra_solutions_of(init)[j] == k);
        lemma_extra_solutions(init, k);
    } else {
        assert(last.extra_solutions().contains(k));
        assert(last.offered_color() is Some);
    }
}

/// A candidate solution by position names a wire that exists.
proof fn lemma_candidate_index(queries: Seq<Query>, wire_count: int, n: u8)
    requires
        3 <= wire_count <= 6,
        candidate_solutions(queries, wire_count).contains(SolutionWeightKey::Index(n)),
    ensures
        n < wire_count,
{
    let all = candidate_solutions(queries, wire_count);
    let base = base_solutions(wire_count);
    let j = choose|j: int| 0 <= j < all.len() && all[j] == SolutionWeightKey::Index(n);
    if j >= base.len() {
        assert(extra_solutions_of(queries)[j - base.len()] == SolutionWeightKey::Index(n));
        lemma_extra_solutions(queries, SolutionWeightKey::Index(n));
    }
}

/// The candidate solutions for a rule with the conditions `queries` on `wire_count` wires.
fn possible_solutions(queries: &Vec<Query>, wire_count: usize) -> (r: Vec<SolutionWeightKey>)
    requires
        3 <= wire_count <= 6,
        queries@.len() <= 2,
    ensures
        r@ == candidate_solutions(queries@, wire_count as int),
        r@.len() <= 10,
{
    let wire_count = wire_count as u8;
    let mut solutions = vec![
        SolutionWeightKey::Index(0),
        SolutionWeightKey::Index(1),
        SolutionWeightKey::Index(wire_count - 1),
    ];
    let mut i: u8 = 2;
    while i < wire_count - 1
        invariant
            3 <= wire_count <= 6,
            2 <= i <= wire_count - 1,
            solutions@ == seq![
                SolutionWeightKey::Index(0),
                SolutionWeightKey::Index(1),
                SolutionWeightKey::Index((wire_count - 1) as u8),
            ] + Seq::new((i - 2) as nat, |k: int| SolutionWeightKey::Index((k + 2) as u8)),
        decreases wire_count - i,
    {
        solutions.push(SolutionWeightKey::Index(i));
        i += 1;
        assert(solutions@ =~= seq![
            SolutionWeightKey::Index(0),
            SolutionWeightKey::Index(1),
            SolutionWeightKey::Index((wire_count - 1) as u8),
        ] + Seq::new((i - 2) as nat, |k: int| SolutionWeightKey::Index((k + 2) as u8)));
    }
    assert(solutions@ =~= base_solutions(wire_count as int));
    let mut j: usize = 0;
    while j < queries.len()
        invariant
            3 <= wire_count <= 6,
            j <= queries@.len() <= 2,
            solutions@ == base_solutions(wire_count as int) + extra_solutions_of(
                queries@.subrange(0, j as int),
            ),
            solutions@.len() <= wire_count + 2 * j,
        decreases queries@.len() - j,
    {
        let extra = queries[j].additional_solutions();
        let mut k: usize = 0;
        let ghost start = solutions@;
        while k < extra.len()
            invariant
                k <= extra@.len() <= 2,
                solutions@ == start + extra@.subrange(0, k as int),
            decreases extra@.len() - k,
        {
            solutions.push(extra[k]);
            k += 1;
            assert(solutions@ =~= start + extra@.subrange(0, k as int));
        }
        assert(extra@.subrange(0, k as int) =~= extra@);
        assert(queries@.subrange(0, j + 1).drop_last() =~= queries@.subrange(0, j as int));
        j += 1;
        assert(solutions@ =~= base_solutions(wire_count as int) + extra_solutions_of(
            queries@.subrange(0, j as int),
        ));
    }
    assert(queries@.subrange(0, j as int) =~= queries@);
    solutions
}

/// The rule count for a drawn double: three when it lies below 0.6, else four.
fn rule_count_for(draw_below: bool) -> (r: usize)
    ensures
        r == if draw_below {
            3usize
        } else {
            4usize
        },
{
    if draw_below {
        3
    } else {
        4
    }
}

/// Whether a rule is compound for a drawn double: when it does not lie below 0.6.
fn compound_for(draw_below: bool) -> (r: bool)
    ensures
        r == !draw_below,
{
    !draw_below
}

/// Rolls how many rules a rule list gets: three with probability 0.6, else four.
fn roll_rule_count<R: SeededRandom>(random: &mut R) -> (r: usize)
    ensures
        r == 3 || r == 4,
{
    rule_count_for(random.next_double_below(6, 10))
}

/// Rolls whether the next rule has two conditions, with probability 0.4.
fn roll_compound<R: SeededRandom>(random: &mut R) -> bool {
    compound_for(random.next_double_below(6, 10))
}

/// The decay count of each of the condition kinds `available`, in order: what the weighted
/// selection among them is handed.
fn query_decays_for(available: &Vec<QueryWeightKey>, weights: &Vec<u32>) -> (r: Vec<u32>)
    requires
        weights@.len() == QUERY_KEY_COUNT,
    ensures
        r@ == available@.map_values(|k: QueryWeightKey| weights@[k.spec_slot()]),
{
    let mut decays: Vec<u32> = Vec::new();
    let mut i: usize = 0;
    while i < available.len()
        invariant
            i <= available@.len(),
            weights@.len() == QUERY_KEY_COUNT,
            decays@ == available@.subrange(0, i as int).map_values(
                |k: QueryWeightKey| weights@[k.spec_slot()],
            ),
        decreases available@.len() - i,
    {
        decays.push(weights[available[i].slot()]);
        i += 1;
        assert(decays@ =~= available@.subrange(0, i as int).map_values(
            |k: QueryWeightKey| weights@[k.spec_slot()],
        ));
    }
    assert(available@.subrange(0, i as int) =~= available@);
    decays
}

/// The decay count of each of the solution kinds `available`, in order: what the weighted
/// selection among them is handed.
fn solution_decays_for(available: &Vec<SolutionWeightKey>, weights: &Vec<u32>) -> (r: Vec<u32>)
    requires
        weights@.len() == SOLUTION_KEY_COUNT,
        forall|k: int|
            0 <= k < available@.len() ==> (#[trigger] available@[k] matches SolutionWeightKey::Index(
                n,
            ) ==> n < 6),
    ensures
        r@ == available@.map_values(|k: SolutionWeightKey| weights@[k.spec_slot()]),
{
    let mut decays: Vec<u32> = Vec::new();
    let mut i: usize = 0;
    while i < available.len()
        invariant
            i <= available@.len(),
            weights@.len() == SOLUTION_KEY_COUNT,
            forall|k: int|
                0 <= k < available@.len() ==> (#[trigger] available@[k] matches SolutionWeightKey::Index(
                    n,
                ) ==> n < 6),
            decays@ == available@.subrange(0, i as int).map_values(
                |k: SolutionWeightKey| weights@[k.spec_slot()],
            ),
        decreases available@.len() - i,
    {
        decays.push(weights[available[i].slot()]);
        i += 1;
        assert(decays@ =~= available@.subrange(0, i as int).map_values(
            |k: SolutionWeightKey| weights@[k.spec_slot()],
        ));
    }
    assert(available@.subrange(0, i as int) =~= available@);
    decays
}

/// The condition kind at the drawn position `pick` of `available`, with its weight decayed.
fn take_query_kind(available: &Vec<QueryWeightKey>, pick: usize, weights: &mut Vec<u32>) -> (r:
    QueryWeightKey)
    requires
        pick < available@.len(),
        old(weights)@.len() == QUERY_KEY_COUNT,
    ensures
        r == available@[pick as int],
        final(weights)@ == old(weights)@.update(r.spec_slot(), bump(old(weights)@[r.spec_slot()])),
{
    let kind = available[pick];
    let slot = kind.slot();
    let decayed = bumped(weights[slot]);
    weights.set(slot, decayed);
    kind
}

/// The solution kind at the drawn position `pick` of `available`, with its weight decayed.
fn take_solution_kind(available: &Vec<SolutionWeightKey>, pick: usize, weights: &mut Vec<u32>) -> (r:
    SolutionWeightKey)
    requires
        pick < available@.len(),
        old(weights)@.len() == SOLUTION_KEY_COUNT,
        available@[pick as int] matches SolutionWeightKey::Index(n) ==> n < 6,
    ensures
        r == available@[pick as int],
        final(weights)@ == old(weights)@.update(r.spec_slot(), bump(old(weights)@[r.spec_slot()])),
{
    let kind = available[pick];
    let slot = kind.slot();
    let decayed = bumped(weights[slot]);
    weights.set(slot, decayed);
    kind
}

/// Picks one of the condition kinds `available_queries` by weight, decays that kind's weight
/// and gives it a color.
fn choose_query<R: SeededRandom>(
    random: &mut R,
    available_queries: &Vec<QueryWeightKey>,
    query_weights: &mut Vec<u32>,
    colors_available: &mut Vec<Color>,
) -> (r: Query)
    requires
        0 < available_queries@.len(),
        old(query_weights)@.len() == QUERY_KEY_COUNT,
        0 < old(colors_available)@.len() <= 5,
        old(colors_available)@.no_duplicates(),
    ensures
        available_queries@.contains(r.weight_key()),
        final(query_weights)@ == old(query_weights)@.update(
            r.weight_key().spec_slot(),
            bump(old(query_weights)@[r.weight_key().spec_slot()]),
        ),
        final(colors_available)@.no_duplicates(),
        forall|c: Color| #[trigger]
            final(colors_available)@.contains(c) ==> old(colors_available)@.contains(c),
        r matches Query::Wire(q) ==> (exists|index: int|
            0 <= index < old(colors_available)@.len() && q.color == old(colors_available)@[index]
                && final(colors_available)@ == old(colors_available)@.remove(index))
            && !final(colors_available)@.contains(q.color) && final(colors_available)@.len()
            == old(colors_available)@.len() - 1,
        r is Edgework ==> final(colors_available)@ == old(colors_available)@,
{
    let decays = query_decays_for(available_queries, query_weights);
    let pick = random.weighted_select(&decays, QUERY_DECAY_DIVISOR);
    let kind = take_query_kind(available_queries, pick, query_weights);
    kind.colorize(random, colors_available)
}

/// The query weight table `weights` after the kind of each of `queries`, in order, has
/// decayed once.
pub open spec fn decay_queries(weights: Seq<u32>, queries: Seq<Query>) -> Seq<u32>
    decreases queries.len(),
{
    if queries.len() == 0 {
        weights
    } else {
        let before = decay_queries(weights, queries.drop_last());
        let slot = queries.last().weight_key().spec_slot();
        before.update(slot, bump(before[slot]))
    }
}

/// Whether the second condition of a compound rule is one the generator may pick after the
/// first: a wire condition only when the two fit on the wires, a port condition only away
/// from the vanilla seed.
pub open spec fn auxiliary_allowed(aux: Query, main: Query, wire_count: int, vanilla_seed: bool) -> bool {
    match aux {
        Query::Wire(q) => q.query_type.involved() < wire_count - main.involved(),
        Query::Edgework(EdgeworkQuery::PortPresent(_)) => !vanilla_seed,
        Query::Edgework(EdgeworkQuery::HasEmptyPortPlate) => !vanilla_seed,
        _ => true,
    }
}

/// Whether `solution` is one a rule with the conditions `queries` on `wire_count` wires may
/// carry: its kind is a candidate, a position names an existing wire, and a color is one the
/// conditions offer.
pub open spec fn solution_fits(solution: Solution, queries: Seq<Query>, wire_count: int) -> bool {
    &&& candidate_solutions(queries, wire_count).contains(solution.weight_key())
    &&& solution matches Solution::Index(n) ==> n < wire_count
    &&& solution.color() matches Some(c) ==> offered_colors(queries).contains(c)
}

/// Whether `rule` has the shape of a generated rule for `wire_count` wires: a wire condition,
/// possibly followed by an allowed second condition of another color, and a fitting solution.
pub open spec fn generated_rule(rule: Rule, wire_count: int, vanilla_seed: bool) -> bool {
    let queries = rule.queries@;
    &&& 1 <= queries.len() <= 2
    &&& queries[0] is Wire
    &&& queries.len() == 2 ==> auxiliary_allowed(queries[1], queries[0], wire_count, vanilla_seed)
    &&& queries.len() == 2 ==> (queries[0] matches Query::Wire(a) && queries[1] matches Query::Wire(
        b,
    ) ==> a.color != b.color)
    &&& solution_fits(rule.solution, queries, wire_count)
}

/// The colors the conditions `queries` offer to a colored solution, in order: what the
/// pick of a solution's color is made among.
fn offered_colors_of(queries: &Vec<Query>) -> (r: Vec<Color>)
    ensures
        r@ == offered_colors(queries@),
{
    let mut solution_colors: Vec<Color> = Vec::new();
    let mut j: usize = 0;
    while j < queries.len()
        invariant
            j <= queries@.len(),
            solution_colors@ == offered_colors(queries@.subrange(0, j as int)),
        decreases queries@.len() - j,
    {
        if let Some(color) = queries[j].solution_colors() {
            solution_colors.push(color);
        }
        assert(queries@.subrange(0, j + 1).drop_last() =~= queries@.subrange(0, j as int));
        j += 1;
    }
    assert(queries@.subrange(0, j as int) =~= queries@);
    solution_colors
}

/// Generates one candidate rule for `wire_count` wires, with two conditions when `compound`
/// was rolled, decaying the weights of what it picks.
fn generate_rule<R: SeededRandom>(
    random: &mut R,
    compound: bool,
    query_weights: &mut Vec<u32>,
    solution_weights: &mut Vec<u32>,
    wire_count: usize,
    vanilla_seed: bool,
) -> (r: Rule)
    requires
        3 <= wire_count <= 6,
        old(query_weights)@.len() == QUERY_KEY_COUNT,
        old(solution_weights)@.len() == SOLUTION_KEY_COUNT,
    ensures
        final(query_weights)@ == decay_queries(old(query_weights)@, r.queries@),
        final(solution_weights)@ == old(solution_weights)@.update(
            r.solution.weight_key().spec_slot(),
            bump(old(solution_weights)@[r.solution.weight_key().spec_slot()]),
        ),
        final(query_weights)@.len() == QUERY_KEY_COUNT,
        final(solution_weights)@.len() == SOLUTION_KEY_COUNT,
        generated_rule(r, wire_count as int, vanilla_seed),
        r.queries@.len() == if compound {
            2int
        } else {
            1int
        },
{
    let ghost query_weights_before = query_weights@;
    let mut colors_available_for_queries = Color::all_colors();
    assert(colors_available_for_queries@.no_duplicates());
    let wire_types = WireQueryType::all_types();
    let mut available_queries: Vec<QueryWeightKey> = Vec::new();
    let mut i: usize = 0;
    while i < wire_types.len()
        invariant
            i <= wire_types@.len(),
            wire_types@ == WireQueryType::all(),
            available_queries@ == Seq::new(
                i as nat,
                |k: int| QueryWeightKey::Wire(wire_types@[k]),
            ),
        decreases wire_types@.len() - i,
    {
        available_queries.push(QueryWeightKey::Wire(wire_types[i]));
        i += 1;
        assert(available_queries@ =~= Seq::new(
            i as nat,
            |k: int| QueryWeightKey::Wire(wire_types@[k]),
        ));
    }
    assert(available_queries@[0] == QueryWeightKey::Wire(WireQueryType::ExactlyOneOfColor));
    let main_query = choose_query(
        random,
        &available_queries,
        query_weights,
        &mut colors_available_for_queries,
    );
    assert(main_query is Wire) by {
        let k = choose|k: int|
            0 <= k < available_queries@.len() && available_queries@[k] == main_query.weight_key();
    }
    assert(query_weights@ == decay_queries(query_weights_before, seq![main_query])) by {
        assert(seq![main_query].drop_last() =~= Seq::<Query>::empty());
        assert(decay_queries(query_weights_before, Seq::<Query>::empty()) == query_weights_before);
        assert(seq![main_query].last() == main_query);
    }
    let auxiliary_query = if compound {
        let max_wires_involved = wire_count - main_query.wires_involved();
        let mut available_queries: Vec<QueryWeightKey> = vec![
            QueryWeightKey::Edgework(EdgeworkQuery::SerialStartsWithLetter),
            QueryWeightKey::Edgework(EdgeworkQuery::SerialOdd),
        ];
        let mut i: usize = 0;
        while i < wire_types.len()
            invariant
                i <= wire_types@.len(),
                available_queries@.len() <= 2 + i,
                2 <= available_queries@.len(),
                available_queries@[0] == QueryWeightKey::Edgework(
                    EdgeworkQuery::SerialStartsWithLetter,
                ),
                forall|k: int|
                    0 <= k < available_queries@.len() ==> match #[trigger] available_queries@[k] {
                        QueryWeightKey::Wire(t) => t.involved() < max_wires_involved,
                        QueryWeightKey::Edgework(e) => e == EdgeworkQuery::SerialStartsWithLetter
                            || e == EdgeworkQuery::SerialOdd,
                    },
            decreases wire_types@.len() - i,
        {
            let query_type = wire_types[i];
            if query_type.wires_involved() < max_wires_involved {
                available_queries.push(QueryWeightKey::Wire(query_type));
            }
            i += 1;
        }
        if !vanilla_seed {
            let port_types = PortType::all_types();
            let mut i: usize = 0;
            while i < port_types.len()
                invariant
                    i <= port_types@.len() == 6,
                    2 <= available_queries@.len() <= 6 + i,
                    available_queries@[0] == QueryWeightKey::Edgework(
                        EdgeworkQuery::SerialStartsWithLetter,
                    ),
                    forall|k: int|
                        0 <= k < available_queries@.len() ==> match #[trigger] available_queries@[k] {
                            QueryWeightKey::Wire(t) => t.involved() < max_wires_involved,
                            QueryWeightKey::Edgework(_) => true,
                        },
                decreases port_types@.len() - i,
            {
                available_queries.push(
                    QueryWeightKey::Edgework(EdgeworkQuery::PortPresent(port_types[i])),
                );
                i += 1;
            }
            available_queries.push(QueryWeightKey::Edgework(EdgeworkQuery::HasEmptyPortPlate));
        }
        let aux = choose_query(
            random,
            &available_queries,
            query_weights,
            &mut colors_available_for_queries,
        );
        assert(auxiliary_allowed(aux, main_query, wire_count as int, vanilla_seed)) by {
            let k = choose|k: int|
                0 <= k < available_queries@.len() && available_queries@[k] == aux.weight_key();
            assert(available_queries@[k] == aux.weight_key());
        }
        assert(query_weights@ == decay_queries(query_weights_before, seq![main_query, aux])) by {
            assert(seq![main_query, aux].drop_last() =~= seq![main_query]);
            assert(seq![main_query, aux].last() == aux);
        }
        Some(aux)
    } else {
        None
    };
    let mut queries: Vec<Query> = vec![main_query];
    if let Some(aux) = auxiliary_query {
        queries.push(aux);
    }
    let available_solutions = possible_solutions(&queries, wire_count);
    assert forall|k: int| 0 <= k < available_solutions@.len() implies (
    #[trigger] available_solutions@[k] matches SolutionWeightKey::Index(n) ==> n < 6) by {
        if let SolutionWeightKey::Index(n) = available_solutions@[k] {
            lemma_candidate_index(queries@, wire_count as int, n);
        }
    }
    let decays = solution_decays_for(&available_solutions, solution_weights);
    let index = random.weighted_select(&decays, SOLUTION_DECAY_DIVISOR);
    let solution = take_solution_kind(&available_solutions, index, solution_weights);
    proof {
        if let SolutionWeightKey::Index(n) = solution {
            lemma_candidate_index(queries@, wire_count as int, n);
        }
    }
    let solution_colors = offered_colors_of(&queries);
    proof {
        if !(solution is Index) {
            let base = base_solutions(wire_count as int);
            if index >= base.len() {
                assert(extra_solutions_of(queries@)[index - base.len()] == solution);
                lemma_extra_solutions(queries@, solution);
            }
        }
    }
    let solution = solution.colorize(random, &solution_colors);
    let rule = Rule::new(queries, solution);
    assert(rule.queries@[0] == main_query);
    assert(rule.queries@ =~= if compound {
        seq![main_query, auxiliary_query->Some_0]
    } else {
        seq![main_query]
    });
    rule
}

/// Whether no rule with one condition comes before a rule with two.
pub open spec fn compound_first(rules: Seq<Rule>) -> bool {
    forall|i: int, j: int|
        0 <= i < j < rules.len() && (#[trigger] rules[j]).queries@.len() == 2 ==> (
        #[trigger] rules[i]).queries@.len() == 2
}

/// Whether position `i` ends its block of rules with the same number of conditions.
pub open spec fn last_of_block(rules: Seq<Rule>, i: int) -> bool {
    &&& 0 <= i < rules.len()
    &&& i == rules.len() - 1 || rules[i].queries@.len() != rules[i + 1].queries@.len()
}

/// Whether `list` has the shape of a generated rule list for `wire_count` wires: three or
/// four valid generated rules, the compound ones first, and a fallback by position that
/// differs in kind from the solution of the rule generated last, which ends its block.
pub open spec fn generated_list(list: RuleList, wire_count: int) -> bool {
    let rules = list.rules@;
    &&& 3 <= rules.len() <= 4
    &&& compound_first(rules)
    &&& forall|i: int|
        0 <= i < rules.len() ==> valid_queries((#[trigger] rules[i]).queries@) && generated_rule(
            rules[i],
            wire_count,
            false,
        )
    &&& list.otherwise matches Solution::Index(n) && n < wire_count
    &&& exists|i: int|
        last_of_block(rules, i) && list.otherwise.weight_key() != rules[i].solution.weight_key()
}

/// The solution kinds of `base` other than `forbidden`, in order.
fn without_kind(base: &Vec<SolutionWeightKey>, forbidden: SolutionWeightKey) -> (r: Vec<
    SolutionWeightKey,
>)
    ensures
        r@ == base@.filter(|k: SolutionWeightKey| k != forbidden),
{
    let mut kept: Vec<SolutionWeightKey> = Vec::new();
    let mut i: usize = 0;
    while i < base.len()
        invariant
            i <= base@.len(),
            kept@ == base@.subrange(0, i as int).filter(|k: SolutionWeightKey| k != forbidden),
        decreases base@.len() - i,
    {
        proof {
            reveal(Seq::filter);
            assert(base@.subrange(0, i + 1).drop_last() =~= base@.subrange(0, i as int));
        }
        if base[i] != forbidden {
            kept.push(base[i]);
        }
        i += 1;
    }
    assert(base@.subrange(0, i as int) =~= base@);
    kept
}

/// The rules of `accepted` with two conditions, in order.
pub open spec fn compound_part(accepted: Seq<Rule>) -> Seq<Rule> {
    accepted.filter(|r: Rule| r.queries@.len() == 2)
}

/// The rules of `accepted` without two conditions, in order.
pub open spec fn single_part(accepted: Seq<Rule>) -> Seq<Rule> {
    accepted.filter(|r: Rule| r.queries@.len() != 2)
}

/// A weight table of `len` kinds, none decayed yet.
fn fresh_weights(len: usize) -> (r: Vec<u32>)
    ensures
        r@.len() == len,
{
    let mut r: Vec<u32> = Vec::new();
    let mut i: usize = 0;
    while i < len
        invariant
            i <= len,
            r@.len() == i,
        decreases len - i,
    {
        r.push(0);
        i += 1;
    }
    r
}

/// Generates the rule list for `wire_count` wires, or `None` if `MAX_ATTEMPTS` candidate
/// rules were drawn before enough of them were accepted.
///
/// Alongside the list comes the order in which its rules were accepted: the list holds them
/// compound rules first, each group in that order, and the fallback differs in kind from the
/// solution of the rule accepted last.
fn generate_rule_list<R: SeededRandom>(random: &mut R, wire_count: usize, seed: u32) -> (r:
    Option<(RuleList, Ghost<Seq<Rule>>)>)
    requires
        3 <= wire_count <= 6,
        seed != VANILLA_SEED,
    ensures
        r matches Some((list, accepted)) ==> {
            &&& generated_list(list, wire_count as int)
            &&& 0 < accepted@.len()
            &&& list.rules@ == compound_part(accepted@) + single_part(accepted@)
            &&& list.otherwise.weight_key() != accepted@.last().solution.weight_key()
        },
{
    let rule_count = roll_rule_count(random);
    let mut compound_rules = RuleVec::empty();
    let mut single_rules = RuleVec::empty();
    let mut query_weights = fresh_weights(QUERY_KEY_COUNT);
    let mut solution_weights = fresh_weights(SOLUTION_KEY_COUNT);
    let mut last_solution = Solution::Index(0);
    let mut last_compound = false;
    let mut attempts: u64 = 0;
    let ghost mut accepted: Seq<Rule> = Seq::empty();
    proof {
        reveal(Seq::filter);
    }
    while compound_rules.len() + single_rules.len() < rule_count
        invariant
            compound_rules@ == compound_part(accepted),
            single_rules@ == single_part(accepted),
            accepted.len() == compound_rules@.len() + single_rules@.len(),
            0 < accepted.len() ==> accepted.last().solution == last_solution,
            3 <= wire_count <= 6,
            seed != VANILLA_SEED,
            rule_count == 3 || rule_count == 4,
            compound_rules@.len() + single_rules@.len() <= rule_count,
            query_weights@.len() == QUERY_KEY_COUNT,
            solution_weights@.len() == SOLUTION_KEY_COUNT,
            forall|i: int|
                0 <= i < compound_rules@.len() ==> {
                    let rule = #[trigger] compound_rules@[i];
                    &&& rule.queries@.len() == 2
                    &&& valid_queries(rule.queries@)
                    &&& generated_rule(rule, wire_count as int, false)
                },
            forall|i: int|
                0 <= i < single_rules@.len() ==> {
                    let rule = #[trigger] single_rules@[i];
                    &&& rule.queries@.len() == 1
                    &&& valid_queries(rule.queries@)
                    &&& generated_rule(rule, wire_count as int, false)
                },
            0 < compound_rules@.len() + single_rules@.len() ==> if last_compound {
                0 < compound_rules@.len() && compound_rules@.last().solution == last_solution
            } else {
                0 < single_rules@.len() && single_rules@.last().solution == last_solution
            },
        decreases MAX_ATTEMPTS - attempts,
    {
        if attempts == MAX_ATTEMPTS {
            return None;
        }
        attempts += 1;
        let compound = roll_compound(random);
        let rule = generate_rule(
            random,
            compound,
            &mut query_weights,
            &mut solution_weights,
            wire_count,
            seed == VANILLA_SEED,
        );
        if rule.is_valid() {
            let solution = rule.solution;
            let ghost before = accepted;
            proof {
                accepted = accepted.push(rule);
                reveal(Seq::filter);
                assert(accepted.drop_last() =~= before);
            }
            if rule.query_count() == 2 {
                compound_rules.push(rule);
                last_compound = true;
            } else {
                single_rules.push(rule);
                last_compound = false;
            }
            last_solution = solution;
        }
    }
    let compound_count = compound_rules.len();
    let ghost compound = compound_rules@;
    let ghost single = single_rules@;
    // Put all the compound rules in front, keeping the order within each group.
    let mut rules = compound_rules;
    rules.append(single_rules);
    assert(rules@ == compound + single);
    let no_queries: Vec<Query> = Vec::new();
    let base = possible_solutions(&no_queries, wire_count);
    assert(no_queries@ =~= Seq::<Query>::empty());
    let forbidden = SolutionWeightKey::from(last_solution);
    let solutions = without_kind(&base, forbidden);
    proof {
        let keep = |k: SolutionWeightKey| k != forbidden;
        assert forall|k: int| 0 <= k < solutions@.len() implies base@.contains(
            #[trigger] solutions@[k],
        ) && solutions@[k] != forbidden by {
            base@.lemma_filter_pred(keep, k);
            base@.lemma_filter_contains_rev(keep, solutions@[k]);
        }
        assert(base@ == candidate_solutions(Seq::<Query>::empty(), wire_count as int));
        assert(base@[0] == SolutionWeightKey::Index(0));
        assert(base@[1] == SolutionWeightKey::Index(1));
        let witness = if base@[0] != forbidden {
            0int
        } else {
            1int
        };
        assert(base@.contains(base@[witness]));
        base@.lemma_filter_contains_rev(keep, base@[witness]);
        assert(solutions@.contains(base@[witness]));
    }
    assert(base@[0] != base@[1]);
    let picked = random.choice(solutions.len());
    let choice = solutions[picked.unwrap()];
    proof {
        assert(base@.contains(choice));
        if let SolutionWeightKey::Index(n) = choice {
            lemma_candidate_index(Seq::<Query>::empty(), wire_count as int, n);
        } else {
            let k = choose|k: int| 0 <= k < base@.len() && base@[k] == choice;
            if k >= base_solutions(wire_count as int).len() {
                assert(extra_solutions_of(Seq::<Query>::empty())[k - base_solutions(
                    wire_count as int,
                ).len()] == choice);
            }
        }
    }
    let no_colors: Vec<Color> = Vec::new();
    let otherwise = choice.colorize(random, &no_colors);
    let list = RuleList { rules, otherwise };
    proof {
        let all = list.rules@;
        assert forall|p: int, q: int|
            0 <= p < q < all.len() && (#[trigger] all[q]).queries@.len() == 2 implies (
            #[trigger] all[p]).queries@.len() == 2 by {
            if q >= compound.len() {
                assert(all[q] == single[q - compound.len()]);
            }
            if p < compound.len() {
                assert(all[p] == compound[p]);
            }
        }
        assert forall|p: int| 0 <= p < all.len() implies valid_queries(
            (#[trigger] all[p]).queries@,
        ) && generated_rule(all[p], wire_count as int, false) by {
            if p < compound.len() {
                assert(all[p] == compound[p]);
            } else {
                assert(all[p] == single[p - compound.len()]);
            }
        }
        let last = if last_compound {
            compound.len() - 1
        } else {
            all.len() - 1
        };
        if last_compound {
            assert(all[last] == compound.last());
            if last < all.len() - 1 {
                assert(all[last + 1] == single[0]);
            }
        } else {
            assert(all[last] == single.last());
        }
        assert(last_of_block(all, last));
    }
    Some((list, Ghost(accepted)))
}

impl RuleSet {
    /// Generates the rule set for `seed`: one rule list for each wire count, in order, all
    /// driven by one generator seeded with `seed`. `None` when some wire count drew
    /// `MAX_ATTEMPTS` candidate rules without completing its list.
    pub fn new<R: SeededRandom>(seed: u32) -> (r: Option<RuleSet>)
        requires
            seed != VANILLA_SEED,
            seed <= MAX_VALUE,
        ensures
            r matches Some(set) ==> forall|wire_count: int|
                3 <= wire_count <= 6 ==> generated_list(
                    #[trigger] set.list_for(wire_count),
                    wire_count,
                ),
    {
        let mut random = R::from_seed(seed);
        let three = match generate_rule_list(&mut random, 3, seed) {
            Some((list, _)) => list,
            None => return None,
        };
        let four = match generate_rule_list(&mut random, 4, seed) {
            Some((list, _)) => list,
            None => return None,
        };
        let five = match generate_rule_list(&mut random, 5, seed) {
            Some((list, _)) => list,
            None => return None,
        };
        let six = match generate_rule_list(&mut random, 6, seed) {
            Some((list, _)) => list,
            None => return None,
        };
        let set = RuleSet::from_lists(three, four, five, six);
        assert forall|wire_count: int| 3 <= wire_count <= 6 implies generated_list(
            #[trigger] set.list_for(wire_count),
            wire_count,
        ) by {
            assert(set.list_for(wire_count) == seq![three, four, five, six][wire_count - 3]);
        }
        Some(set)
    }
}

} // verus!
