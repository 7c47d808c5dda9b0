//! Laws of rule validation and evaluation, stated over the models the functions use.
use vstd::prelude::*;

use crate::edgework::Edgework;
use crate::rules::{outcome_from, valid_queries, Rule, RuleList};
use crate::wires::{Color, Query, Solution, WireQuery, WireQueryType};

verus! {

/// Whether two wire conditions form one of the rejected combinations: of one color, the
/// kinds {exactly one, none}, {exactly one, more than one}, {more than one, none} or
/// {last wire, none}; of two colors, both about the last wire.
pub open spec fn rejected_combination(a: WireQuery, b: WireQuery) -> bool {
    let (x, y) = (a.query_type, b.query_type);
    let either = |p: WireQueryType, q: WireQueryType| (x == p && y == q) || (x == q && y == p);
    if a.color == b.color {
        ||| either(WireQueryType::ExactlyOneOfColor, WireQueryType::ExactlyZeroOfColor)
        ||| either(WireQueryType::ExactlyOneOfColor, WireQueryType::MoreThanOneOfColor)
        ||| either(WireQueryType::MoreThanOneOfColor, WireQueryType::ExactlyZeroOfColor)
        ||| either(WireQueryType::LastWireIs, WireQueryType::ExactlyZeroOfColor)
    } else {
        x == WireQueryType::LastWireIs && y == WireQueryType::LastWireIs
    }
}

/// The validator rejects a rule of two wire conditions exactly when they form a rejected
/// combination, and accepts every rule with one condition or with an edgework condition.
pub proof fn lemma_validator(first: Query, second: Query)
    ensures
        valid_queries(seq![first]),
        valid_queries(seq![first, second]) <==> !(first matches Query::Wire(a)
            && second matches Query::Wire(b) && rejected_combination(a, b)),
{
}

/// Rules are read in order: the first rule that holds decides the solution, whatever the
/// rules after it say.
pub proof fn lemma_first_match_wins(
    list: RuleList,
    edgework: Edgework,
    wires: Seq<Color>,
    i: int,
)
    requires
        0 <= i < list.rules@.len(),
        list.rules@[i].holds(edgework, wires),
        forall|j: int| 0 <= j < i ==> !(#[trigger] list.rules@[j]).holds(edgework, wires),
    ensures
        list.outcome(edgework, wires) == list.rules@[i].solution,
{
    lemma_outcome_skips(list.rules@, 0, i, list.otherwise, edgework, wires);
}

/// A list none of whose rules holds gives its fallback.
pub proof fn lemma_fallback(list: RuleList, edgework: Edgework, wires: Seq<Color>)
    requires
        forall|j: int|
            0 <= j < list.rules@.len() ==> !(#[trigger] list.rules@[j]).holds(edgework, wires),
    ensures
        list.outcome(edgework, wires) == list.otherwise,
{
    lemma_outcome_skips(
        list.rules@,
        0,
        list.rules@.len() as int,
        list.otherwise,
        edgework,
        wires,
    );
}

/// Rules that do not hold are passed over.
proof fn lemma_outcome_skips(
    rules: Seq<Rule>,
    from: int,
    to: int,
    otherwise: Solution,
    edgework: Edgework,
    wires: Seq<Color>,
)
    requires
        0 <= from <= to <= rules.len(),
        forall|j: int| from <= j < to ==> !(#[trigger] rules[j]).holds(edgework, wires),
    ensures
        outcome_from(rules, from, otherwise, edgework, wires) == outcome_from(
            rules,
            to,
            otherwise,
            edgework,
            wires,
        ),
    decreases to - from,
{
    if from < to {
        lemma_outcome_skips(rules, from + 1, to, otherwise, edgework, wires);
    }
}

/// A solution by position resolves to that position, whatever the wires.
pub proof fn lemma_index_round_trip(n: u8, wires: Seq<Color>)
    ensures
        Solution::Index(n).position(wires) == Some(n as int),
{
}

} // verus!
