//! Conditions, solutions and their evaluation against a bomb.
use vstd::prelude::*;

use crate::edgework::{is_ascii_uppercase, Edgework, PortType};
use crate::small_vec::QueryVec;

verus! {

/// The colors a wire can have.
#[derive(Debug, Clone, Copy, PartialEq, Eq, Structural)]
pub enum Color {
    Black,
    Blue,
    Red,
    White,
    Yellow,
}

impl Color {
    /// Every color, in catalog order.
    pub open spec fn all() -> Seq<Color> {
        seq![Color::Black, Color::Blue, Color::Red, Color::White, Color::Yellow]
    }

    /// Every color, in catalog order.
    pub fn all_colors() -> (r: Vec<Color>)
        ensures
            r@ == Self::all(),
    {
        let r = vec![Color::Black, Color::Blue, Color::Red, Color::White, Color::Yellow];
        assert(r@ =~= Self::all());
        r
    }
}

/// How many wires of `wires` have color `color`.
pub open spec fn count_color(wires: Seq<Color>, color: Color) -> nat
    decreases wires.len(),
{
    if wires.len() == 0 {
        0
    } else {
        count_color(wires.drop_last(), color) + if wires.last() == color {
            1nat
        } else {
            0nat
        }
    }
}

/// The kinds of condition on the wire colors.
#[derive(Debug, Clone, Copy, PartialEq, Eq, Structural)]
pub enum WireQueryType {
    /// If there is exactly one _color_ wire...
    ExactlyOneOfColor,
    /// If there are no _color_ wires...
    ExactlyZeroOfColor,
    /// If the last wire is _color_...
    LastWireIs,
    /// If there is more than one _color_ wire...
    MoreThanOneOfColor,
}

impl WireQueryType {
    /// Every kind, in catalog order.
    pub open spec fn all() -> Seq<WireQueryType> {
        seq![
            WireQueryType::ExactlyOneOfColor,
            WireQueryType::ExactlyZeroOfColor,
            WireQueryType::LastWireIs,
            WireQueryType::MoreThanOneOfColor,
        ]
    }

    /// Every kind, in catalog order.
    pub fn all_types() -> (r: Vec<WireQueryType>)
        ensures
            r@ == Self::all(),
    {
        let r = vec![
            WireQueryType::ExactlyOneOfColor,
            WireQueryType::ExactlyZeroOfColor,
            WireQueryType::LastWireIs,
            WireQueryType::MoreThanOneOfColor,
        ];
        assert(r@ =~= Self::all());
        r
    }

    /// How many wires a condition of this kind takes up.
    pub open spec fn involved(self) -> nat {
        match self {
            WireQueryType::MoreThanOneOfColor => 2,
            WireQueryType::ExactlyZeroOfColor => 0,
            _ => 1,
        }
    }

    /// How many wires a condition of this kind takes up.
    pub fn wires_involved(self) -> (r: usize)
        ensures
            r == self.involved(),
    {
        match self {
            WireQueryType::MoreThanOneOfColor => 2,
            WireQueryType::ExactlyZeroOfColor => 0,
            _ => 1,
        }
    }
}

/// A condition on the colors of the wires.
#[derive(Debug, Clone, Copy, PartialEq, Eq, Structural)]
pub struct WireQuery {
    pub query_type: WireQueryType,
    pub color: Color,
}

impl WireQuery {
    /// How many wires the condition takes up.
    pub fn wires_involved(self) -> (r: usize)
        ensures
            r == self.query_type.involved(),
    {
        self.query_type.wires_involved()
    }

    /// Whether the condition holds of the wire colors `wires`, first to last.
    pub open spec fn holds(self, wires: Seq<Color>) -> bool {
        match self.query_type {
            WireQueryType::LastWireIs => wires.len() > 0 && wires.last() == self.color,
            WireQueryType::ExactlyOneOfColor => count_color(wires, self.color) == 1,
            WireQueryType::MoreThanOneOfColor => count_color(wires, self.color) > 1,
            WireQueryType::ExactlyZeroOfColor => count_color(wires, self.color) == 0,
        }
    }

    /// Evaluates the condition against the wire colors `wires`, first to last.
    pub fn evaluate(self, wires: &[Color]) -> (r: bool)
        ensures
            r == self.holds(wires@),
    {
        match self.query_type {
            WireQueryType::LastWireIs => {
                let n = wires.len();
                n > 0 && wires[n - 1] == self.color
            },
            WireQueryType::ExactlyOneOfColor => count_wires(wires, self.color) == 1,
            WireQueryType::MoreThanOneOfColor => count_wires(wires, self.color) > 1,
            WireQueryType::ExactlyZeroOfColor => count_wires(wires, self.color) == 0,
        }
    }
}

/// Counts the wires of color `color`.
fn count_wires(wires: &[Color], color: Color) -> (r: usize)
    ensures
        r == count_color(wires@, color),
{
    let mut count: usize = 0;
    let mut i: usize = 0;
    while i < wires.len()
        invariant
            i <= wires@.len(),
            count == count_color(wires@.subrange(0, i as int), color),
            count <= i,
        decreases wires@.len() - i,
    {
        assert(wires@.subrange(0, i + 1).drop_last() =~= wires@.subrange(0, i as int));
        if wires[i] == color {
            count += 1;
        }
        i += 1;
    }
    assert(wires@.subrange(0, i as int) =~= wires@);
    count
}

/// A condition on the edgework of the bomb.
#[derive(Debug, Clone, Copy, PartialEq, Eq, Structural)]
pub enum EdgeworkQuery {
    SerialStartsWithLetter,
    SerialOdd,
    HasEmptyPortPlate,
    PortPresent(PortType),
}

impl EdgeworkQuery {
    /// Whether the condition holds of the bomb's edgework.
    pub open spec fn holds(self, edgework: Edgework) -> bool {
        match self {
            EdgeworkQuery::SerialStartsWithLetter => is_ascii_uppercase(
                edgework.serial_number@[0],
            ),
            EdgeworkQuery::SerialOdd => edgework.serial_number.spec_last_digit() % 2 == 1,
            EdgeworkQuery::HasEmptyPortPlate => exists|i: int|
                0 <= i < edgework.port_plates@.len() && (#[trigger] edgework.port_plates@[i])@.len()
                    == 0,
            EdgeworkQuery::PortPresent(port) => exists|i: int|
                0 <= i < edgework.port_plates@.len() && (
                #[trigger] edgework.port_plates@[i])@.contains(port),
        }
    }

    /// Evaluates the condition against the bomb's edgework.
    pub fn evaluate(self, edgework: &Edgework) -> (r: bool)
        ensures
            r == self.holds(*edgework),
    {
        match self {
            EdgeworkQuery::SerialStartsWithLetter => edgework.serial_number.starts_with_letter(),
            EdgeworkQuery::SerialOdd => edgework.serial_number.last_digit() % 2 == 1,
            EdgeworkQuery::HasEmptyPortPlate => {
                let plates = &edgework.port_plates;
                let mut i: usize = 0;
                while i < plates.len()
                    invariant
                        i <= plates@.len(),
                        plates@ == edgework.port_plates@,
                        self == EdgeworkQuery::HasEmptyPortPlate,
                        forall|j: int| 0 <= j < i ==> (#[trigger] plates@[j])@.len() != 0,
                    decreases plates@.len() - i,
                {
                    if plates[i].is_empty() {
                        assert(plates@[i as int]@.len() == 0);
                        return true;
                    }
                    i += 1;
                }
                false
            },
            EdgeworkQuery::PortPresent(port) => {
                let plates = &edgework.port_plates;
                let mut i: usize = 0;
                while i < plates.len()
                    invariant
                        i <= plates@.len(),
                        plates@ == edgework.port_plates@,
                        self == EdgeworkQuery::PortPresent(port),
                        forall|j: int| 0 <= j < i ==> !(#[trigger] plates@[j])@.contains(port),
                    decreases plates@.len() - i,
                {
                    if plates[i].has(port) {
                        assert(plates@[i as int]@.contains(port));
                        return true;
                    }
                    i += 1;
                }
                false
            },
        }
    }
}

/// A single condition of a rule.
#[derive(Debug, Clone, Copy, PartialEq, Eq, Structural)]
pub enum Query {
    Edgework(EdgeworkQuery),
    Wire(WireQuery),
}

impl Query {
    /// How many wires the condition takes up.
    pub open spec fn involved(self) -> nat {
        match self {
            Query::Edgework(_) => 0,
            Query::Wire(q) => q.query_type.involved(),
        }
    }

    /// How many wires the condition takes up.
    pub fn wires_involved(self) -> (r: usize)
        ensures
            r == self.involved(),
    {
        match self {
            Query::Edgework(_) => 0,
            Query::Wire(query) => query.wires_involved(),
        }
    }

    /// The solution kinds that a rule with this condition may use besides cutting by
    /// position.
    pub open spec fn extra_solutions(self) -> Seq<SolutionWeightKey> {
        match self {
            Query::Wire(q) => match q.query_type {
                WireQueryType::ExactlyOneOfColor => seq![SolutionWeightKey::TheOneOfColor],
                WireQueryType::MoreThanOneOfColor => seq![
                    SolutionWeightKey::FirstOfColor,
                    SolutionWeightKey::LastOfColor,
                ],
                _ => seq![],
            },
            _ => seq![],
        }
    }

    /// The solution kinds that a rule with this condition may use besides cutting by
    /// position.
    pub fn additional_solutions(self) -> (r: Vec<SolutionWeightKey>)
        ensures
            r@ == self.extra_solutions(),
    {
        let r = match self {
            Query::Wire(WireQuery { query_type, .. }) => match query_type {
                WireQueryType::ExactlyOneOfColor => vec![SolutionWeightKey::TheOneOfColor],
                WireQueryType::MoreThanOneOfColor => vec![
                    SolutionWeightKey::FirstOfColor,
                    SolutionWeightKey::LastOfColor,
                ],
                _ => vec![],
            },
            _ => vec![],
        };
        assert(r@ =~= self.extra_solutions());
        r
    }

    /// The color this condition offers to a colored solution, if any.
    pub open spec fn offered_color(self) -> Option<Color> {
        match self {
            Query::Wire(q) => match q.query_type {
                WireQueryType::ExactlyOneOfColor | WireQueryType::MoreThanOneOfColor
                | WireQueryType::LastWireIs => Some(q.color),
                _ => None,
            },
            _ => None,
        }
    }

    /// The color this condition offers to a colored solution, if any.
    pub fn solution_colors(self) -> (r: Option<Color>)
        ensures
            r == self.offered_color(),
    {
        match self {
            Query::Wire(WireQuery { query_type, color }) => match query_type {
                WireQueryType::ExactlyOneOfColor | WireQueryType::MoreThanOneOfColor
                | WireQueryType::LastWireIs => Some(color),
                _ => None,
            },
            _ => None,
        }
    }

    /// Whether the condition holds of the bomb.
    pub open spec fn holds(self, edgework: Edgework, wires: Seq<Color>) -> bool {
        match self {
            Query::Edgework(q) => q.holds(edgework),
            Query::Wire(q) => q.holds(wires),
        }
    }

    /// Evaluates the condition against the bomb's edgework and wire colors.
    pub fn evaluate(self, edgework: &Edgework, wires: &[Color]) -> (r: bool)
        ensures
            r == self.holds(*edgework, wires@),
    {
        match self {
            Query::Edgework(query) => query.evaluate(edgework),
            Query::Wire(query) => query.evaluate(wires),
        }
    }
}

/// The action the player should take to defuse a wires module.
#[derive(Debug, Clone, Copy, PartialEq, Eq, Structural)]
pub enum Solution {
    /// Cut the n-th wire, counting from 0.
    Index(u8),
    /// Cut the wire of the specified color. Only used when there is exactly one wire of the
    /// color.
    TheOneOfColor(Color),
    /// Cut the first wire of the specified color.
    FirstOfColor(Color),
    /// Cut the last wire of the specified color.
    LastOfColor(Color),
}

/// The first position of a wire of color `color`, if there is one.
#[verifier::opaque]
pub open spec fn first_position(wires: Seq<Color>, color: Color) -> Option<int> {
    if exists|i: int| 0 <= i < wires.len() && wires[i] == color {
        Some(
            choose|i: int|
                0 <= i < wires.len() && wires[i] == color && forall|j: int|
                    0 <= j < i ==> wires[j] != color,
        )
    } else {
        None
    }
}

/// The last position of a wire of color `color`, if there is one.
#[verifier::opaque]
pub open spec fn last_position(wires: Seq<Color>, color: Color) -> Option<int> {
    if exists|i: int| 0 <= i < wires.len() && wires[i] == color {
        Some(
            choose|i: int|
                0 <= i < wires.len() && wires[i] == color && forall|j: int|
                    i < j < wires.len() ==> wires[j] != color,
        )
    } else {
        None
    }
}

proof fn lemma_first_position(wires: Seq<Color>, color: Color, i: int)
    requires
        0 <= i < wires.len(),
        wires[i] == color,
        forall|j: int| 0 <= j < i ==> wires[j] != color,
    ensures
        first_position(wires, color) == Some(i),
{
    reveal(first_position);
    let p = first_position(wires, color)->Some_0;
    if p < i {
        assert(wires[p] != color);
    } else if p > i {
        assert(wires[i] != color);
    }
}

proof fn lemma_last_position(wires: Seq<Color>, color: Color, i: int)
    requires
        0 <= i < wires.len(),
        wires[i] == color,
        forall|j: int| i < j < wires.len() ==> wires[j] != color,
    ensures
        last_position(wires, color) == Some(i),
{
    reveal(last_position);
    let p = last_position(wires, color)->Some_0;
    if p > i {
        assert(wires[p] != color);
    } else if p < i {
        assert(wires[i] != color);
    }
}

impl Solution {
    /// The position of the wire to cut among `wires`, if there is such a wire.
    pub open spec fn position(self, wires: Seq<Color>) -> Option<int> {
        match self {
            Solution::Index(n) => Some(n as int),
            Solution::TheOneOfColor(c) => first_position(wires, c),
            Solution::FirstOfColor(c) => first_position(wires, c),
            Solution::LastOfColor(c) => last_position(wires, c),
        }
    }

    /// The 0-indexed position of the wire to cut among `wires`; `None` when the solution
    /// names a color that no wire has.
    pub fn as_index(self, wires: &[Color]) -> (r: Option<u8>)
        requires
            self is Index || wires@.len() <= 256,
        ensures
            r is Some <==> self.position(wires@) is Some,
            r is Some ==> self.position(wires@) == Some(r->Some_0 as int),
    {
        match self {
            Solution::Index(n) => Some(n),
            Solution::FirstOfColor(color) => match first_index_of(wires, color) {
                Some(i) => Some(i as u8),
                None => None,
            },
            Solution::TheOneOfColor(color) => match first_index_of(wires, color) {
                Some(i) => Some(i as u8),
                None => None,
            },
            Solution::LastOfColor(color) => {
                match last_index_of(wires, color) {
                    Some(i) => Some(i as u8),
                    None => None,
                }
            },
        }
    }
}

/// The first position of a wire of color `color`.
fn first_index_of(wires: &[Color], color: Color) -> (r: Option<usize>)
    ensures
        r is Some <==> first_position(wires@, color) is Some,
        r matches Some(i) ==> i < wires@.len() && first_position(wires@, color) == Some(i as int),
{
    let mut i: usize = 0;
    while i < wires.len()
        invariant
            i <= wires@.len(),
            forall|j: int| 0 <= j < i ==> wires@[j] != color,
        decreases wires@.len() - i,
    {
        if wires[i] == color {
            proof {
                lemma_first_position(wires@, color, i as int);
            }
            return Some(i);
        }
        i += 1;
    }
    proof {
        reveal(first_position);
    }
    None
}

/// The last position of a wire of color `color`.
fn last_index_of(wires: &[Color], color: Color) -> (r: Option<usize>)
    ensures
        r is Some <==> last_position(wires@, color) is Some,
        r matches Some(i) ==> i < wires@.len() && last_position(wires@, color) == Some(i as int),
{
    let mut i: usize = wires.len();
    while i > 0
        invariant
            i <= wires@.len(),
            forall|j: int| i <= j < wires@.len() ==> wires@[j] != color,
        decreases i,
    {
        if wires[i - 1] == color {
            proof {
                lemma_last_position(wires@, color, i - 1);
            }
            return Some(i - 1);
        }
        i -= 1;
    }
    proof {
        reveal(last_position);
    }
    None
}

/// The key under which a condition's selection weight is kept: its kind, without color.
#[derive(Debug, Clone, Copy, PartialEq, Eq, Structural)]
pub enum QueryWeightKey {
    Edgework(EdgeworkQuery),
    Wire(WireQueryType),
}

/// The key under which a solution's selection weight is kept: its kind, without color,
/// but with the position of an indexed solution.
#[derive(Debug, Clone, Copy, PartialEq, Eq, Structural)]
pub enum SolutionWeightKey {
    Index(u8),
    TheOneOfColor,
    FirstOfColor,
    LastOfColor,
}

} // verus!
