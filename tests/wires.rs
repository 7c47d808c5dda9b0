use ktane_utils::edgework::{Edgework, PortPlate, PortType, SerialNumber};
use ktane_utils::rules::{Rule, RuleList};
use ktane_utils::wires::Color::{Black, Blue, Red, White, Yellow};
use ktane_utils::edgework::PortType::{Parallel, Serial, StereoRCA};
use ktane_utils::wires::EdgeworkQuery::{
    HasEmptyPortPlate, PortPresent, SerialOdd, SerialStartsWithLetter,
};
use ktane_utils::wires::Solution::{FirstOfColor, Index, LastOfColor, TheOneOfColor};
use ktane_utils::wires::WireQueryType::{
    ExactlyOneOfColor, ExactlyZeroOfColor, LastWireIs, MoreThanOneOfColor,
};
use ktane_utils::wires::{Color, EdgeworkQuery, Query, Solution, WireQuery, WireQueryType};

fn edgework(serial: &str, plates: Vec<Vec<PortType>>) -> Edgework {
    Edgework {
        serial_number: SerialNumber::new(serial.as_bytes().to_vec()).unwrap(),
        port_plates: plates.into_iter().map(PortPlate::new).collect(),
    }
}

fn wire(query_type: WireQueryType, color: Color) -> Query {
    Query::Wire(WireQuery { query_type, color })
}

#[test]
fn display_solution() {
    for &(test, expected) in &[
        (Index(3), "cut the 4th wire"),
        (Index(1), "cut the 2nd wire"),
        (TheOneOfColor(Red), "cut the red wire"),
    ] {
        assert_eq!(test.to_string(), expected);
    }
}

#[test]
fn display_color() {
    assert_eq!(Black.to_string(), "black");
}

#[test]
fn wire_query_evaluate() {

    let tests: &[(&[Color], WireQueryType, Color, bool)] = &[
        (&[Red, Black, Blue], LastWireIs, Red, false),
        (&[Red, Black, Blue], LastWireIs, Blue, true),
        (&[Red, Black, Blue, Yellow], LastWireIs, Yellow, true),
        (&[Red, Black, Yellow, Blue], LastWireIs, Yellow, false),
        (&[Red, Black, Red, Blue], ExactlyOneOfColor, Red, false),
        (&[Red, Black, Blue, Yellow], ExactlyOneOfColor, Black, true),
        (&[Red, Black, Yellow, Blue, Yellow], MoreThanOneOfColor, Yellow, true),
        (&[Red, Black, Yellow, Blue, Red], MoreThanOneOfColor, Yellow, false),
        (&[Red, Black, Yellow, Black], ExactlyZeroOfColor, Yellow, false),
        (&[Red, Black, Blue, Black], ExactlyZeroOfColor, Yellow, true),
    ];

    for &(colors, query_type, color, expected) in tests {
        let query = WireQuery { query_type, color };
        assert_eq!(query.evaluate(colors), expected);
    }
}

#[test]
fn last_wire_is_on_no_wires_is_false() {
    let query = WireQuery { query_type: WireQueryType::LastWireIs, color: Red };
    assert!(!query.evaluate(&[]));
}

#[test]
fn display_more_solutions() {
    assert_eq!(Index(0).to_string(), "cut the 1st wire");
    assert_eq!(Index(2).to_string(), "cut the 3rd wire");
    assert_eq!(Index(10).to_string(), "cut the 11th wire");
    assert_eq!(Index(21).to_string(), "cut the 22nd wire");
    assert_eq!(Index(255).to_string(), "cut the 256th wire");
    assert_eq!(FirstOfColor(Blue).to_string(), "cut the first blue wire");
    assert_eq!(LastOfColor(Yellow).to_string(), "cut the last yellow wire");
}

#[test]
fn display_queries() {
    assert_eq!(
        EdgeworkQuery::SerialOdd.to_string(),
        "the last digit of the serial number is odd"
    );
    assert_eq!(
        WireQuery { query_type: WireQueryType::ExactlyOneOfColor, color: Yellow }.to_string(),
        "there is exactly one yellow wire"
    );
    assert_eq!(
        WireQuery { query_type: WireQueryType::ExactlyZeroOfColor, color: White }.to_string(),
        "there are no white wires"
    );
    assert_eq!(
        WireQuery { query_type: WireQueryType::LastWireIs, color: Black }.to_string(),
        "the last wire is black"
    );
    assert_eq!(
        EdgeworkQuery::PortPresent(PortType::Parallel).to_string(),
        "there is a Parallel port present on the bomb"
    );
}

#[test]
fn query_evaluate() {
    let wires = [Red, Black, Blue];
    let cases: Vec<(Edgework, EdgeworkQuery, bool)> = vec![
        (edgework("KT4NE8", vec![]), SerialStartsWithLetter, true),
        (edgework("123AB4", vec![]), SerialStartsWithLetter, false),
        (edgework("KT4NE8", vec![]), SerialOdd, false),
        (edgework("KT4NE7", vec![]), SerialOdd, true),
        (edgework("KT4NE8", vec![vec![]]), HasEmptyPortPlate, true),
        (edgework("KT4NE8", vec![vec![Serial], vec![]]), HasEmptyPortPlate, true),
        (edgework("KT4NE8", vec![]), HasEmptyPortPlate, false),
        (edgework("KT4NE8", vec![vec![Serial], vec![StereoRCA]]), HasEmptyPortPlate, false),
        (edgework("KT4NE8", vec![vec![Serial]]), PortPresent(Serial), true),
        (edgework("KT4NE8", vec![vec![Serial, Parallel]]), PortPresent(Parallel), true),
        (edgework("KT4NE8", vec![vec![Parallel], vec![]]), PortPresent(Serial), false),
        (edgework("KT4NE8", vec![vec![Parallel], vec![Serial]]), PortPresent(Serial), true),
        (edgework("KT4NE8", vec![]), PortPresent(Serial), false),
    ];
    for (facts, query, expected) in cases {
        assert_eq!(query.evaluate(&facts), expected);
        assert_eq!(Query::Edgework(query).evaluate(&facts, &wires), expected);
    }
}

#[test]
fn serial_number_shape() {
    assert!(SerialNumber::new(b"KT4NE8".to_vec()).is_some());
    assert!(SerialNumber::new(b"KT4NEA".to_vec()).is_none());
    assert!(SerialNumber::new(b"-T4NE8".to_vec()).is_none());
    assert!(SerialNumber::new(Vec::new()).is_none());
    assert_eq!(SerialNumber::new(b"KT4NE7".to_vec()).unwrap().last_digit(), 7);
}

#[test]
fn port_plate_contents() {
    let plate = PortPlate::new(vec![PortType::DVI, PortType::PS2]);
    assert!(plate.has(PortType::PS2));
    assert!(!plate.has(PortType::RJ45));
    assert!(!plate.is_empty());
    assert!(PortPlate::new(vec![]).is_empty());
}

#[test]
fn as_index_resolves_positions() {
    let wires = [Red, Blue, Red, Yellow, Blue];
    assert_eq!(FirstOfColor(Blue).as_index(&wires), Some(1));
    assert_eq!(LastOfColor(Blue).as_index(&wires), Some(4));
    assert_eq!(LastOfColor(Red).as_index(&wires), Some(2));
    assert_eq!(TheOneOfColor(Yellow).as_index(&wires), Some(3));
    assert_eq!(TheOneOfColor(White).as_index(&wires), None);
    assert_eq!(LastOfColor(Black).as_index(&wires), None);
}

#[test]
fn as_index_round_trip() {
    for n in 0..=255u8 {
        assert_eq!(Solution::Index(n).as_index(&[]), Some(n));
        assert_eq!(Solution::Index(n).as_index(&[Red, Black, Blue]), Some(n));
    }
}

#[test]
fn validator_rejects_redundant_pairs() {
    let kinds = [ExactlyOneOfColor, ExactlyZeroOfColor, LastWireIs, MoreThanOneOfColor];
    let rejected_same_color = [
        (ExactlyOneOfColor, ExactlyZeroOfColor),
        (ExactlyOneOfColor, MoreThanOneOfColor),
        (MoreThanOneOfColor, ExactlyZeroOfColor),
        (LastWireIs, ExactlyZeroOfColor),
    ];
    for &x in &kinds {
        for &y in &kinds {
            let same = Rule::new(vec![wire(x, Red), wire(y, Red)], Solution::Index(0));
            let expected = !rejected_same_color
                .iter()
                .any(|&(p, q)| (x == p && y == q) || (x == q && y == p));
            assert_eq!(same.is_valid(), expected, "{:?} {:?} same color", x, y);

            let different = Rule::new(vec![wire(x, Red), wire(y, Blue)], Solution::Index(0));
            let expected = !(x == LastWireIs && y == LastWireIs);
            assert_eq!(different.is_valid(), expected, "{:?} {:?} two colors", x, y);
        }
    }
    let single = Rule::new(vec![wire(LastWireIs, Red)], Solution::Index(0));
    assert!(single.is_valid());
    let with_edgework = Rule::new(
        vec![wire(ExactlyZeroOfColor, Red), Query::Edgework(EdgeworkQuery::SerialOdd)],
        Solution::Index(0),
    );
    assert!(with_edgework.is_valid());
}

#[test]
fn first_match_wins() {
    let facts = edgework("KT4NE8", vec![]);
    let wires = [Red, Black, Blue];
    let first = Rule::new(vec![wire(WireQueryType::LastWireIs, Blue)], Solution::Index(2));
    let second = Rule::new(
        vec![wire(WireQueryType::ExactlyOneOfColor, Red)],
        Solution::TheOneOfColor(Red),
    );
    assert!(first.evaluate(&facts, &wires));
    assert!(second.evaluate(&facts, &wires));
    let list = RuleList::new(vec![first, second], Solution::Index(0));
    assert_eq!(list.evaluate(&facts, &wires), Solution::Index(2));
}

#[test]
fn fallback_when_nothing_matches() {
    let facts = edgework("KT4NE8", vec![vec![PortType::Serial]]);
    let wires = [Red, Black, Blue];
    let rules = vec![
        Rule::new(vec![wire(WireQueryType::LastWireIs, Red)], Solution::Index(1)),
        Rule::new(
            vec![
                wire(WireQueryType::MoreThanOneOfColor, Black),
                Query::Edgework(EdgeworkQuery::SerialOdd),
            ],
            Solution::Index(0),
        ),
        Rule::new(
            vec![Query::Edgework(EdgeworkQuery::HasEmptyPortPlate)],
            Solution::Index(2),
        ),
    ];
    let list = RuleList::new(rules, Solution::LastOfColor(Blue));
    assert_eq!(list.evaluate(&facts, &wires), Solution::LastOfColor(Blue));
    let empty = RuleList::new(vec![], Solution::Index(1));
    assert_eq!(empty.evaluate(&facts, &wires), Solution::Index(1));
}

#[test]
fn compound_rule_needs_every_condition() {
    let facts = edgework("KT4NE7", vec![]);
    let rule = Rule::new(
        vec![
            wire(WireQueryType::ExactlyOneOfColor, Red),
            Query::Edgework(EdgeworkQuery::SerialOdd),
        ],
        Solution::Index(0),
    );
    assert!(rule.evaluate(&facts, &[Red, Black, Blue]));
    assert!(!rule.evaluate(&facts, &[Red, Red, Blue]));
    let even = edgework("KT4NE8", vec![]);
    assert!(!rule.evaluate(&even, &[Red, Black, Blue]));
    assert_eq!(rule.query_count(), 2);
    assert_eq!(rule.query(1), Query::Edgework(EdgeworkQuery::SerialOdd));
}

#[test]
fn condition_metadata() {
    assert_eq!(wire(MoreThanOneOfColor, Red).wires_involved(), 2);
    assert_eq!(wire(ExactlyZeroOfColor, Red).wires_involved(), 0);
    assert_eq!(wire(LastWireIs, Red).wires_involved(), 1);
    assert_eq!(wire(ExactlyOneOfColor, Red).wires_involved(), 1);
    assert_eq!(Query::Edgework(SerialOdd).wires_involved(), 0);

    assert_eq!(
        wire(ExactlyOneOfColor, Blue).additional_solutions(),
        vec![ktane_utils::wires::SolutionWeightKey::TheOneOfColor]
    );
    assert_eq!(
        wire(MoreThanOneOfColor, Blue).additional_solutions(),
        vec![
            ktane_utils::wires::SolutionWeightKey::FirstOfColor,
            ktane_utils::wires::SolutionWeightKey::LastOfColor
        ]
    );
    assert!(wire(LastWireIs, Blue).additional_solutions().is_empty());
    assert!(Query::Edgework(HasEmptyPortPlate).additional_solutions().is_empty());

    assert_eq!(wire(LastWireIs, White).solution_colors(), Some(White));
    assert_eq!(wire(MoreThanOneOfColor, Black).solution_colors(), Some(Black));
    assert_eq!(wire(ExactlyZeroOfColor, Black).solution_colors(), None);
    assert_eq!(Query::Edgework(SerialStartsWithLetter).solution_colors(), None);

    assert_eq!(Color::all_colors(), vec![Black, Blue, Red, White, Yellow]);
    assert_eq!(PortType::all_types().len(), 6);
}
