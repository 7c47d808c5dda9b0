use ktane_utils::edgework::{Edgework, PortPlate, PortType, SerialNumber};
use ktane_utils::random::{SeededRandom, MAX_VALUE};
use ktane_utils::rules::{RuleSet, MAX_WIRES, MIN_WIRES};
use ktane_utils::wires::Color::{Black, Blue, Red, White, Yellow};
use ktane_utils::wires::{Query, Solution};

/// A small deterministic generator standing in for the rule seed generator.
struct SplitMix {
    state: u64,
}

impl SplitMix {
    fn next_u64(&mut self) -> u64 {
        self.state = self.state.wrapping_add(0x9E37_79B9_7F4A_7C15);
        let mut z = self.state;
        z = (z ^ (z >> 30)).wrapping_mul(0xBF58_476D_1CE4_E5B9);
        z = (z ^ (z >> 27)).wrapping_mul(0x94D0_49BB_1331_11EB);
        z ^ (z >> 31)
    }

    fn next_double(&mut self) -> f64 {
        (self.next_u64() >> 11) as f64 / (1u64 << 53) as f64
    }
}

impl SeededRandom for SplitMix {
    fn from_seed(seed: u32) -> Self {
        SplitMix { state: seed as u64 }
    }

    fn next_double_below(&mut self, numerator: u32, denominator: u32) -> bool {
        self.next_double() < numerator as f64 / denominator as f64
    }

    fn next_below(&mut self, n: u32) -> u32 {
        ((self.next_double() * n as f64) as u32).min(n - 1)
    }

    fn choice(&mut self, len: usize) -> Option<usize> {
        if len == 0 {
            None
        } else {
            Some(self.next_below(len as u32) as usize)
        }
    }

    fn weighted_select(&mut self, decays: &Vec<u32>, divisor: u32) -> usize {
        let weights: Vec<f64> = decays
            .iter()
            .map(|&d| {
                let mut w = 1.0f64;
                for _ in 0..d {
                    w *= 1.0 / divisor as f64;
                }
                w
            })
            .collect();
        let total: f64 = weights.iter().sum();
        let mut value = self.next_double() * total;
        for (i, w) in weights.iter().enumerate() {
            if value < *w {
                return i;
            }
            value -= w;
        }
        weights.len() - 1
    }
}

/// A generator whose first draws build only rules of two last-wire conditions, which the
/// validator rejects; after that it asks for rules with one condition.
struct RejectFirst {
    draws: u64,
}

impl SeededRandom for RejectFirst {
    fn from_seed(_seed: u32) -> Self {
        RejectFirst { draws: 0 }
    }

    fn next_double_below(&mut self, _numerator: u32, _denominator: u32) -> bool {
        self.draws += 1;
        self.draws > 1000
    }

    fn next_below(&mut self, _n: u32) -> u32 {
        self.draws += 1;
        0
    }

    fn choice(&mut self, len: usize) -> Option<usize> {
        self.draws += 1;
        if len == 0 {
            None
        } else {
            Some(0)
        }
    }

    fn weighted_select(&mut self, decays: &Vec<u32>, _divisor: u32) -> usize {
        self.draws += 1;
        // The last-wire kind stands third among the four main kinds and fifth among the
        // second-condition kinds.
        if decays.len() == 4 {
            2
        } else {
            4.min(decays.len() - 1)
        }
    }
}

fn seeds() -> Vec<u32> {
    let mut seeds = vec![0, 2, 3, 42, 1000, 65535, MAX_VALUE - 1, MAX_VALUE];
    seeds.extend((4..200).step_by(7));
    seeds
}

fn check_shape(set: &RuleSet) {
    for wire_count in MIN_WIRES..=MAX_WIRES {
        let list = set.get(wire_count).unwrap();
        let count = list.rule_count();
        assert!(count == 3 || count == 4);
        let mut seen_single = false;
        for i in 0..count {
            let rule = list.rule(i);
            assert!(rule.is_valid());
            let queries = rule.query_count();
            assert!(queries == 1 || queries == 2);
            if queries == 1 {
                seen_single = true;
            } else {
                assert!(!seen_single, "a compound rule follows a single one");
            }
            assert!(matches!(rule.query(0), Query::Wire(_)));
            if let Solution::Index(n) = rule.solution {
                assert!((n as usize) < wire_count);
            }
        }
        match list.otherwise {
            Solution::Index(n) => assert!((n as usize) < wire_count),
            other => panic!("fallback {:?} is not by position", other),
        }
    }
}

#[test]
fn generation_is_deterministic() {
    for seed in seeds() {
        let a = RuleSet::new::<SplitMix>(seed).unwrap();
        let b = RuleSet::new::<SplitMix>(seed).unwrap();
        assert_eq!(a, b, "seed {}", seed);
    }
}

#[test]
fn generated_lists_have_three_or_four_rules_compound_first() {
    for seed in seeds() {
        check_shape(&RuleSet::new::<SplitMix>(seed).unwrap());
    }
}

#[test]
fn lookup_outside_wire_counts_fails() {
    let mut set = RuleSet::new::<SplitMix>(7).unwrap();
    assert!(set.get(2).is_none());
    assert!(set.get(7).is_none());
    assert!(set.get(0).is_none());
    assert!(set.get(3).is_some());
    assert!(set.get(6).is_some());
    assert!(set.get_mut(7).is_none());
    let list = set.get_mut(4).unwrap();
    list.otherwise = Solution::Index(3);
    assert_eq!(set.get(4).unwrap().otherwise, Solution::Index(3));
}

#[test]
fn end_to_end_three_wires() {
    let set = RuleSet::new::<SplitMix>(5).unwrap();
    let list = set.get(3).unwrap();
    let count = list.rule_count();
    assert!(count == 3 || count == 4);
    for i in 0..count {
        if list.rule(i).query_count() == 2 {
            assert!(list.rule(i).is_valid());
        }
    }
    let facts = Edgework {
        serial_number: SerialNumber::new(b"AB1CD2".to_vec()).unwrap(),
        port_plates: vec![PortPlate::new(vec![PortType::Serial, PortType::Parallel])],
    };
    let wires = [Red, Black, Blue];
    let solution = set.evaluate(&facts, &wires);
    assert_eq!(solution, list.evaluate(&facts, &wires));
    assert!(solution.as_index(&wires).is_some() || !matches!(solution, Solution::Index(_)));
    for wires in [[White, White, Yellow], [Yellow, Blue, Yellow]] {
        let solution = set.evaluate(&facts, &wires);
        if let Solution::Index(n) = solution {
            assert!(n < 3);
        }
    }
}

#[test]
fn evaluate_uses_the_list_for_the_wire_count() {
    let set = RuleSet::new::<SplitMix>(11).unwrap();
    let facts = Edgework {
        serial_number: SerialNumber::new(b"9Z0XY5".to_vec()).unwrap(),
        port_plates: vec![PortPlate::new(vec![])],
    };
    for wires in [
        vec![Red, Black, Blue, Yellow],
        vec![Red, Black, Blue, Yellow, White],
        vec![Red, Black, Blue, Yellow, White, White],
    ] {
        let list = set.get(wires.len()).unwrap();
        assert_eq!(set.evaluate(&facts, &wires), list.evaluate(&facts, &wires));
    }
}

#[test]
fn rejected_rules_are_drawn_again() {
    let set = RuleSet::new::<RejectFirst>(9).unwrap();
    check_shape(&set);
    for wire_count in MIN_WIRES..=MAX_WIRES {
        let list = set.get(wire_count).unwrap();
        for i in 0..list.rule_count() {
            assert_eq!(list.rule(i).query_count(), 1);
        }
    }
}

#[test]
fn tmp() {
    let rules = RuleSet::new::<SplitMix>(2);
    println!("{:#?}", rules);
    assert!(rules.is_some());
}
