use std::cmp::Ordering;

use elvui_manager::version::{ParseError, Version};

fn version(text: &str) -> Version {
    Version::parse(text).expect("a valid version")
}

fn components(v: &Version) -> Vec<u64> {
    (0..v.len()).map(|i| v.component(i)).collect()
}

#[test]
fn parse_reads_each_component_as_a_number() {
    assert_eq!(components(&version("1.2.3")), vec![1, 2, 3]);
    assert_eq!(components(&version("12.66")), vec![12, 66]);
    assert_eq!(components(&version("7")), vec![7]);
    assert_eq!(components(&version("0")), vec![0]);
}

#[test]
fn parse_ignores_leading_zeros() {
    assert_eq!(components(&version("01.002.0")), vec![1, 2, 0]);
    assert_eq!(components(&version("000")), vec![0]);
}

#[test]
fn parse_takes_the_largest_number_that_fits() {
    assert_eq!(components(&version("18446744073709551615")), vec![u64::MAX]);
    assert_eq!(components(&version("1.18446744073709551615.2")), vec![1, u64::MAX, 2]);
}

#[test]
fn parse_rejects_a_number_that_does_not_fit() {
    assert_eq!(Version::parse("18446744073709551616").err(), Some(ParseError::TooLarge));
    assert_eq!(Version::parse("1.99999999999999999999999.2").err(), Some(ParseError::TooLarge));
}

#[test]
fn parse_rejects_an_empty_component() {
    assert_eq!(Version::parse("").err(), Some(ParseError::EmptyComponent));
    assert_eq!(Version::parse(".").err(), Some(ParseError::EmptyComponent));
    assert_eq!(Version::parse("1..2").err(), Some(ParseError::EmptyComponent));
    assert_eq!(Version::parse("1.2.").err(), Some(ParseError::EmptyComponent));
    assert_eq!(Version::parse(".1").err(), Some(ParseError::EmptyComponent));
}

#[test]
fn parse_rejects_what_is_not_a_number() {
    assert_eq!(Version::parse("1.a").err(), Some(ParseError::NotNumeric));
    assert_eq!(Version::parse("12.66|enUS").err(), Some(ParseError::NotNumeric));
    assert_eq!(Version::parse("1.2-rc1").err(), Some(ParseError::NotNumeric));
    assert_eq!(Version::parse(" 1.2").err(), Some(ParseError::NotNumeric));
    assert_eq!(Version::parse("-1").err(), Some(ParseError::NotNumeric));
    assert_eq!(Version::parse("+1").err(), Some(ParseError::NotNumeric));
    assert_eq!(Version::parse("1.２").err(), Some(ParseError::NotNumeric));
}

#[test]
fn parse_reports_the_first_component_in_error() {
    assert_eq!(Version::parse("1..x").err(), Some(ParseError::EmptyComponent));
    assert_eq!(Version::parse("x..1").err(), Some(ParseError::NotNumeric));
    assert_eq!(Version::parse("99999999999999999999.x").err(), Some(ParseError::TooLarge));
}

#[test]
fn parse_prefers_not_numeric_within_one_component() {
    assert_eq!(Version::parse("18446744073709551616x").err(), Some(ParseError::NotNumeric));
}

#[test]
fn component_beyond_the_end_is_zero() {
    let v = version("4.5");
    assert_eq!(v.len(), 2);
    assert_eq!(v.component(0), 4);
    assert_eq!(v.component(1), 5);
    assert_eq!(v.component(2), 0);
    assert_eq!(v.component(usize::MAX), 0);
}

#[test]
fn numeric_comparison_beats_character_comparison() {
    assert_eq!(version("12.66").compare(&version("9.9")), Ordering::Greater);
    assert_eq!(version("9.9").compare(&version("12.66")), Ordering::Less);
    assert_eq!(version("1.10").compare(&version("1.9")), Ordering::Greater);
}

#[test]
fn trailing_zero_components_do_not_matter() {
    assert_eq!(version("1.2").compare(&version("1.2.0")), Ordering::Equal);
    assert_eq!(version("1.2.3").compare(&version("1.2.3.0")), Ordering::Equal);
    assert_eq!(version("1.2.0.0").compare(&version("1.2")), Ordering::Equal);
    assert_eq!(version("1.2.0.1").compare(&version("1.2")), Ordering::Greater);
    assert_eq!(version("1.2").compare(&version("1.2.0.1")), Ordering::Less);
}

#[test]
fn first_difference_decides() {
    assert_eq!(version("1.2.3").compare(&version("1.3.0")), Ordering::Less);
    assert_eq!(version("2.0").compare(&version("1.99.99")), Ordering::Greater);
    assert_eq!(version("12.65").compare(&version("12.66")), Ordering::Less);
    assert_eq!(version("12.67").compare(&version("12.66")), Ordering::Greater);
    assert_eq!(version("12.66").compare(&version("12.66")), Ordering::Equal);
}

#[test]
fn first_difference_is_found_where_it_is() {
    assert_eq!(version("1.2.3").first_difference(&version("1.2.3")), None);
    assert_eq!(version("1.2").first_difference(&version("1.2.0.0")), None);
    assert_eq!(version("1.2.3").first_difference(&version("1.2.4")), Some(2));
    assert_eq!(version("1.2").first_difference(&version("1.2.0.7")), Some(3));
    assert_eq!(version("3").first_difference(&version("4.1")), Some(0));
}

const SAMPLES: [&str; 12] = [
    "0", "0.0", "0.1", "1", "1.0", "1.0.0", "1.2", "1.2.0", "1.10", "9.9", "12.66",
    "12.66.0.1",
];

#[test]
fn order_is_reflexive_on_samples() {
    for a in SAMPLES {
        assert_eq!(version(a).compare(&version(a)), Ordering::Equal);
    }
}

#[test]
fn order_turns_around_when_versions_are_swapped() {
    for a in SAMPLES {
        for b in SAMPLES {
            let forth = version(a).compare(&version(b));
            let back = version(b).compare(&version(a));
            assert_eq!(forth, back.reverse(), "{} and {}", a, b);
        }
    }
}

#[test]
fn order_is_transitive_on_samples() {
    for a in SAMPLES {
        for b in SAMPLES {
            for c in SAMPLES {
                let ab = version(a).compare(&version(b));
                let bc = version(b).compare(&version(c));
                let ac = version(a).compare(&version(c));
                if ab != Ordering::Greater && bc != Ordering::Greater {
                    assert_ne!(ac, Ordering::Greater, "{} {} {}", a, b, c);
                    if ab == Ordering::Less || bc == Ordering::Less {
                        assert_eq!(ac, Ordering::Less, "{} {} {}", a, b, c);
                    }
                }
            }
        }
    }
}

#[test]
fn order_agrees_with_version_compare_on_samples() {
    for a in SAMPLES {
        for b in SAMPLES {
            let theirs = version_compare::Version::from(a)
                .unwrap()
                .compare(version_compare::Version::from(b).unwrap());
            let expected = match theirs {
                version_compare::Cmp::Lt => Ordering::Less,
                version_compare::Cmp::Eq => Ordering::Equal,
                version_compare::Cmp::Gt => Ordering::Greater,
                other => panic!("unexpected {:?}", other),
            };
            assert_eq!(version(a).compare(&version(b)), expected, "{} and {}", a, b);
        }
    }
}
