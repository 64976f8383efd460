use bins::error::BinsError;
use bins::range::{parse_range_set, AnyContains, BidirectionalRange, StableStep};

fn parse(s: &str) -> BidirectionalRange {
    match BidirectionalRange::parse_usize(s) {
        Ok(r) => r,
        Err(e) => panic!("{} did not parse: {}", s, e.describe()),
    }
}

#[test]
fn single_number_is_one_index() {
    let r = parse("5");
    assert_eq!((r.start, r.last), (5, 5));
    assert_eq!(r.indices(), vec![5]);
    let z = parse("0");
    assert_eq!(z.indices(), vec![0]);
}

#[test]
fn ascending_range_is_inclusive() {
    let r = parse("0-2");
    assert_eq!(r.indices(), vec![0, 1, 2]);
    let r = parse("3-7");
    assert_eq!(r.indices().len(), 7 - 3 + 1);
    assert_eq!(r.indices(), vec![3, 4, 5, 6, 7]);
}

#[test]
fn descending_range_is_inclusive_down_to_zero() {
    assert_eq!(parse("2-0").indices(), vec![2, 1, 0]);
    assert_eq!(parse("5-3").indices(), vec![5, 4, 3]);
}

#[test]
fn equal_ends_give_one_index() {
    assert_eq!(parse("4-4").indices(), vec![4]);
}

#[test]
fn largest_index_parses_without_overflow() {
    let text = format!("{}", usize::MAX);
    let r = parse(&text);
    assert_eq!(r.indices(), vec![usize::MAX]);
    let pair = format!("{}-{}", usize::MAX - 1, usize::MAX);
    assert_eq!(parse(&pair).indices(), vec![usize::MAX - 1, usize::MAX]);
}

#[test]
fn membership_matches_enumeration() {
    let set = match parse_range_set("2-0,5-6,9") {
        Ok(s) => s,
        Err(_) => panic!("set did not parse"),
    };
    let mut listed: Vec<usize> = Vec::new();
    for r in &set {
        listed.extend(r.indices());
    }
    for i in 0..12usize {
        assert_eq!(set.any_contains(i), listed.contains(&i), "index {}", i);
    }
}

#[test]
fn contains_in_both_directions() {
    let down = BidirectionalRange::new(4, 1);
    assert!(down.contains(1));
    assert!(down.contains(4));
    assert!(!down.contains(0));
    assert!(!down.contains(5));
    let up = BidirectionalRange::new(1, 4);
    assert!(up.contains(2));
    assert!(!up.contains(5));
}

#[test]
fn empty_spec_is_a_bad_number() {
    assert!(matches!(BidirectionalRange::parse_usize(""), Err(BinsError::BadRangeNumber(s)) if s.is_empty()));
}

#[test]
fn three_numbers_are_a_bad_range() {
    assert!(matches!(BidirectionalRange::parse_usize("1-2-3"), Err(BinsError::BadRange)));
}

#[test]
fn letters_are_a_bad_number() {
    assert!(matches!(BidirectionalRange::parse_usize("x"), Err(BinsError::BadRangeNumber(s)) if s == "x"));
    assert!(matches!(BidirectionalRange::parse_usize("+5"), Err(BinsError::BadRangeNumber(s)) if s == "+5"));
}

#[test]
fn missing_end_is_a_bad_number() {
    assert!(matches!(BidirectionalRange::parse_usize("1-"), Err(BinsError::BadRangeNumber(s)) if s.is_empty()));
}

#[test]
fn overflowing_number_is_a_bad_number() {
    let big = "99999999999999999999999999";
    assert!(matches!(BidirectionalRange::parse_usize(big), Err(BinsError::BadRangeNumber(s)) if s == big));
}

#[test]
fn range_set_keeps_each_range() {
    let set = match parse_range_set("2-0,3") {
        Ok(s) => s,
        Err(_) => panic!("set did not parse"),
    };
    let ends: Vec<(usize, usize)> = set.iter().map(|r| (r.start, r.last)).collect();
    assert_eq!(ends, vec![(2, 0), (3, 3)]);
}

#[test]
fn range_set_reports_first_bad_part() {
    assert!(matches!(parse_range_set("0,x,1-2-3"), Err(BinsError::BadRangeNumber(s)) if s == "x"));
    assert!(matches!(parse_range_set("0,,1"), Err(BinsError::BadRangeNumber(s)) if s.is_empty()));
}

#[test]
fn steps_stop_at_the_ends_of_usize() {
    assert_eq!(usize::MAX.forward(1), None);
    assert_eq!(0usize.backward(1), None);
    assert_eq!(3usize.forward(2), Some(5));
    assert_eq!(3usize.backward(2), Some(1));
}

#[test]
fn nth_walks_without_consuming() {
    let r = parse("2-0");
    assert_eq!(r.nth(0), Some(2));
    assert_eq!(r.nth(2), Some(0));
    assert_eq!(r.nth(3), None);
    assert_eq!(r.nth(0), Some(2));
    let up = parse("1-2");
    assert_eq!(up.nth(1), Some(2));
    assert_eq!(up.nth(2), None);
}
