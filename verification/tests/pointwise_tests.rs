use pointwise::paired_walker::PairedWalker;
use pointwise::pointwise_matcher::PointwiseMatcher;
use pointwise::predicate::{DebugText, MatcherResult, Predicate};
use pointwise::predicates::{EqPredicate, LtPredicate};

fn eq(expected: i64) -> EqPredicate {
    EqPredicate { expected }
}

fn lt(upper: i64) -> LtPredicate {
    LtPredicate { upper }
}

#[test]
fn matches_when_equal_lengths_and_all_satisfied() {
    let matcher = PointwiseMatcher::new(vec![lt(2), lt(3)]);
    let value: Vec<i64> = vec![1, 2];
    assert_eq!(matcher.matches(value.as_slice()), MatcherResult::Matches);
}

#[test]
fn matches_single_element() {
    let matcher = PointwiseMatcher::new(vec![lt(2)]);
    let value: Vec<i64> = vec![1];
    assert_eq!(matcher.matches(value.as_slice()), MatcherResult::Matches);
}

#[test]
fn matches_empty_sequences() {
    let matcher: PointwiseMatcher<EqPredicate> = PointwiseMatcher::new(vec![]);
    let value: Vec<i64> = vec![];
    assert_eq!(matcher.matches(value.as_slice()), MatcherResult::Matches);
    assert_eq!(
        matcher.explain_match(value.as_slice()),
        "which matches all elements"
    );
}

#[test]
fn does_not_match_value_of_wrong_length() {
    let matcher = PointwiseMatcher::new(vec![lt(2), lt(3)]);
    let value: Vec<i64> = vec![1];
    assert_eq!(matcher.matches(value.as_slice()), MatcherResult::DoesNotMatch);
}

#[test]
fn does_not_match_value_not_matching_in_first_position() {
    let matcher = PointwiseMatcher::new(vec![lt(1), lt(3)]);
    let value: Vec<i64> = vec![1, 2];
    assert_eq!(matcher.matches(value.as_slice()), MatcherResult::DoesNotMatch);
}

#[test]
fn does_not_match_value_not_matching_in_second_position() {
    let matcher = PointwiseMatcher::new(vec![lt(2), lt(2)]);
    let value: Vec<i64> = vec![1, 2];
    assert_eq!(matcher.matches(value.as_slice()), MatcherResult::DoesNotMatch);
}

#[test]
fn explains_size_mismatch_when_actual_is_longer() {
    let matcher = PointwiseMatcher::new(vec![eq(1), eq(2)]);
    let value: Vec<i64> = vec![1, 2, 3];
    assert_eq!(matcher.matches(value.as_slice()), MatcherResult::DoesNotMatch);
    assert_eq!(
        matcher.explain_match(value.as_slice()),
        "which has size 3 (expected 2)"
    );
}

#[test]
fn explains_size_mismatch_with_full_observed_count() {
    let matcher = PointwiseMatcher::new(vec![eq(1), eq(2)]);
    let value: Vec<i64> = vec![1, 2, 3, 4];
    assert_eq!(
        matcher.explain_match(value.as_slice()),
        "which has size 4 (expected 2)"
    );
}

#[test]
fn explains_size_mismatch_when_actual_is_shorter() {
    let matcher = PointwiseMatcher::new(vec![eq(1), eq(2)]);
    let value: Vec<i64> = vec![1];
    assert_eq!(matcher.matches(value.as_slice()), MatcherResult::DoesNotMatch);
    assert_eq!(
        matcher.explain_match(value.as_slice()),
        "which has size 1 (expected 2)"
    );
}

#[test]
fn explains_mismatch_in_first_position() {
    let matcher = PointwiseMatcher::new(vec![eq(2), eq(2), eq(3)]);
    let value: Vec<i64> = vec![1, 2, 3];
    assert_eq!(matcher.matches(value.as_slice()), MatcherResult::DoesNotMatch);
    assert_eq!(
        matcher.explain_match(value.as_slice()),
        "where element #0 is 1, which isn't equal to 2"
    );
}

#[test]
fn explains_mismatch_in_second_position() {
    let matcher = PointwiseMatcher::new(vec![eq(1), eq(3), eq(3)]);
    let value: Vec<i64> = vec![1, 2, 3];
    assert_eq!(matcher.matches(value.as_slice()), MatcherResult::DoesNotMatch);
    assert_eq!(
        matcher.explain_match(value.as_slice()),
        "where element #1 is 2, which isn't equal to 3"
    );
}

#[test]
fn explains_two_mismatches_as_bullet_list() {
    let matcher = PointwiseMatcher::new(vec![eq(2), eq(3), eq(3)]);
    let value: Vec<i64> = vec![1, 2, 3];
    assert_eq!(matcher.matches(value.as_slice()), MatcherResult::DoesNotMatch);
    assert_eq!(
        matcher.explain_match(value.as_slice()),
        "where:\n  * element #0 is 1, which isn't equal to 2\n  * element #1 is 2, which isn't equal to 3"
    );
}

#[test]
fn explains_three_mismatches_in_ascending_order() {
    let matcher = PointwiseMatcher::new(vec![eq(9), eq(2), eq(9), eq(9)]);
    let value: Vec<i64> = vec![1, 2, 3, 4];
    assert_eq!(
        matcher.explain_match(value.as_slice()),
        "where:\n  * element #0 is 1, which isn't equal to 9\n  * element #2 is 3, which isn't equal to 9\n  * element #3 is 4, which isn't equal to 9"
    );
}

#[test]
fn content_mismatch_takes_precedence_over_size_mismatch() {
    let matcher = PointwiseMatcher::new(vec![eq(1), eq(2)]);
    let value: Vec<i64> = vec![5, 2, 3];
    assert_eq!(
        matcher.explain_match(value.as_slice()),
        "where element #0 is 5, which isn't equal to 1"
    );
}

#[test]
fn explains_match_when_everything_satisfied() {
    let matcher = PointwiseMatcher::new(vec![eq(1), eq(2)]);
    let value: Vec<i64> = vec![1, 2];
    assert_eq!(
        matcher.explain_match(value.as_slice()),
        "which matches all elements"
    );
}

#[test]
fn explains_mismatch_with_negative_values() {
    let matcher = PointwiseMatcher::new(vec![eq(-7)]);
    let value: Vec<i64> = vec![-5];
    assert_eq!(
        matcher.explain_match(value.as_slice()),
        "where element #0 is -5, which isn't equal to -7"
    );
}

#[test]
fn describes_each_predicate_in_order() {
    let matcher = PointwiseMatcher::new(vec![eq(1), eq(2)]);
    assert_eq!(
        matcher.describe::<i64>(MatcherResult::Matches),
        "has elements satisfying respectively:\n  0. is equal to 1\n  1. is equal to 2"
    );
}

#[test]
fn describes_negatively_with_flipped_verb_only() {
    let matcher = PointwiseMatcher::new(vec![eq(1), eq(2)]);
    assert_eq!(
        matcher.describe::<i64>(MatcherResult::DoesNotMatch),
        "doesn't have elements satisfying respectively:\n  0. is equal to 1\n  1. is equal to 2"
    );
}

#[test]
fn describes_eleven_predicates_with_two_digit_positions() {
    let mut predicates = Vec::new();
    for k in 0..11 {
        predicates.push(lt(k));
    }
    let description = PointwiseMatcher::new(predicates).describe::<i64>(MatcherResult::Matches);
    assert!(description.ends_with("\n  10. is less than 10"));
}

#[test]
fn describes_empty_predicate_list() {
    let matcher: PointwiseMatcher<EqPredicate> = PointwiseMatcher::new(vec![]);
    assert_eq!(
        matcher.describe::<i64>(MatcherResult::Matches),
        "has elements satisfying respectively:\n"
    );
}

#[test]
fn eq_predicate_tests_explains_and_describes() {
    let predicate = eq(2);
    assert_eq!(predicate.matches(&2), MatcherResult::Matches);
    assert_eq!(predicate.matches(&3), MatcherResult::DoesNotMatch);
    assert_eq!(predicate.explain_match(&2), "which is equal to 2");
    assert_eq!(predicate.explain_match(&3), "which isn't equal to 2");
    assert_eq!(predicate.describe(MatcherResult::Matches), "is equal to 2");
    assert_eq!(predicate.describe(MatcherResult::DoesNotMatch), "isn't equal to 2");
}

#[test]
fn lt_predicate_tests_explains_and_describes() {
    let predicate = lt(2);
    assert_eq!(predicate.matches(&1), MatcherResult::Matches);
    assert_eq!(predicate.matches(&2), MatcherResult::DoesNotMatch);
    assert_eq!(predicate.explain_match(&1), "which is less than 2");
    assert_eq!(predicate.explain_match(&5), "which isn't less than 2");
    assert_eq!(predicate.describe(MatcherResult::Matches), "is less than 2");
    assert_eq!(predicate.describe(MatcherResult::DoesNotMatch), "isn't less than 2");
}

#[test]
fn renders_integers_as_decimal_text() {
    assert_eq!(0i64.to_text(), "0");
    assert_eq!(7i64.to_text(), "7");
    assert_eq!(10i64.to_text(), "10");
    assert_eq!(1234567890i64.to_text(), "1234567890");
    assert_eq!((-1i64).to_text(), "-1");
    assert_eq!(i64::MAX.to_text(), "9223372036854775807");
    assert_eq!(i64::MIN.to_text(), "-9223372036854775808");
}

#[test]
fn matcher_result_picks_by_outcome() {
    assert_eq!(MatcherResult::Matches.pick("has", "doesn't have"), "has");
    assert_eq!(MatcherResult::DoesNotMatch.pick("has", "doesn't have"), "doesn't have");
}

#[test]
fn walker_yields_overlapping_pairs_in_order() {
    let left: Vec<i64> = vec![1, 2];
    let right: Vec<i64> = vec![10, 20];
    let mut walker = PairedWalker::new(left.as_slice(), right.as_slice());
    assert_eq!(walker.next(), Some((&1, &10)));
    assert_eq!(walker.next(), Some((&2, &20)));
    assert_eq!(walker.next(), None);
    assert!(!walker.has_size_mismatch());
    assert_eq!(walker.left_size(), 2);
}

#[test]
fn walker_reports_leftover_left_elements() {
    let left: Vec<i64> = vec![1, 2, 3, 4];
    let right: Vec<i64> = vec![10, 20];
    let mut walker = PairedWalker::new(left.as_slice(), right.as_slice());
    assert_eq!(walker.next(), Some((&1, &10)));
    assert_eq!(walker.next(), Some((&2, &20)));
    assert_eq!(walker.next(), None);
    assert!(walker.has_size_mismatch());
    assert_eq!(walker.left_size(), 4);
}

#[test]
fn walker_reports_leftover_right_elements() {
    let left: Vec<i64> = vec![1];
    let right: Vec<i64> = vec![10, 20];
    let mut walker = PairedWalker::new(left.as_slice(), right.as_slice());
    assert_eq!(walker.next(), Some((&1, &10)));
    assert_eq!(walker.next(), None);
    assert!(walker.has_size_mismatch());
    assert_eq!(walker.left_size(), 1);
}

#[test]
fn walker_query_sees_unconsumed_elements_after_early_stop() {
    let left: Vec<i64> = vec![1, 2];
    let right: Vec<i64> = vec![10, 20];
    let mut walker = PairedWalker::new(left.as_slice(), right.as_slice());
    assert_eq!(walker.next(), Some((&1, &10)));
    assert!(walker.has_size_mismatch());
    assert_eq!(walker.left_size(), 1);
}
