use std::cmp::Ordering;

use game_engine::evaluation::PositionEvaluation;

#[test]
pub fn test_partial_ord_for_position_evaluation() {
    let ordering = PositionEvaluation::Winning.partial_cmp(&PositionEvaluation::Winning);
    assert_eq!(ordering.unwrap(), Ordering::Equal);
    let ordering = PositionEvaluation::Winning.partial_cmp(&PositionEvaluation::Estimate(5));
    assert_eq!(ordering.unwrap(), Ordering::Greater);
    let ordering = PositionEvaluation::Winning.partial_cmp(&PositionEvaluation::Losing);
    assert_eq!(ordering.unwrap(), Ordering::Greater);
    let ordering = PositionEvaluation::Estimate(5).partial_cmp(&PositionEvaluation::Winning);
    assert_eq!(ordering.unwrap(), Ordering::Less);
    let ordering = PositionEvaluation::Estimate(5).partial_cmp(&PositionEvaluation::Estimate(-5));
    assert_eq!(ordering.unwrap(), Ordering::Greater);
    let ordering = PositionEvaluation::Estimate(5).partial_cmp(&PositionEvaluation::Estimate(5));
    assert_eq!(ordering.unwrap(), Ordering::Equal);
    let ordering = PositionEvaluation::Estimate(5).partial_cmp(&PositionEvaluation::Estimate(10));
    assert_eq!(ordering.unwrap(), Ordering::Less);
    let ordering = PositionEvaluation::Estimate(5).partial_cmp(&PositionEvaluation::Losing);
    assert_eq!(ordering.unwrap(), Ordering::Greater);
    let ordering = PositionEvaluation::Losing.partial_cmp(&PositionEvaluation::Winning);
    assert_eq!(ordering.unwrap(), Ordering::Less);
    let ordering = PositionEvaluation::Losing.partial_cmp(&PositionEvaluation::Estimate(0));
    assert_eq!(ordering.unwrap(), Ordering::Less);
    let ordering = PositionEvaluation::Losing.partial_cmp(&PositionEvaluation::Losing);
    assert_eq!(ordering.unwrap(), Ordering::Equal);
}

#[test]
fn order_of_shapes_holds_for_sample_values() {
    let pairs: [(i64, i64); 4] = [(-3, 7), (0, 1), (i64::MIN, i64::MAX), (-10, -9)];
    for (x, y) in pairs {
        assert!(PositionEvaluation::Estimate(x) < PositionEvaluation::Estimate(y));
        assert!(PositionEvaluation::Estimate(y) < PositionEvaluation::Winning);
        assert!(PositionEvaluation::Losing < PositionEvaluation::Estimate(x));
    }
    assert!(PositionEvaluation::Winning == PositionEvaluation::Winning);
    assert!(PositionEvaluation::Losing == PositionEvaluation::Losing);
    assert!(!(PositionEvaluation::Winning < PositionEvaluation::Winning));
    assert!(!(PositionEvaluation::Losing > PositionEvaluation::Losing));
}

#[test]
fn extreme_estimates_stay_between_losing_and_winning() {
    assert!(PositionEvaluation::Estimate(i64::MAX) < PositionEvaluation::Winning);
    assert!(PositionEvaluation::Estimate(i64::MIN) > PositionEvaluation::Losing);
    assert!(PositionEvaluation::Estimate(3) == PositionEvaluation::Estimate(3));
    assert!(PositionEvaluation::Estimate(3) != PositionEvaluation::Estimate(4));
}
