use dice_roller::stats::{compute_report, roll_stats};

#[test]
fn test_roll_stats_exact() {
    let outcomes: Vec<i32> = vec![4, 6, 2];
    let s = roll_stats(&outcomes);
    assert_eq!(s.count, 3);
    assert_eq!(s.total, 12);
    assert_eq!(s.highest, 6);
    assert_eq!(s.lowest, 2);
}

#[test]
fn test_roll_stats_single_die() {
    let outcomes: Vec<i32> = vec![5];
    let s = roll_stats(&outcomes);
    assert_eq!(s.count, 1);
    assert_eq!(s.total, 5);
    assert_eq!(s.highest, 5);
    assert_eq!(s.lowest, 5);
}

#[test]
fn test_roll_stats_empty_roll() {
    let outcomes: Vec<i32> = Vec::new();
    let s = roll_stats(&outcomes);
    assert_eq!(s.count, 0);
    assert_eq!(s.total, 0);
    assert_eq!(s.highest, 0);
    assert_eq!(s.lowest, 0);
}

#[test]
fn test_report_aggregates_across_rolls() {
    let history: Vec<Vec<i32>> = vec![vec![1, 2], vec![6], vec![3, 3]];
    let r = compute_report(&history);
    assert_eq!(r.per_roll.len(), 3);
    assert_eq!(r.per_roll[0].count, 2);
    assert_eq!(r.per_roll[0].total, 3);
    assert_eq!(r.per_roll[0].highest, 2);
    assert_eq!(r.per_roll[0].lowest, 1);
    assert_eq!(r.per_roll[1].count, 1);
    assert_eq!(r.per_roll[1].total, 6);
    assert_eq!(r.per_roll[2].total, 6);
    assert_eq!(r.per_roll[2].highest, 3);
    assert_eq!(r.per_roll[2].lowest, 3);
    assert_eq!(r.total_dice, 5);
    assert_eq!(r.total_sum, 15);
    assert_eq!(r.highest, 6);
    assert_eq!(r.lowest, 1);
}

#[test]
fn test_report_empty_history() {
    let history: Vec<Vec<i32>> = Vec::new();
    let r = compute_report(&history);
    assert_eq!(r.per_roll.len(), 0);
    assert_eq!(r.total_dice, 0);
    assert_eq!(r.total_sum, 0);
    assert_eq!(r.highest, 0);
    assert_eq!(r.lowest, 0);
}

#[test]
fn test_report_skips_empty_roll_in_aggregates() {
    let history: Vec<Vec<i32>> = vec![vec![5], Vec::new()];
    let r = compute_report(&history);
    assert_eq!(r.per_roll.len(), 2);
    assert_eq!(r.per_roll[1].count, 0);
    assert_eq!(r.per_roll[1].total, 0);
    assert_eq!(r.total_dice, 1);
    assert_eq!(r.total_sum, 5);
    assert_eq!(r.highest, 5);
    assert_eq!(r.lowest, 5);
}
