use dice_roller::face::Pips;
use dice_roller::session::{parse_dice_count, try_report, Session};

#[test]
fn test_parse_dice_count_valid() {
    assert_eq!(parse_dice_count(b"2"), Some(2));
    assert_eq!(parse_dice_count(b"0"), Some(0));
    assert_eq!(parse_dice_count(b"007"), Some(7));
    assert_eq!(parse_dice_count(b"123"), Some(123));
}

#[test]
fn test_parse_dice_count_invalid() {
    assert_eq!(parse_dice_count(b""), None);
    assert_eq!(parse_dice_count(b"abc"), None);
    assert_eq!(parse_dice_count(b"12a"), None);
    assert_eq!(parse_dice_count(b"-3"), None);
    assert_eq!(parse_dice_count(b" 2"), None);
    assert_eq!(parse_dice_count(b"1.5"), None);
}

#[test]
fn test_parse_dice_count_too_large() {
    assert_eq!(parse_dice_count(b"99999999999999999999999999"), None);
}

#[test]
fn test_do_roll_records_history() {
    let mut session = Session::new();
    assert_eq!(session.history.len(), 0);
    let sizes: [usize; 3] = [3, 1, 4];
    for n in sizes {
        let frame = session.do_roll(n);
        assert_eq!(frame.len(), 5);
    }
    assert_eq!(session.history.len(), 3);
    for (i, n) in sizes.iter().enumerate() {
        assert_eq!(session.history[i].len(), *n);
        for x in &session.history[i] {
            assert!(1 <= *x && *x <= 6);
        }
    }
}

#[test]
fn test_do_roll_frame_shows_recorded_outcomes() {
    let mut session = Session::new();
    let frame = session.do_roll(2);
    assert_eq!(frame.len(), 5);
    let record = &session.history[0];
    let left = Pips::from_outcome(record[0]).as_array();
    let right = Pips::from_outcome(record[1]).as_array();
    for i in 0..5 {
        assert_eq!(frame[i], format!("  {}  {}", left[i], right[i]));
    }
}

#[test]
fn test_session_scenario_two_rolls_then_exit() {
    let mut session = Session::new();
    let inputs: [&[u8]; 3] = [b"2", b"0", b"abc"];
    for line in inputs {
        match parse_dice_count(line) {
            Some(n) => {
                session.do_roll(n);
            }
            None => break,
        }
    }
    assert_eq!(session.history.len(), 2);
    assert_eq!(session.history[0].len(), 2);
    assert_eq!(session.history[1].len(), 0);

    let report = try_report(&session.history).unwrap();
    assert_eq!(report.per_roll.len(), 2);
    assert_eq!(report.per_roll[1].count, 0);
    assert_eq!(report.per_roll[1].total, 0);
    assert_eq!(report.total_dice, 2);
}

#[test]
fn test_session_scenario_immediate_exit() {
    let mut session = Session::new();
    let inputs: [&[u8]; 1] = [b""];
    for line in inputs {
        match parse_dice_count(line) {
            Some(n) => {
                session.do_roll(n);
            }
            None => break,
        }
    }
    assert_eq!(session.history.len(), 0);
    let report = try_report(&session.history).unwrap();
    assert_eq!(report.total_dice, 0);
    assert_eq!(report.total_sum, 0);
    assert_eq!(report.highest, 0);
    assert_eq!(report.lowest, 0);
}
