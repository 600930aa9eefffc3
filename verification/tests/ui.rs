use keygen::ui::{preview, saved_rows, strength_label, wrap_lines};

#[test]
fn strength_thresholds() {
    assert_eq!(strength_label(256), "EXCELLENT (128+ bits)");
    assert_eq!(strength_label(128), "EXCELLENT (128+ bits)");
    assert_eq!(strength_label(127), "STRONG (80+ bits)");
    assert_eq!(strength_label(80), "STRONG (80+ bits)");
    assert_eq!(strength_label(79), "GOOD (60+ bits)");
    assert_eq!(strength_label(60), "GOOD (60+ bits)");
    assert_eq!(strength_label(59), "MODERATE (40+ bits)");
    assert_eq!(strength_label(40), "MODERATE (40+ bits)");
    assert_eq!(strength_label(39), "WEAK (< 40 bits)");
    assert_eq!(strength_label(0), "WEAK (< 40 bits)");
}

#[test]
fn wrap_splits_into_runs() {
    assert_eq!(wrap_lines(80, 36, 100), (vec![(0, 36), (36, 72), (72, 80)], 166));
    assert_eq!(wrap_lines(36, 36, 100), (vec![(0, 36)], 122));
    assert_eq!(wrap_lines(0, 36, 100), (vec![], 100));
}

#[test]
fn wrap_stops_near_footer() {
    // 536 - 46 - 22 = 468: the line that moves below it is the last.
    assert_eq!(wrap_lines(200, 36, 420), (vec![(0, 36), (36, 72), (72, 108)], 486));
    assert_eq!(wrap_lines(200, 36, 500), (vec![(0, 36)], 522));
}

#[test]
fn preview_shortens_long_values() {
    assert_eq!(preview("short"), "short");
    assert_eq!(preview("01234567890123456789"), "01234567890123456789");
    assert_eq!(preview("0123456789012345678901"), "01234567890123456789...");
}

#[test]
fn saved_rows_leave_room_for_the_selected_detail() {
    assert_eq!(saved_rows(3, 1, 34), vec![34, 60, 110]);
    assert_eq!(saved_rows(0, 0, 34), Vec::<i16>::new());
}

#[test]
fn saved_rows_stop_near_footer() {
    // Rows 26 apart from 34: the row at 450 moves below 468 and is the last.
    let rows = saved_rows(100, 50, 34);
    assert_eq!(rows.len(), 17);
    assert_eq!(*rows.last().unwrap(), 450);
}
