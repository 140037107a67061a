use weather::rollup::{avg_usize, daily_rollup, day_windows, max_usize, min_usize};

#[test]
fn min_max_avg_of_a_list() {
    let list = [4usize, 9, 1, 7];
    assert_eq!(min_usize(&list), 1);
    assert_eq!(max_usize(&list), 9);
    assert_eq!(avg_usize(&list), 5);
}

#[test]
fn average_rounds_down() {
    assert_eq!(avg_usize(&[1, 2]), 1);
    assert_eq!(avg_usize(&[7]), 7);
}

#[test]
fn two_days_give_two_windows() {
    let mut hours: Vec<usize> = vec![10; 24];
    hours.extend(vec![20usize; 24]);
    let r = daily_rollup(&hours);
    assert_eq!(r, vec![(10, 10, 10), (20, 20, 20)]);
}

#[test]
fn trailing_partial_day_is_dropped() {
    let mut hours: Vec<usize> = (0..24).collect();
    hours.extend(vec![100usize; 6]);
    let r = daily_rollup(&hours);
    assert_eq!(r.len(), 1);
    assert_eq!(r[0], (0, 11, 23));
}

#[test]
fn fewer_than_a_day_gives_nothing() {
    assert!(daily_rollup(&[5usize; 23]).is_empty());
    assert!(daily_rollup(&[]).is_empty());
}

#[test]
fn windows_of_a_series() {
    assert_eq!(day_windows(50), vec![(0, 24), (24, 48)]);
    assert!(day_windows(23).is_empty());
}

#[test]
fn averages_of_the_largest_values_do_not_overflow() {
    let hours = vec![usize::MAX; 24];
    assert_eq!(daily_rollup(&hours), vec![(usize::MAX, usize::MAX, usize::MAX)]);
    let mut mixed = vec![usize::MAX; 12];
    mixed.extend(vec![1usize; 12]);
    assert_eq!(daily_rollup(&mixed), vec![(1, usize::MAX / 2 + 1, usize::MAX)]);
}
