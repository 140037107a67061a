use weather::calendar::SimpleDate;
use weather::gaps::find_missing_hours;

fn date(year: u16, day: u16, hour: u8) -> SimpleDate {
    SimpleDate::new(year, day, hour)
}

#[test]
fn single_missing_hour() {
    let seen = vec![date(2020, 10, 0), date(2020, 10, 1), date(2020, 10, 3)];
    assert_eq!(find_missing_hours(&seen), vec![date(2020, 10, 2)]);
}

#[test]
fn gaps_are_found_in_unsorted_input_across_days() {
    let seen = vec![date(2020, 11, 1), date(2020, 10, 22), date(2020, 10, 23), date(2020, 11, 2)];
    assert_eq!(find_missing_hours(&seen), vec![date(2020, 11, 0)]);
}

#[test]
fn gaps_across_a_year_end() {
    let seen = vec![date(2019, 365, 22), date(2019, 365, 23), date(2020, 1, 2)];
    assert_eq!(find_missing_hours(&seen), vec![date(2020, 1, 0), date(2020, 1, 1)]);
}

#[test]
fn no_gaps_in_a_full_run() {
    let seen = vec![date(2020, 10, 0), date(2020, 10, 1), date(2020, 10, 2)];
    assert!(find_missing_hours(&seen).is_empty());
}

#[test]
fn fewer_than_three_are_echoed_in_order() {
    assert!(find_missing_hours(&vec![]).is_empty());
    assert_eq!(find_missing_hours(&vec![date(2020, 1, 5)]), vec![date(2020, 1, 5)]);
    assert_eq!(
        find_missing_hours(&vec![date(2020, 1, 9), date(2020, 1, 5)]),
        vec![date(2020, 1, 5), date(2020, 1, 9)]
    );
}

#[test]
fn two_distinct_hours_are_echoed_once_each() {
    let seen = vec![date(2020, 1, 9), date(2020, 1, 5), date(2020, 1, 9)];
    assert_eq!(find_missing_hours(&seen), vec![date(2020, 1, 5), date(2020, 1, 9)]);
    let same = vec![date(2020, 1, 5), date(2020, 1, 5), date(2020, 1, 5)];
    assert_eq!(find_missing_hours(&same), vec![date(2020, 1, 5)]);
}

#[test]
fn repeated_hours_do_not_hide_gaps() {
    let seen = vec![date(2020, 10, 0), date(2020, 10, 0), date(2020, 10, 1), date(2020, 10, 4)];
    assert_eq!(find_missing_hours(&seen), vec![date(2020, 10, 2), date(2020, 10, 3)]);
}
