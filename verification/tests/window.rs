use untis_calendar::window::{
    current_monday, current_window, generate_params_for_date, homework_days, homework_params,
    monday_before, params_for_span, params_from, window_days, window_from, FIRST_DAY,
    HOMEWORK_WINDOWS, LAST_DAY, NEGATIVE_OFFSET, POSITIVE_OFFSET, WEEK_BEGINS,
};

// 2024-03-04 is a Monday and has the day number 738949.
const MONDAY: i32 = 738_949;

#[test]
fn window_begins_two_weeks_before_monday() {
    for today in MONDAY..MONDAY + 7 {
        let days = window_days(today);
        assert_eq!(days.len(), 70);
        assert_eq!(days[0], MONDAY - 14);
        assert_eq!(days[69], MONDAY + 55);
        assert!(days.windows(2).all(|w| w[1] == w[0] + 1));
    }
    assert_eq!(window_days(MONDAY - 1)[0], MONDAY - 21);
    assert_eq!(window_days(MONDAY + 7)[0], MONDAY - 7);
}

#[test]
fn offsets() {
    assert_eq!(NEGATIVE_OFFSET, 14);
    assert_eq!(POSITIVE_OFFSET, 56);
}

#[test]
fn no_window_for_a_day_out_of_range() {
    assert_eq!(window_days(i32::MAX), Vec::<i32>::new());
    assert_eq!(window_days(i32::MIN), Vec::<i32>::new());
}

#[test]
fn current_window_has_seventy_days_from_a_monday() {
    let days = current_window();
    assert_eq!(days.len(), 70);
    assert_eq!((days[0] - MONDAY).rem_euclid(7), 0);
    assert_eq!(window_days(days[14]), days);
}

#[test]
fn params_for_a_day() {
    let params = generate_params_for_date(MONDAY).unwrap();
    assert_eq!(
        params,
        vec![
            ("elementId".to_string(), "1708".to_string()),
            ("elementType".to_string(), "1".to_string()),
            ("startDateTime".to_string(), "2024-03-04T00:00:00".to_string()),
            ("endDateTime".to_string(), "2024-03-04T23:59:59".to_string()),
        ]
    );
    assert_eq!(generate_params_for_date(i32::MAX), None);
}

#[test]
fn window_around_a_given_monday() {
    let days = window_from(100);
    assert_eq!(days.len(), 70);
    assert_eq!(days[0], 86);
    assert_eq!(days[69], 155);
    assert_eq!(window_from(i32::MIN + 13), Vec::<i32>::new());
    assert_eq!(window_from(i32::MIN + 14)[0], i32::MIN);
    let last = window_from(i32::MAX);
    assert_eq!(last.len(), 15);
    assert_eq!(last[14], i32::MAX);
}

#[test]
fn params_from_given_texts() {
    assert_eq!(
        params_from("2024-03-04 00:00:00", "2024-03-04 23:59:59"),
        vec![
            ("elementId".to_string(), "1708".to_string()),
            ("elementType".to_string(), "1".to_string()),
            ("startDateTime".to_string(), "2024-03-04T00:00:00".to_string()),
            ("endDateTime".to_string(), "2024-03-04T23:59:59".to_string()),
        ]
    );
}

fn expected_monday(day: i32) -> Option<i32> {
    let monday = day as i64 - (day as i64 - 1).rem_euclid(7);
    let dated = |d: i64| FIRST_DAY as i64 <= d && d <= LAST_DAY as i64;
    if dated(day as i64) && dated(monday) {
        Some(monday as i32)
    } else {
        None
    }
}

#[test]
fn monday_is_the_day_less_its_place_in_the_week() {
    assert_eq!(WEEK_BEGINS, 0);
    assert_eq!(monday_before(1), Some(1));
    assert_eq!(monday_before(7), Some(1));
    assert_eq!(monday_before(8), Some(8));
    assert_eq!(monday_before(0), Some(-6));
    assert_eq!(monday_before(-6), Some(-6));
    assert_eq!(monday_before(-7), Some(-13));
    assert_eq!(monday_before(MONDAY + 6), Some(MONDAY));
    assert_eq!(monday_before(MONDAY - 1), Some(MONDAY - 7));
    for day in -400..400 {
        assert_eq!(monday_before(day), expected_monday(day));
    }
    let mut day: i64 = FIRST_DAY as i64 - 20;
    while day <= LAST_DAY as i64 + 20 {
        for near in day..day + 8 {
            assert_eq!(monday_before(near as i32), expected_monday(near as i32));
        }
        day += 1_000_003;
    }
}

#[test]
fn mondays_at_the_ends_of_the_calendar() {
    for day in FIRST_DAY - 10..FIRST_DAY + 10 {
        assert_eq!(monday_before(day), expected_monday(day));
    }
    for day in LAST_DAY - 10..LAST_DAY + 10 {
        assert_eq!(monday_before(day), expected_monday(day));
    }
    assert_eq!(monday_before(FIRST_DAY - 1), None);
    assert_eq!(monday_before(LAST_DAY + 1), None);
    assert!(monday_before(LAST_DAY).is_some());
    assert!(monday_before(FIRST_DAY + 6).is_some());
    assert_eq!(monday_before(i32::MIN), None);
    assert_eq!(monday_before(i32::MAX), None);
}

#[test]
fn days_with_a_date() {
    assert!(generate_params_for_date(FIRST_DAY).is_some());
    assert!(generate_params_for_date(LAST_DAY).is_some());
    assert_eq!(generate_params_for_date(FIRST_DAY - 1), None);
    assert_eq!(generate_params_for_date(LAST_DAY + 1), None);
    assert_eq!(params_for_span(FIRST_DAY - 1, 5), None);
    assert_eq!(params_for_span(5, LAST_DAY + 1), None);
    let ends = generate_params_for_date(LAST_DAY).unwrap();
    assert_eq!(ends[2].1, "+262142-12-31T00:00:00");
    let begins = generate_params_for_date(FIRST_DAY).unwrap();
    assert_eq!(begins[3].1, "-262143-01-01T23:59:59");
}

#[test]
fn current_monday_begins_the_current_window() {
    let monday = current_monday();
    assert_eq!((monday - MONDAY).rem_euclid(7), 0);
    assert!(monday > MONDAY);
    assert_eq!(monday_before(monday + 6), Some(monday));
    let days = current_window();
    assert_eq!(days.len(), 70);
    assert_eq!(days[14], monday);
}

#[test]
fn homework_spans_grow_day_by_day() {
    assert_eq!(HOMEWORK_WINDOWS, 12);
    assert_eq!(homework_days(MONDAY, 0), Some((MONDAY, MONDAY)));
    assert_eq!(homework_days(MONDAY, 1), Some((MONDAY + 1, MONDAY + 2)));
    assert_eq!(homework_days(MONDAY, 11), Some((MONDAY + 11, MONDAY + 22)));
    assert_eq!(homework_days(MONDAY, 12), None);
    assert_eq!(homework_days(MONDAY, -1), None);
    assert_eq!(homework_days(i32::MAX - 21, 11), None);
    assert_eq!(homework_days(i32::MAX - 22, 11), Some((i32::MAX - 11, i32::MAX)));
}

#[test]
fn homework_params_of_a_span() {
    assert_eq!(
        homework_params(MONDAY, 3),
        Some(vec![
            ("elementId".to_string(), "1708".to_string()),
            ("elementType".to_string(), "1".to_string()),
            ("startDateTime".to_string(), "2024-03-07T00:00:00".to_string()),
            ("endDateTime".to_string(), "2024-03-10T23:59:59".to_string()),
        ])
    );
    assert_eq!(homework_params(MONDAY, 0), generate_params_for_date(MONDAY));
    assert_eq!(homework_params(MONDAY, 12), None);
    assert_eq!(homework_params(LAST_DAY - 5, 3), None);
    assert_eq!(
        params_for_span(MONDAY, MONDAY + 1).unwrap()[3].1,
        "2024-03-05T23:59:59"
    );
}
