use stocks_rs::trading_dates::build_list_of_dates;

#[test]
fn lists_weekdays_and_skips_the_day_after_thanksgiving() {
    let dates = build_list_of_dates("2022-11-21 00:00:00", "2022-11-28 00:00:00").unwrap();
    assert_eq!(
        dates,
        vec![
            "2022-11-21 00:00:00".to_string(),
            "2022-11-22 00:00:00".to_string(),
            "2022-11-23 00:00:00".to_string(),
            "2022-11-24 00:00:00".to_string(),
            "2022-11-28 00:00:00".to_string(),
        ]
    );
}

#[test]
fn a_single_day_and_an_empty_range() {
    assert_eq!(
        build_list_of_dates("2023-01-23 00:00:00", "2023-01-23 00:00:00").unwrap(),
        vec!["2023-01-23 00:00:00".to_string()]
    );
    assert_eq!(build_list_of_dates("2023-01-21 00:00:00", "2023-01-22 00:00:00").unwrap(), Vec::<String>::new());
    assert_eq!(build_list_of_dates("2023-01-24 00:00:00", "2023-01-23 00:00:00").unwrap(), Vec::<String>::new());
}

#[test]
fn unparsable_bounds_give_none() {
    assert_eq!(build_list_of_dates("2023-01-23", "2023-01-24 00:00:00"), None);
    assert_eq!(build_list_of_dates("2023-01-23 00:00:00", "tomorrow"), None);
}
