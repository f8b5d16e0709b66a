use bamboo_timesheet::calendar::generate_working_days;
use bamboo_timesheet::date::{parse_iso_date, weekday_name, Date, DateParseError};
use bamboo_timesheet::eligibility::get_eligible_days_this_month;

use chrono::Datelike;

fn strings(v: Vec<&str>) -> Vec<String> {
    v.into_iter().map(|s| s.to_string()).collect()
}

#[test]
fn test_get_working_days_this_month() {
    let now = chrono::Local::now();
    let today = now.format("%Y-%m-%d").to_string();
    let date = Date { year: now.year() as u32, month: now.month(), day: now.day() };
    let working_days = generate_working_days(&date);
    for day in &working_days {
        println!("{}", day);
    }

    assert_eq!(working_days.contains(&today), true);
}

#[test]
fn test_get_eligible_days_this_month() {
    let working_days = strings(vec![
        "2024-08-01", "2024-08-02", "2024-08-05", "2024-08-06",
        "2024-08-07", "2024-08-08", "2024-08-09", "2024-08-12",
        "2024-08-13", "2024-08-14", "2024-08-15", "2024-08-16",
        "2024-08-19", "2024-08-20", "2024-08-21", "2024-08-22",
        "2024-08-23", "2024-08-26", "2024-08-27", "2024-08-28",
        "2024-08-29", "2024-08-30",
    ]);
    let vacation_days = strings(vec!["2024-08-19", "2024-08-20", "2024-08-21", "2024-08-22"]);
    let already_added_days = strings(vec![
        "2024-08-01", "2024-08-02", "2024-08-05", "2024-08-06",
        "2024-08-07", "2024-08-08", "2024-08-09", "2024-08-12",
    ]);
    let bank_holidays = strings(vec!["2024-08-29", "2024-08-30"]);

    let eligible_days = get_eligible_days_this_month(
        &working_days,
        &vacation_days,
        &already_added_days,
        &bank_holidays,
    );

    let expected_days: Vec<String> = strings(vec![
        "2024-08-13", "2024-08-14", "2024-08-15", "2024-08-16",
        "2024-08-23", "2024-08-26", "2024-08-27", "2024-08-28",
    ]);

    assert_eq!(expected_days, eligible_days);
}

#[test]
fn test_get_weekday() {
    let day = "2024-09-23";
    let weekday = weekday_name(day).expect("Error while extracting weekday");

    assert_eq!(weekday, "Monday".to_string());
}

#[test]
fn test_working_days_august_2024() {
    // 2024-08-01 is a Thursday; the 3rd/4th lie on the first weekend.
    let today = Date { year: 2024, month: 8, day: 9 };
    let expected = strings(vec![
        "2024-08-01", "2024-08-02", "2024-08-05", "2024-08-06",
        "2024-08-07", "2024-08-08", "2024-08-09",
    ]);
    assert_eq!(generate_working_days(&today), expected);
}

#[test]
fn test_working_days_skip_weekend_first_day() {
    // 2024-09-01 is a Sunday, so day 1 is not included.
    let today = Date { year: 2024, month: 9, day: 7 };
    let expected = strings(vec![
        "2024-09-02", "2024-09-03", "2024-09-04", "2024-09-05", "2024-09-06",
    ]);
    assert_eq!(generate_working_days(&today), expected);
}

#[test]
fn test_working_days_count_minus_weekends() {
    // Through 2024-08-11 there are 11 days, 4 of them weekend days.
    let today = Date { year: 2024, month: 8, day: 11 };
    let days = generate_working_days(&today);
    assert_eq!(days.len(), 11 - 4);
    for day in &days {
        let name = weekday_name(day).expect("working day must be a valid date");
        assert_ne!(name, "Saturday");
        assert_ne!(name, "Sunday");
    }
}

#[test]
fn test_eligible_days_scenario() {
    let working_days = strings(vec![
        "2024-08-13", "2024-08-14", "2024-08-15", "2024-08-16",
        "2024-08-19", "2024-08-20", "2024-08-21", "2024-08-22", "2024-08-23",
        "2024-08-26", "2024-08-27", "2024-08-28", "2024-08-29", "2024-08-30",
    ]);
    let vacation = strings(vec!["2024-08-19", "2024-08-20", "2024-08-21", "2024-08-22"]);
    let logged = strings(vec!["2024-08-13", "2024-08-14", "2024-08-15", "2024-08-16"]);
    let holidays = strings(vec!["2024-08-29", "2024-08-30"]);
    let eligible = get_eligible_days_this_month(&working_days, &vacation, &logged, &holidays);
    let expected = strings(vec!["2024-08-23", "2024-08-26", "2024-08-27", "2024-08-28"]);
    assert_eq!(eligible, expected);
}

#[test]
fn test_eligible_days_no_exclusions_is_identity() {
    let working_days = strings(vec!["2024-08-01", "2024-08-02", "2024-08-05"]);
    let none: Vec<String> = Vec::new();
    let eligible = get_eligible_days_this_month(&working_days, &none, &none, &none);
    assert_eq!(eligible, working_days);
}

#[test]
fn test_eligible_days_duplicate_exclusions() {
    let working_days = strings(vec!["2024-08-01", "2024-08-02", "2024-08-05"]);
    let once = strings(vec!["2024-08-02"]);
    let twice = strings(vec!["2024-08-02", "2024-08-02"]);
    let none: Vec<String> = Vec::new();
    let with_once = get_eligible_days_this_month(&working_days, &once, &none, &none);
    let with_twice = get_eligible_days_this_month(&working_days, &twice, &none, &none);
    assert_eq!(with_once, with_twice);
    assert_eq!(with_once, strings(vec!["2024-08-01", "2024-08-05"]));
}

#[test]
fn test_eligible_days_empty_result_is_valid() {
    let working_days = strings(vec!["2024-08-01"]);
    let logged = strings(vec!["2024-08-01"]);
    let none: Vec<String> = Vec::new();
    let eligible = get_eligible_days_this_month(&working_days, &none, &logged, &none);
    assert!(eligible.is_empty());
}

#[test]
fn test_weekday_name_week() {
    // The week of 2024-09-22 (a Sunday) through 2024-09-28.
    assert_eq!(weekday_name("2024-09-22").unwrap(), "Sunday");
    assert_eq!(weekday_name("2024-09-23").unwrap(), "Monday");
    assert_eq!(weekday_name("2024-09-24").unwrap(), "Tuesday");
    assert_eq!(weekday_name("2024-09-25").unwrap(), "Wednesday");
    assert_eq!(weekday_name("2024-09-26").unwrap(), "Thursday");
    assert_eq!(weekday_name("2024-09-27").unwrap(), "Friday");
    assert_eq!(weekday_name("2024-09-28").unwrap(), "Saturday");
}

#[test]
fn test_weekday_name_rejects_bad_month() {
    assert_eq!(weekday_name("2024-13-01"), Err(DateParseError));
}

#[test]
fn test_weekday_name_rejects_malformed() {
    assert_eq!(weekday_name(""), Err(DateParseError));
    assert_eq!(weekday_name("not-a-date!"), Err(DateParseError));
    assert_eq!(weekday_name("2024-9-23"), Err(DateParseError));
    assert_eq!(weekday_name("2024/09/23"), Err(DateParseError));
    assert_eq!(weekday_name("2024-00-10"), Err(DateParseError));
    assert_eq!(weekday_name("2024-01-00"), Err(DateParseError));
    assert_eq!(weekday_name("2024-04-31"), Err(DateParseError));
}

#[test]
fn test_weekday_name_leap_years() {
    // 2024 is a leap year, 2023 is not, 1900 is not, 2000 is.
    assert_eq!(weekday_name("2024-02-29").unwrap(), "Thursday");
    assert_eq!(weekday_name("2023-02-29"), Err(DateParseError));
    assert_eq!(weekday_name("1900-02-29"), Err(DateParseError));
    assert_eq!(weekday_name("2000-02-29").unwrap(), "Tuesday");
}

#[test]
fn test_weekday_name_agrees_with_chrono() {
    // Every day of a leap year, a common year, and the two century years
    // around the divisible-by-400 rule.
    for year in [1900, 2000, 2023, 2024] {
        for month in 1..=12u32 {
            for day in 1..=31u32 {
                let Some(date) = chrono::NaiveDate::from_ymd_opt(year, month, day) else {
                    continue;
                };
                let iso = date.format("%Y-%m-%d").to_string();
                let expected = date.format("%A").to_string();
                assert_eq!(weekday_name(&iso), Ok(expected));
            }
        }
    }
}

#[test]
fn test_format_date_agrees_with_chrono() {
    let date = chrono::NaiveDate::from_ymd_opt(2024, 2, 9).unwrap();
    let lib_date = Date { year: 2024, month: 2, day: 9 };
    assert_eq!(
        bamboo_timesheet::date::format_date(&lib_date),
        date.format("%Y-%m-%d").to_string()
    );
}

#[test]
fn test_parse_iso_date_fields() {
    let d = parse_iso_date("2024-08-05").unwrap();
    assert_eq!(d.year, 2024);
    assert_eq!(d.month, 8);
    assert_eq!(d.day, 5);
    assert!(parse_iso_date("0000-01-01").is_err());
}
