use bamboo_timesheet::model::{
    Actions, Amount, Notes, RequestType, Status, TimeOffEntry, TimeOffRequest, TimsheetEntry,
};
use bamboo_timesheet::timeoff::{
    extract_bank_holidays, extract_logged_days, extract_vacation_days,
};

fn entry(kind: &str, start: &str, end: &str) -> TimeOffEntry {
    TimeOffEntry {
        id: 1,
        kind: kind.to_string(),
        employee_id: Some(42),
        name: "Some Employee".to_string(),
        start: start.to_string(),
        end: end.to_string(),
    }
}

fn request(dates: Option<Vec<(&str, &str)>>) -> TimeOffRequest {
    TimeOffRequest {
        id: "100".to_string(),
        employee_id: "42".to_string(),
        name: "Some Employee".to_string(),
        status: Status {
            last_changed: "2024-08-01".to_string(),
            last_changed_by_user_id: "7".to_string(),
            status: "approved".to_string(),
        },
        start: "2024-08-19".to_string(),
        end: "2024-08-23".to_string(),
        created: "2024-07-30".to_string(),
        kind: RequestType {
            id: "1".to_string(),
            name: "Vacation".to_string(),
            icon: "palm-trees".to_string(),
        },
        amount: Amount { unit: "days".to_string(), amount: "4".to_string() },
        actions: Some(Actions {
            view: true,
            edit: false,
            cancel: false,
            approve: false,
            deny: false,
            bypass: false,
        }),
        dates: dates.map(|ds| {
            ds.into_iter().map(|(d, a)| (d.to_string(), a.to_string())).collect()
        }),
        notes: Some(Notes { employee: None, manager: None }),
    }
}

fn timesheet_entry(date: &str) -> TimsheetEntry {
    TimsheetEntry {
        id: 5,
        employee_id: 42,
        kind: "hour".to_string(),
        date: date.to_string(),
        start: "08:00".to_string(),
        end: "16:00".to_string(),
        timezone: "Europe/Berlin".to_string(),
        hours: 8,
        note: None,
        project_info: None,
        approved_at: None,
        approved: Some(true),
    }
}

#[test]
fn test_single_day_holiday_yields_one_date() {
    let entries = vec![entry("holiday", "2024-08-15", "2024-08-15")];
    let (holidays, warnings) = extract_bank_holidays(&entries);
    assert_eq!(holidays, vec!["2024-08-15".to_string()]);
    assert_eq!(warnings.len(), 0);
}

#[test]
fn test_multi_day_holiday_yields_one_warning_no_date() {
    let entries = vec![entry("holiday", "2024-08-15", "2024-08-16")];
    let (holidays, warnings) = extract_bank_holidays(&entries);
    assert_eq!(holidays.len(), 0);
    assert_eq!(warnings.len(), 1);
    assert_eq!(warnings[0].start, "2024-08-15");
    assert_eq!(warnings[0].end, "2024-08-16");
}

#[test]
fn test_non_holiday_kinds_are_ignored() {
    let entries = vec![
        entry("vacation", "2024-08-05", "2024-08-05"),
        entry("sick", "2024-08-06", "2024-08-07"),
    ];
    let (holidays, warnings) = extract_bank_holidays(&entries);
    assert_eq!(holidays.len(), 0);
    assert_eq!(warnings.len(), 0);
}

#[test]
fn test_mixed_holiday_entries() {
    let entries = vec![
        entry("holiday", "2024-08-15", "2024-08-15"),
        entry("vacation", "2024-08-19", "2024-08-23"),
        entry("holiday", "2024-08-29", "2024-08-30"),
        entry("holiday", "2024-08-30", "2024-08-30"),
    ];
    let (holidays, warnings) = extract_bank_holidays(&entries);
    assert_eq!(holidays, vec!["2024-08-15".to_string(), "2024-08-30".to_string()]);
    assert_eq!(warnings.len(), 1);
    assert_eq!(warnings[0].start, "2024-08-29");
    assert_eq!(warnings[0].end, "2024-08-30");
}

#[test]
fn test_vacation_full_days_only() {
    let requests = vec![request(Some(vec![
        ("2024-08-19", "1"),
        ("2024-08-20", "0.5"),
        ("2024-08-21", "0"),
        ("2024-08-22", "full"),
        ("2024-08-23", "1"),
    ]))];
    let vacation = extract_vacation_days(&requests);
    assert_eq!(vacation, vec!["2024-08-19".to_string(), "2024-08-23".to_string()]);
}

#[test]
fn test_vacation_without_dates_contributes_nothing() {
    let requests = vec![request(None), request(Some(vec![]))];
    let vacation = extract_vacation_days(&requests);
    assert_eq!(vacation.len(), 0);
}

#[test]
fn test_vacation_across_requests_keeps_order() {
    let requests = vec![
        request(Some(vec![("2024-08-19", "1"), ("2024-08-20", "1")])),
        request(None),
        request(Some(vec![("2024-08-26", "0.5"), ("2024-08-27", "1")])),
    ];
    let vacation = extract_vacation_days(&requests);
    assert_eq!(
        vacation,
        vec!["2024-08-19".to_string(), "2024-08-20".to_string(), "2024-08-27".to_string()]
    );
}

#[test]
fn test_logged_days_projection() {
    let entries = vec![timesheet_entry("2024-08-01"), timesheet_entry("2024-08-02")];
    let logged = extract_logged_days(&entries);
    assert_eq!(logged, vec!["2024-08-01".to_string(), "2024-08-02".to_string()]);
}

#[test]
fn test_logged_days_empty() {
    let entries: Vec<TimsheetEntry> = Vec::new();
    assert_eq!(extract_logged_days(&entries).len(), 0);
}
