use quake::models::{getdate, getdate_for_manual, period_texts, try_getdate_for_manual, Output};

// ========== getdate_for_manual ==========

#[test]
fn test_getdate_for_manual_normal_date() {
    let result = getdate_for_manual("2024-01-01");
    assert_eq!(result, "2023-01-01");
}

#[test]
fn test_getdate_for_manual_leap_year() {
    // 2024-03-01 minus 365 days is 2023-03-02, 2024 being a leap year.
    let result = getdate_for_manual("2024-03-01");
    assert_eq!(result, "2023-03-02");
}

#[test]
fn test_getdate_for_manual_year_boundary() {
    let result = getdate_for_manual("2023-01-01");
    assert_eq!(result, "2022-01-01");
}

#[test]
fn test_getdate_for_manual_specific_date() {
    // 2020 is a leap year: 2020-12-25 minus 365 days is 2019-12-26.
    let result = getdate_for_manual("2020-12-25");
    assert_eq!(result, "2019-12-26");
}

#[test]
fn test_try_getdate_for_manual_rejects_non_dates() {
    assert_eq!(try_getdate_for_manual("2023-02-29"), None);
    assert_eq!(try_getdate_for_manual("yesterday"), None);
    assert_eq!(try_getdate_for_manual(""), None);
    assert_eq!(try_getdate_for_manual("0001-01-01"), Some("0000-01-02".to_string()));
}

// ========== getdate ==========

#[test]
fn test_getdate_returns_two_strings() {
    let (now, one_year_ago) = getdate().unwrap();
    assert!(!now.is_empty());
    assert!(!one_year_ago.is_empty());
}

#[test]
fn test_getdate_format() {
    let (now, one_year_ago) = getdate().unwrap();
    let parts: Vec<&str> = now.split(' ').collect();
    assert_eq!(parts.len(), 2);
    assert_eq!(parts[0].split('-').count(), 3);
    assert_eq!(parts[1].split(':').count(), 3);
    let parts_ago: Vec<&str> = one_year_ago.split(' ').collect();
    assert_eq!(parts_ago.len(), 2);
}

#[test]
fn test_getdate_one_year_diff() {
    let (now, one_year_ago) = getdate().unwrap();
    let now_date =
        chrono::NaiveDate::parse_from_str(now.split(' ').next().unwrap(), "%Y-%m-%d").unwrap();
    let ago_date =
        chrono::NaiveDate::parse_from_str(one_year_ago.split(' ').next().unwrap(), "%Y-%m-%d")
            .unwrap();
    let diff = now_date - ago_date;
    assert!(diff.num_days() >= 364 && diff.num_days() <= 366);
}

// ========== Output ==========

#[test]
fn test_output_methods_exist() {
    assert_eq!(Output::error("test error"), "\u{1b}[1;31m[!]\u{1b}[0m test error");
    assert_eq!(Output::info("test info"), "\u{1b}[1;34m[+]\u{1b}[0m test info");
    assert_eq!(Output::success("test success"), "\u{1b}[1;32m[+]\u{1b}[0m test success");
    assert_eq!(Output::warning("test warning"), "\u{1b}[1;33m[-]\u{1b}[0m test warning");
}

#[test]
fn test_period_texts_of_a_fixed_reading() {
    let (now, ago) = period_texts(1_700_000_000);
    let day = |t: &str| chrono::NaiveDate::parse_from_str(t.split(' ').next().unwrap(), "%Y-%m-%d").unwrap();
    let diff = (day(&now) - day(&ago)).num_days();
    assert!(diff >= 364 && diff <= 366);
    assert_eq!(now.len(), 19);
    assert_eq!(ago.len(), 19);
    // the time of day is kept where the local offset is the same at both instants
    let (later, _) = period_texts(1_700_000_000 + 365 * 86_400);
    assert_eq!(later.len(), 19);
}
