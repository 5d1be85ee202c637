use chrono::Utc;
use s3_vectors::dates::{format_relative_time, parse_date, parse_signed};

fn moment(secs: i64) -> chrono::DateTime<Utc> {
    chrono::DateTime::from_timestamp(secs, 0).unwrap()
}

#[test]
fn test_parse_date() {
    let date = parse_date("2024-01-15", Utc::now().timestamp()).expect("Test date should parse");
    assert_eq!(moment(date).format("%Y-%m-%d").to_string(), "2024-01-15");

    let today = parse_date("today", Utc::now().timestamp()).expect("Today should parse");
    assert_eq!(moment(today).date_naive(), Utc::now().date_naive());

    let five_days = parse_date("5 days ago", Utc::now().timestamp()).expect("Relative date should parse");
    let expected = Utc::now() - chrono::Duration::days(5);
    assert_eq!(moment(five_days).date_naive(), expected.date_naive());
}

#[test]
fn test_format_relative_time() {
    let now_timestamp = Utc::now().timestamp();
    assert!(format_relative_time(now_timestamp, Utc::now().timestamp()).contains("minutes ago"));

    let yesterday = (Utc::now() - chrono::Duration::days(1)).timestamp();
    assert_eq!(format_relative_time(yesterday, Utc::now().timestamp()), "yesterday");

    let five_days_ago = (Utc::now() - chrono::Duration::days(5)).timestamp();
    assert!(format_relative_time(five_days_ago, Utc::now().timestamp()).contains("days ago"));

    let month_ago = (Utc::now() - chrono::Duration::days(30)).timestamp();
    assert!(format_relative_time(month_ago, Utc::now().timestamp()).contains("-"));
}

#[test]
fn relative_dates_against_a_fixed_now() {
    // 2024-01-15T12:34:56Z
    let now = 1705322096;
    let midnight = 1705276800;
    assert_eq!(parse_date("today", now), Ok(midnight));
    assert_eq!(parse_date("Yesterday", now), Ok(midnight - 86400));
    assert_eq!(parse_date("last week", now), Ok(now - 604800));
    assert_eq!(parse_date("lastmonth", now), Ok(now - 30 * 86400));
    assert_eq!(parse_date("3 days ago", now), Ok(now - 3 * 86400));
    assert_eq!(parse_date("2 weeks ago", now), Ok(now - 2 * 604800));
    assert_eq!(parse_date("1970-01-02", now), Ok(86400));
    assert!(parse_date("soon", now).is_err());
    assert!(parse_date("x days ago", now).is_err());
    assert!(parse_date("99999999999999999 weeks ago", now).is_err());
    // before the epoch, midnight still rounds down
    assert_eq!(parse_date("today", -1), Ok(-86400));
}

#[test]
fn ages_against_a_fixed_now() {
    let now = 1705322096;
    assert_eq!(format_relative_time(now - 120, now), "2 minutes ago");
    assert_eq!(format_relative_time(now - 3 * 3600, now), "3 hours ago");
    assert_eq!(format_relative_time(now - 86400, now), "yesterday");
    assert_eq!(format_relative_time(now - 3 * 86400, now), "3 days ago");
    assert_eq!(format_relative_time(now - 15 * 86400, now), "2 weeks ago");
    assert_eq!(format_relative_time(now - 40 * 86400, now), "2023-12-06");
    assert_eq!(format_relative_time(now + 120, now), "-2 minutes ago");
    assert_eq!(format_relative_time(i64::MAX, now), "unknown");
}

#[test]
fn signed_numbers_like_std() {
    assert_eq!(parse_signed("42"), Some(42));
    assert_eq!(parse_signed("+7"), Some(7));
    assert_eq!(parse_signed("-9223372036854775808"), Some(i64::MIN));
    assert_eq!(parse_signed("9223372036854775808"), None);
    assert_eq!(parse_signed("-"), None);
    assert_eq!(parse_signed(""), None);
    assert_eq!(parse_signed("1a"), None);
}
