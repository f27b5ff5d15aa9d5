use purp_value::datetime::Duration;
use purp_value::DateTime;

#[test]
fn test_add_duration() {
    let dt_date = DateTime::from_ymd_opt(2023, 4, 5).unwrap();
    let dt_datetime = DateTime::with_ymd_and_hms(2023, 4, 5, 12, 34, 56).unwrap();

    assert_eq!(
        dt_date.add_duration(Duration::days(1)),
        Some(DateTime::from_ymd_opt(2023, 4, 6).unwrap())
    );
    assert_eq!(
        dt_datetime.add_duration(Duration::days(1)),
        Some(DateTime::with_ymd_and_hms(2023, 4, 6, 12, 34, 56).unwrap())
    );
}

#[test]
fn test_subtract_duration() {
    let dt_date = DateTime::from_ymd_opt(2023, 4, 5).unwrap();
    let dt_datetime = DateTime::with_ymd_and_hms(2023, 4, 5, 12, 34, 56).unwrap();

    assert_eq!(
        dt_date.subtract_duration(Duration::days(1)),
        Some(DateTime::from_ymd_opt(2023, 4, 4).unwrap())
    );
    assert_eq!(
        dt_datetime.subtract_duration(Duration::days(1)),
        Some(DateTime::with_ymd_and_hms(2023, 4, 4, 12, 34, 56).unwrap())
    );
}

#[test]
fn test_duration_between() {
    let dt_date1 = DateTime::from_ymd_opt(2023, 4, 5).unwrap();
    let dt_date2 = DateTime::from_ymd_opt(2023, 4, 6).unwrap();
    let dt_datetime1 = DateTime::with_ymd_and_hms(2023, 4, 5, 12, 34, 56).unwrap();
    let dt_datetime2 = DateTime::with_ymd_and_hms(2023, 4, 6, 12, 34, 56).unwrap();

    assert_eq!(dt_date1.duration_between(&dt_date2), Some(Duration::days(1)));
    assert_eq!(
        dt_datetime1.duration_between(&dt_datetime2),
        Some(Duration::days(1))
    );
}

#[test]
fn construction_rejects_impossible_components() {
    assert!(DateTime::from_ymd_opt(2023, 2, 29).is_none());
    assert!(DateTime::from_ymd_opt(2024, 2, 29).is_some());
    assert!(DateTime::from_ymd_opt(2023, 13, 1).is_none());
    assert!(DateTime::from_ymd_opt(2023, 4, 0).is_none());
    assert!(DateTime::with_ymd_and_hms(2023, 4, 5, 24, 0, 0).is_none());
    assert!(DateTime::with_ymd_and_hms(2023, 4, 5, 23, 59, 59).is_some());
}

#[test]
fn component_accessors_read_the_model() {
    let dt = DateTime::with_ymd_and_hms(2023, 4, 5, 12, 34, 56).unwrap();
    assert_eq!(dt.year(), Some(2023));
    assert_eq!(dt.month(), Some(4));
    assert_eq!(dt.day(), Some(5));
    assert_eq!(dt.hour(), Some(12));
    assert_eq!(dt.minute(), Some(34));
    assert_eq!(dt.second(), Some(56));
    assert!(dt.as_date_time().is_some());
    assert!(dt.as_date().is_none());
    assert!(dt.as_time().is_none());

    let d = DateTime::from_ymd_opt(2023, 4, 5).unwrap();
    assert_eq!(d.hour(), None);
    assert!(d.as_date().is_some());
}

#[test]
fn parse_reads_the_three_textual_forms() {
    let date = DateTime::parse("2023-04-05").unwrap();
    assert_eq!(date, DateTime::from_ymd_opt(2023, 4, 5).unwrap());

    let time = DateTime::parse("12:34:56").unwrap();
    assert_eq!(time.hour(), Some(12));
    assert_eq!(time.year(), None);

    let dt = DateTime::parse("2023-04-05T00:00:00Z").unwrap();
    assert_eq!(dt, DateTime::with_ymd_and_hms(2023, 4, 5, 0, 0, 0).unwrap());

    assert!(DateTime::parse("not a date").is_none());
}

#[test]
fn iso_and_rfc_text() {
    let d = DateTime::from_ymd_opt(2023, 4, 5).unwrap();
    assert_eq!(d.to_iso8601(), "2023-04-05");
    assert_eq!(d.to_rfc3339(), "");

    let t = DateTime::parse("02:03:04").unwrap();
    assert_eq!(t.to_iso8601(), "02:03:04");

    let dt = DateTime::with_ymd_and_hms(987, 12, 31, 1, 2, 3).unwrap();
    assert_eq!(dt.to_iso8601(), "0987-12-31T01:02:03");
    assert_eq!(dt.to_rfc3339(), "0987-12-31T01:02:03+00:00");
}

#[test]
fn timestamp_matches_the_epoch() {
    let epoch = DateTime::with_ymd_and_hms(1970, 1, 1, 0, 0, 0).unwrap();
    assert_eq!(epoch.timestamp(), Some(0));

    let later = DateTime::with_ymd_and_hms(1970, 1, 2, 0, 0, 1).unwrap();
    assert_eq!(later.timestamp(), Some(86401));

    let bare_date = DateTime::from_ymd_opt(1970, 1, 1).unwrap();
    assert_eq!(bare_date.timestamp(), None);
}

#[test]
fn durations_count_days_and_seconds() {
    assert_eq!(Duration::days(2).num_seconds(), 172800);
    assert_eq!(Duration::seconds(-90000).num_days(), -1);
    assert_eq!(Duration::seconds(3600).num_days(), 0);
}

#[test]
fn now_reports_a_real_moment() {
    let now = DateTime::now();
    assert!(now.year().is_some());
    assert!(now.as_date_time().is_some());
}
