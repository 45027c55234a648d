use imgtag::commands::{
    get_dest_path_and_filepath_with_date, get_dest_path_and_filepath_with_datetime, get_month_name,
    plan_destination, resolve_date,
};
use imgtag::dates::{Date, DateTime, Time};
use imgtag::domain::{DateSource, ExifDateOutcome, NoExifConfig, ResolvedDate};

fn config(extract: bool, force_year: bool, year: i32) -> NoExifConfig {
    NoExifConfig {
        extract_dates_from_path: extract,
        skip_dir_names_for_date_extract: Vec::new(),
        force_year,
        year,
    }
}

#[test]
fn month_names_are_the_fixed_localized_table() {
    assert_eq!(get_month_name(1), "Январь");
    assert_eq!(get_month_name(5), "Май");
    assert_eq!(get_month_name(10), "Октябрь");
    assert_eq!(get_month_name(12), "Декабрь");
    assert_eq!(get_month_name(0), "Неизвестный");
    assert_eq!(get_month_name(13), "Неизвестный");
}

#[test]
fn datetime_destination_has_full_stamp() {
    let dt = DateTime::new(2020, 10, 10, 12, 9, 47).unwrap();
    let (dir, file) =
        get_dest_path_and_filepath_with_datetime("results", "IMG_20201010_120947.jpg", &dt);

    assert_eq!(dir, "results/2020/Октябрь");
    assert_eq!(file, "results/2020/Октябрь/2020-10-10__12-09-47__IMG_20201010_120947.jpg");
}

#[test]
fn date_destination_has_date_only_stamp() {
    let d = Date::new(2013, 5, 17).unwrap();
    let (dir, file) =
        get_dest_path_and_filepath_with_date("results", "manga__berserk__forest.jpg", &d);

    assert_eq!(dir, "results/2013/Май");
    assert_eq!(file, "results/2013/Май/2013-05-17__manga__berserk__forest.jpg");
}

#[test]
fn stamp_fields_are_zero_padded() {
    let dt = DateTime::new(42, 1, 2, 3, 4, 5).unwrap();
    let (dir, file) = get_dest_path_and_filepath_with_datetime("r", "a.jpg", &dt);

    // The directory year is written unpadded, the stamp year four-digit.
    assert_eq!(dir, "r/42/Январь");
    assert_eq!(file, "r/42/Январь/0042-01-02__03-04-05__a.jpg");
}

#[test]
fn metadata_date_wins_over_everything() {
    let dt = DateTime::new(2020, 10, 10, 12, 9, 47).unwrap();
    let resolved = resolve_date(
        &ExifDateOutcome::Found(dt),
        &config(true, true, 2000),
        "/mnt/pics/2019.10.29/a.jpg",
    )
    .unwrap();

    assert_eq!(resolved.date, Date { year: 2020, month: 10, day: 10 });
    assert_eq!(resolved.time, Some(Time { hour: 12, minute: 9, second: 47 }));
    assert_eq!(resolved.source, DateSource::Metadata);
}

#[test]
fn forced_year_takes_precedence_over_path_dates() {
    let resolved = resolve_date(
        &ExifDateOutcome::Missing,
        &config(true, true, 2000),
        "/mnt/pics/2019.10.29/20170211_a.jpg",
    )
    .unwrap();

    assert_eq!(resolved.date, Date { year: 2000, month: 1, day: 1 });
    assert_eq!(resolved.time, None);
    assert_eq!(resolved.source, DateSource::Forced);

    let (dir, file) = plan_destination("results", "a.jpg", &resolved);
    assert_eq!(dir, "results/2000/Январь");
    assert_eq!(file, "results/2000/Январь/2000-01-01__a.jpg");
}

#[test]
fn path_resolution_picks_the_date_nearest_the_filename() {
    let resolved = resolve_date(
        &ExifDateOutcome::Missing,
        &config(true, false, 0),
        "/mnt/pics/20191123/20190527_IMG_14523.jpg",
    )
    .unwrap();

    assert_eq!(resolved.date, Date { year: 2019, month: 5, day: 27 });
    assert_eq!(resolved.source, DateSource::FromPath);
}

#[test]
fn path_resolution_sanitizes_with_the_skip_names() {
    let cfg = NoExifConfig {
        extract_dates_from_path: true,
        skip_dir_names_for_date_extract: vec![String::from("2019")],
        force_year: false,
        year: 0,
    };
    let resolved =
        resolve_date(&ExifDateOutcome::Missing, &cfg, "/mnt/2019.10.29/20170211_a.jpg").unwrap();

    // The dot-separated segment is dropped before mining, so the solid date
    // in the filename is the only candidate left.
    assert_eq!(resolved.date, Date { year: 2017, month: 2, day: 11 });
}

#[test]
fn unresolved_file_is_a_skip_not_an_error() {
    let r = resolve_date(
        &ExifDateOutcome::Missing,
        &config(false, false, 0),
        "/mnt/pics/2019.10.29/a.jpg",
    );

    assert!(r.is_none());
}

#[test]
fn metadata_read_error_falls_through_like_no_date() {
    let r = resolve_date(
        &ExifDateOutcome::Unreadable,
        &config(true, false, 0),
        "/mnt/pics/2019.10.29/a.jpg",
    )
    .unwrap();

    assert_eq!(r.date, Date { year: 2019, month: 10, day: 29 });
    assert_eq!(r.source, DateSource::FromPath);
}

#[test]
fn extraction_disabled_resolves_nothing_from_the_path() {
    let r = resolve_date(
        &ExifDateOutcome::Missing,
        &config(false, true, 1999),
        "/mnt/pics/2019.10.29/a.jpg",
    )
    .unwrap();

    // The forced year still applies when extraction is off.
    assert_eq!(r.date, Date { year: 1999, month: 1, day: 1 });
    assert_eq!(r.source, DateSource::Forced);
}

#[test]
fn plan_destination_keeps_the_resolved_stamp_precision() {
    let with_time = ResolvedDate {
        date: Date { year: 2020, month: 10, day: 10 },
        time: Some(Time { hour: 12, minute: 9, second: 47 }),
        source: DateSource::Metadata,
    };
    let (_, file) = plan_destination("d", "x.jpg", &with_time);
    assert_eq!(file, "d/2020/Октябрь/2020-10-10__12-09-47__x.jpg");

    let date_only = ResolvedDate {
        date: Date { year: 2020, month: 10, day: 10 },
        time: None,
        source: DateSource::FromPath,
    };
    let (_, file) = plan_destination("d", "x.jpg", &date_only);
    assert_eq!(file, "d/2020/Октябрь/2020-10-10__x.jpg");
}

#[test]
fn checked_date_constructor_rejects_bad_calendar_dates() {
    assert!(Date::new(2019, 2, 29).is_none());
    assert!(Date::new(2020, 2, 29).is_some());
    assert!(Date::new(2019, 13, 1).is_none());
    assert!(Date::new(2019, 0, 1).is_none());
    assert!(Date::new(2019, 6, 31).is_none());
    assert!(Date::new(10000, 1, 1).is_none());
    assert!(DateTime::new(2019, 6, 30, 24, 0, 0).is_none());
    assert!(DateTime::new(2019, 6, 30, 23, 59, 59).is_some());
}
