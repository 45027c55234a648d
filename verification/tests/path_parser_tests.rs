use imgtag::dates::Date;
use imgtag::path_parser::get_dates_from_path;

fn vec_contains_date(vec: &Vec<Date>, year: i32, month: u32, day: u32) -> bool {
    let date_found = vec.iter().find(|date| {
        date.year == year && date.month == month && date.day == day
    });

    date_found.is_some()
}

#[test]
fn dates_in_yyyymmdd_should_be_extracted() {
    let results = get_dates_from_path("/mnt/pics/20191123/20190527_IMG_14523.jpg");

    assert_eq!(results.len(), 2);

    let first_date = results.iter().find(|date| {
        date.year == 2019 && date.month == 11 && date.day == 23
    });

    assert!(first_date.is_some());

    let second_date = results.iter().find(|date| {
        date.year == 2019 && date.month == 5 && date.day == 27
    });

    assert!(second_date.is_some());
}

#[test]
fn dates_in_yyyy_mm_dd_should_be_extracted() {
    let results = get_dates_from_path("/mnt/pics/2018-01-07/2013-05-03_IMG_14523.jpg");

    assert_eq!(results.len(), 2);

    let first_date = results.iter().find(|date| {
        date.year == 2018 && date.month == 1 && date.day == 7
    });

    assert!(first_date.is_some());

    let second_date = results.iter().find(|date| {
        date.year == 2013 && date.month == 5 && date.day == 3
    });

    assert!(second_date.is_some());
}

#[test]
fn dates_in_yyyy_dot_mm_dot_dd_should_be_extracted() {
    let results = get_dates_from_path("/mnt/pics/2019.10.29/2017.02.11_petya_71.jpg");

    assert_eq!(results.len(), 2);

    assert!(vec_contains_date(&results, 2019, 10, 29));

    let second_date = results.iter().find(|date| {
        date.year == 2017 && date.month == 2 && date.day == 11
    });

    assert!(second_date.is_some());
}

#[test]
fn solid_digit_dates_come_in_path_order() {
    let results = get_dates_from_path("/mnt/pics/20191123/20190527_IMG_14523.jpg");

    assert_eq!(results.len(), 2);
    assert_eq!(results[0], Date { year: 2019, month: 11, day: 23 });
    assert_eq!(results[1], Date { year: 2019, month: 5, day: 27 });
}

#[test]
fn last_element_prefers_dot_separated_dates() {
    // The dot-separated date sits closer to the path root than the solid
    // one, yet it still ends the sequence: dot-pattern finds are appended
    // last.
    let results = get_dates_from_path("/mnt/pics/2017.02.11/20191123_IMG.jpg");

    assert_eq!(results.len(), 2);
    assert_eq!(results[0], Date { year: 2019, month: 11, day: 23 });
    assert_eq!(results[1], Date { year: 2017, month: 2, day: 11 });
}

#[test]
fn invalid_date_candidates_are_all_rejected() {
    let results = get_dates_from_path("/mnt/pics/20196229/2019.62.49/2017-02-99_IMG13.jpg");

    assert_eq!(results.len(), 0);
}

#[test]
fn leap_day_is_valid_only_in_leap_years() {
    assert_eq!(get_dates_from_path("/pics/2020-02-29_a.jpg").len(), 1);
    assert_eq!(get_dates_from_path("/pics/2019-02-29_a.jpg").len(), 0);
}

#[test]
fn matches_do_not_overlap() {
    // Ten digits hold only one eight-digit candidate: the leftmost.
    let results = get_dates_from_path("2019112345");

    assert_eq!(results.len(), 1);
    assert_eq!(results[0], Date { year: 2019, month: 11, day: 23 });
}

#[test]
fn hyphen_separated_candidate_spells_no_dotted_date() {
    // The arbitrary-separator pattern consumes `2018-01-07` too, but only a
    // dot-separated candidate spells a date, so the hyphenated date appears
    // once.
    let results = get_dates_from_path("x2018-01-07y");

    assert_eq!(results.len(), 1);
    assert_eq!(results[0], Date { year: 2018, month: 1, day: 7 });
}

#[test]
fn mixed_separator_candidate_is_no_date() {
    // `2018-01.07` has two different separators: neither the hyphen pattern
    // nor the same-separator pattern accepts it.
    let results = get_dates_from_path("x2018-01.07y");

    assert_eq!(results.len(), 0);
}
