use imgtag::domain::{extension_accepted, NoExifConfig};

#[test]
fn config_summary_is_one_exact_line() {
    let c = NoExifConfig {
        extract_dates_from_path: true,
        skip_dir_names_for_date_extract: Vec::new(),
        force_year: false,
        year: 0,
    };

    assert_eq!(c.to_string(), "extract_dates_from_path: true, force_year: false, year: 0");
}

#[test]
fn config_summary_writes_negative_years() {
    let c = NoExifConfig {
        extract_dates_from_path: false,
        skip_dir_names_for_date_extract: vec![String::from("tmp")],
        force_year: true,
        year: -57,
    };

    assert_eq!(c.to_string(), "extract_dates_from_path: false, force_year: true, year: -57");
}

#[test]
fn empty_extension_filter_accepts_every_file() {
    let filters: Vec<String> = Vec::new();

    assert!(extension_accepted(Some("jpg"), &filters));
    assert!(extension_accepted(Some("txt"), &filters));
    assert!(extension_accepted(None, &filters));
}

#[test]
fn extension_filter_matches_case_insensitively() {
    let filters = vec![String::from("jpg"), String::from("jpeg"), String::from("tiff")];

    assert!(extension_accepted(Some("jpg"), &filters));
    assert!(extension_accepted(Some("JPG"), &filters));
    assert!(extension_accepted(Some("Jpeg"), &filters));
    assert!(!extension_accepted(Some("png"), &filters));
    assert!(!extension_accepted(None, &filters));
}

#[test]
fn config_summary_writes_multi_digit_years() {
    let c = NoExifConfig {
        extract_dates_from_path: true,
        skip_dir_names_for_date_extract: Vec::new(),
        force_year: true,
        year: 2038,
    };

    assert_eq!(c.to_string(), "extract_dates_from_path: true, force_year: true, year: 2038");
}
