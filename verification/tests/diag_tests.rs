use imgtag::dates::DateTime;
use imgtag::diag::{diag_has_issue, DiagReport};
use imgtag::domain::ExifDateOutcome;

#[test]
fn diag_flags_only_the_genuinely_unresolvable_file() {
    // File A has a metadata date, file B only a path date, file C neither.
    let a = ExifDateOutcome::Found(DateTime::new(2020, 10, 10, 12, 9, 47).unwrap());
    let a_path = "/pics/holiday/a.jpg";
    let b = ExifDateOutcome::Missing;
    let b_path = "/pics/2019.10.29/b.jpg";
    let c = ExifDateOutcome::Missing;
    let c_path = "/pics/holiday/c.jpg";

    // With path extraction enabled only C is flagged.
    assert!(!diag_has_issue(&a, true, a_path));
    assert!(!diag_has_issue(&b, true, b_path));
    assert!(diag_has_issue(&c, true, c_path));

    // With it disabled, B and C are flagged.
    assert!(!diag_has_issue(&a, false, a_path));
    assert!(diag_has_issue(&b, false, b_path));
    assert!(diag_has_issue(&c, false, c_path));
}

#[test]
fn diag_treats_a_metadata_error_as_no_date() {
    let unreadable = ExifDateOutcome::Unreadable;

    assert!(!diag_has_issue(&unreadable, true, "/pics/2019.10.29/b.jpg"));
    assert!(diag_has_issue(&unreadable, true, "/pics/holiday/c.jpg"));
    assert!(diag_has_issue(&unreadable, false, "/pics/2019.10.29/b.jpg"));
}

#[test]
fn diag_ignores_skip_names_and_mines_the_raw_path() {
    // Diagnostic mode applies no sanitization: the date-bearing segment is
    // mined even though a reorganize run could be told to skip it.
    let md = ExifDateOutcome::Missing;
    assert!(!diag_has_issue(&md, true, "/pics/manga-2019.10.29/b.jpg"));
}

#[test]
fn diag_report_carries_totals_and_flagged_paths() {
    let report = DiagReport {
        files_total: 3,
        files_with_issues: vec![String::from("/pics/holiday/c.jpg")],
    };

    assert_eq!(report.files_total, 3);
    assert_eq!(report.files_with_issues.len(), 1);
    assert_eq!(report.files_with_issues[0], "/pics/holiday/c.jpg");
}
