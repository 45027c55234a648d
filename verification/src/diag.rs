//! Dry-run diagnostics: the same date lookup as a reorganize run, but only
//! reporting which files no date can be determined for.
//!
//! Diagnostic mode deliberately has no forced-year step and applies no
//! skip-name sanitization: it mines the raw path, so it reports the files
//! that are genuinely unresolvable without operator overrides.

use vstd::prelude::*;

use crate::domain::ExifDateOutcome;
use crate::path_parser::{extracted_dates, get_dates_from_path};

verus! {

/// Outcome of a diagnostic run: how many files were seen, and the paths for
/// which no date could be determined, in enumeration order.
pub struct DiagReport {
    pub files_total: usize,
    pub files_with_issues: Vec<String>,
}

/// A file is flagged when the metadata yields no date (a metadata read error
/// counts as no date) and either path extraction is off or the raw path
/// holds no date.
pub open spec fn diag_issue(
    exif: ExifDateOutcome,
    extract_dates_from_path: bool,
    path: Seq<char>,
) -> bool {
    &&& !(exif is Found)
    &&& (!extract_dates_from_path || extracted_dates(path).len() == 0)
}

/// Classifies one file of a diagnostic run.
pub fn diag_has_issue(exif: &ExifDateOutcome, extract_dates_from_path: bool, file_path: &str) -> (r:
    bool)
    ensures
        r == diag_issue(*exif, extract_dates_from_path, file_path@),
{
    match exif {
        ExifDateOutcome::Found(_) => false,
        _ => {
            if extract_dates_from_path {
                let found = get_dates_from_path(file_path);
                found.len() == 0
            } else {
                true
            }
        },
    }
}

/// Diagnostic symmetry: with path extraction on, a file is flagged exactly
/// when it has neither a metadata date nor a path date; with it off, exactly
/// when it has no metadata date — so disabling extraction can only grow the
/// flagged set.
pub proof fn lemma_diag_symmetry(exif: ExifDateOutcome, path: Seq<char>)
    ensures
        diag_issue(exif, true, path) == (!(exif is Found) && extracted_dates(path).len() == 0),
        diag_issue(exif, false, path) == !(exif is Found),
        diag_issue(exif, true, path) ==> diag_issue(exif, false, path),
{
}

} // verus!
