//! Caller-owned configuration and the values the resolution policy passes
//! around.

use vstd::prelude::*;
use vstd::string::StringExecFns;

use crate::dates::{Date, DateTime, Time};
use crate::numstr::{dec_int, i32_string};
use crate::path_parser::lower_of;

verus! {

/// Behaviour configuration for files without capture metadata or without a
/// capture-date field in it.  `year` is meaningful only when `force_year` is
/// set.
pub struct NoExifConfig {
    pub extract_dates_from_path: bool,
    pub skip_dir_names_for_date_extract: Vec<String>,
    pub force_year: bool,
    pub year: i32,
}

/// The text of a boolean flag.
pub open spec fn bool_text(b: bool) -> Seq<char> {
    if b {
        "true"@
    } else {
        "false"@
    }
}

/// The one-line summary a configuration prints as.
pub open spec fn config_text(c: NoExifConfig) -> Seq<char> {
    "extract_dates_from_path: "@ + bool_text(c.extract_dates_from_path) + ", force_year: "@
        + bool_text(c.force_year) + ", year: "@ + dec_int(c.year as int)
}

impl NoExifConfig {
    /// One-line summary: the extraction flag, the forced-year flag, the year.
    pub fn to_string(&self) -> (r: String)
        ensures
            r@ == config_text(*self),
    {
        let mut r: String = "extract_dates_from_path: ".to_owned();
        let extract_text: &str = if self.extract_dates_from_path {
            "true"
        } else {
            "false"
        };
        r.append(extract_text);
        r.append(", force_year: ");
        let force_text: &str = if self.force_year {
            "true"
        } else {
            "false"
        };
        r.append(force_text);
        r.append(", year: ");
        let year_text: String = i32_string(self.year);
        r.append(year_text.as_str());
        proof {
            assert(r@ =~= config_text(*self));
        }
        r
    }
}

/// Whether a file's extension passes the filter: an empty filter accepts
/// every file; otherwise the file must have an extension whose lowercase
/// form is listed.
pub open spec fn extension_passes(extension: Option<Seq<char>>, filters: Seq<Seq<char>>) -> bool {
    ||| filters.len() == 0
    ||| (extension matches Some(e) && filters.contains(lower_of(e)))
}

/// Applies the extension filter to a file's extension, `None` standing for a
/// file without one.  The match is case-insensitive on the file's side; the
/// filter entries are expected lowercase.
pub fn extension_accepted(extension: Option<&str>, filter_extensions: &Vec<String>) -> (r: bool)
    ensures
        r == extension_passes(
            match extension {
                Some(e) => Some(e@),
                None => None,
            },
            filter_extensions.deep_view(),
        ),
{
    if filter_extensions.len() == 0 {
        return true;
    }
    match extension {
        None => false,
        Some(e) => {
            let lowered: String = crate::path_parser::to_lowercase_str(e);
            let mut k: usize = 0;
            while k < filter_extensions.len()
                invariant
                    k <= filter_extensions@.len(),
                    extension == Some(e),
                    lowered@ == lower_of(e@),
                    forall|t: int|
                        0 <= t < k ==> (#[trigger] filter_extensions@[t])@ != lower_of(e@),
                decreases filter_extensions@.len() - k,
            {
                let entry: &String = &filter_extensions[k];
                if entry.eq(&lowered) {
                    proof {
                        assert(filter_extensions.deep_view()[k as int] == lower_of(e@));
                        assert(filter_extensions.deep_view().contains(lower_of(e@)));
                    }
                    return true;
                }
                k = k + 1;
            }
            proof {
                assert(!filter_extensions.deep_view().contains(lower_of(e@))) by {
                    if filter_extensions.deep_view().contains(lower_of(e@)) {
                        let i = choose|i: int|
                            0 <= i < filter_extensions.deep_view().len()
                                && filter_extensions.deep_view()[i] == lower_of(e@);
                        assert((filter_extensions@[i])@ == lower_of(e@));
                    }
                }
            }
            false
        },
    }
}

/// What the metadata reader answered for a file.
#[derive(Clone, Copy, Debug, PartialEq, Eq)]
pub enum ExifDateOutcome {
    /// A capture timestamp was found.
    Found(DateTime),
    /// The file is readable but carries no capture-date field.
    Missing,
    /// The file could not be read as a metadata-bearing container at all.
    Unreadable,
}

/// Which step of the fallback chain produced a resolved date.
#[derive(Clone, Copy, Debug, PartialEq, Eq, Structural)]
pub enum DateSource {
    Metadata,
    Forced,
    FromPath,
}

/// The single date the policy commits to for a file: a full timestamp when
/// `time` is present, date-only otherwise.
#[derive(Clone, Copy, Debug, PartialEq, Eq)]
pub struct ResolvedDate {
    pub date: Date,
    pub time: Option<Time>,
    pub source: DateSource,
}

/// Validity of a resolved date's parts.
pub open spec fn resolved_valid(rd: ResolvedDate) -> bool {
    rd.date.valid() && (rd.time matches Some(t) ==> t.valid())
}

} // verus!
