//! The date-resolution policy and the destination placement it feeds: which
//! date to trust for a file, and where the file lands under the destination
//! root.

use vstd::prelude::*;
use vstd::string::StringExecFns;

use crate::dates::{Date, DateTime};
use crate::domain::{resolved_valid, DateSource, ExifDateOutcome, NoExifConfig, ResolvedDate};
use crate::numstr::{dec_digits, four_digit_string, four_digits, two_digit_string, two_digits, u32_string};
use crate::path_parser::{extracted_dates, get_dates_from_path, get_path_without_dir_names, sanitized_path};

verus! {

/// The fixed localized name of month `1..=12`; any other number maps to the
/// "unknown month" sentinel.
pub open spec fn month_name_text(month_index: u32) -> Seq<char> {
    if month_index == 1 {
        "Январь"@
    } else if month_index == 2 {
        "Февраль"@
    } else if month_index == 3 {
        "Март"@
    } else if month_index == 4 {
        "Апрель"@
    } else if month_index == 5 {
        "Май"@
    } else if month_index == 6 {
        "Июнь"@
    } else if month_index == 7 {
        "Июль"@
    } else if month_index == 8 {
        "Август"@
    } else if month_index == 9 {
        "Сентябрь"@
    } else if month_index == 10 {
        "Октябрь"@
    } else if month_index == 11 {
        "Ноябрь"@
    } else if month_index == 12 {
        "Декабрь"@
    } else {
        "Неизвестный"@
    }
}

/// The localized month name used as a destination directory component.
pub fn get_month_name(month_index: u32) -> (r: String)
    ensures
        r@ == month_name_text(month_index),
{
    let name: &str = match month_index {
        1 => "Январь",
        2 => "Февраль",
        3 => "Март",
        4 => "Апрель",
        5 => "Май",
        6 => "Июнь",
        7 => "Июль",
        8 => "Август",
        9 => "Сентябрь",
        10 => "Октябрь",
        11 => "Ноябрь",
        12 => "Декабрь",
        _ => "Неизвестный",
    };
    name.to_owned()
}

/// `YYYY-MM-DD` stamp of a date.
pub open spec fn date_stamp(d: Date) -> Seq<char> {
    four_digits(d.year as int) + "-"@ + two_digits(d.month as int) + "-"@ + two_digits(
        d.day as int,
    )
}

/// `YYYY-MM-DD__HH-MM-SS` stamp of a full timestamp.
pub open spec fn datetime_stamp(dt: DateTime) -> Seq<char> {
    date_stamp(dt.date) + "__"@ + two_digits(dt.time.hour as int) + "-"@ + two_digits(
        dt.time.minute as int,
    ) + "-"@ + two_digits(dt.time.second as int)
}

/// Destination directory `{root}/{year}/{month name}`, the year unpadded.
pub open spec fn dest_dir_text(root: Seq<char>, d: Date) -> Seq<char> {
    root + "/"@ + dec_digits(d.year as int) + "/"@ + month_name_text(d.month)
}

/// Destination file `{dir}/{stamp}__{original file name}`.
pub open spec fn dest_file_text(dir: Seq<char>, stamp: Seq<char>, name: Seq<char>) -> Seq<char> {
    dir + "/"@ + stamp + "__"@ + name
}

fn date_stamp_string(d: &Date) -> (r: String)
    requires
        d.valid(),
    ensures
        r@ == date_stamp(*d),
{
    let mut r: String = four_digit_string(d.year as u32);
    r.append("-");
    let month_part: String = two_digit_string(d.month);
    r.append(month_part.as_str());
    r.append("-");
    let day_part: String = two_digit_string(d.day);
    r.append(day_part.as_str());
    proof {
        assert(r@ =~= date_stamp(*d));
    }
    r
}

fn dest_dir_string(root_dest_path: &str, d: &Date) -> (r: String)
    requires
        d.valid(),
    ensures
        r@ == dest_dir_text(root_dest_path@, *d),
{
    let mut r: String = root_dest_path.to_owned();
    r.append("/");
    let year_part: String = u32_string(d.year as u32);
    r.append(year_part.as_str());
    r.append("/");
    let month_part: String = get_month_name(d.month);
    r.append(month_part.as_str());
    proof {
        assert(r@ =~= dest_dir_text(root_dest_path@, *d));
    }
    r
}

/// Destination directory and file path for a file whose date carries a time
/// of day: `{root}/{year}/{month}` and
/// `{root}/{year}/{month}/{YYYY-MM-DD__HH-MM-SS}__{original name}`.
pub fn get_dest_path_and_filepath_with_datetime(
    root_dest_path: &str,
    original_file_name: &str,
    file_datetime: &DateTime,
) -> (r: (String, String))
    requires
        file_datetime.valid(),
    ensures
        r.0@ == dest_dir_text(root_dest_path@, file_datetime.date),
        r.1@ == dest_file_text(
            dest_dir_text(root_dest_path@, file_datetime.date),
            datetime_stamp(*file_datetime),
            original_file_name@,
        ),
{
    let result_path: String = dest_dir_string(root_dest_path, &file_datetime.date);
    let mut stamp: String = date_stamp_string(&file_datetime.date);
    stamp.append("__");
    let hour_part: String = two_digit_string(file_datetime.time.hour);
    stamp.append(hour_part.as_str());
    stamp.append("-");
    let minute_part: String = two_digit_string(file_datetime.time.minute);
    stamp.append(minute_part.as_str());
    stamp.append("-");
    let second_part: String = two_digit_string(file_datetime.time.second);
    stamp.append(second_part.as_str());
    proof {
        assert(stamp@ =~= datetime_stamp(*file_datetime));
    }
    let mut result_file_path: String = result_path.clone();
    result_file_path.append("/");
    result_file_path.append(stamp.as_str());
    result_file_path.append("__");
    result_file_path.append(original_file_name);
    proof {
        assert(result_file_path@ =~= dest_file_text(
            dest_dir_text(root_dest_path@, file_datetime.date),
            datetime_stamp(*file_datetime),
            original_file_name@,
        ));
    }
    (result_path, result_file_path)
}

/// Destination directory and file path for a file whose date has no time of
/// day: `{root}/{year}/{month}` and
/// `{root}/{year}/{month}/{YYYY-MM-DD}__{original name}`.
pub fn get_dest_path_and_filepath_with_date(
    root_dest_path: &str,
    original_file_name: &str,
    file_date: &Date,
) -> (r: (String, String))
    requires
        file_date.valid(),
    ensures
        r.0@ == dest_dir_text(root_dest_path@, *file_date),
        r.1@ == dest_file_text(
            dest_dir_text(root_dest_path@, *file_date),
            date_stamp(*file_date),
            original_file_name@,
        ),
{
    let result_path: String = dest_dir_string(root_dest_path, file_date);
    let stamp: String = date_stamp_string(file_date);
    let mut result_file_path: String = result_path.clone();
    result_file_path.append("/");
    result_file_path.append(stamp.as_str());
    result_file_path.append("__");
    result_file_path.append(original_file_name);
    proof {
        assert(result_file_path@ =~= dest_file_text(
            dest_dir_text(root_dest_path@, *file_date),
            date_stamp(*file_date),
            original_file_name@,
        ));
    }
    (result_path, result_file_path)
}

/// The fallback chain, per file: the metadata date if one was found, else
/// January 1st of the forced year, else the last date mined from the
/// sanitized path, else nothing.  A metadata read error counts as "no date
/// found".
pub open spec fn resolved_date_of(
    exif: ExifDateOutcome,
    config: NoExifConfig,
    path: Seq<char>,
) -> Option<ResolvedDate> {
    match exif {
        ExifDateOutcome::Found(dt) => Some(
            ResolvedDate { date: dt.date, time: Some(dt.time), source: DateSource::Metadata },
        ),
        _ => {
            if config.force_year {
                Some(
                    ResolvedDate {
                        date: Date { year: config.year, month: 1, day: 1 },
                        time: None,
                        source: DateSource::Forced,
                    },
                )
            } else if config.extract_dates_from_path {
                let found = extracted_dates(
                    sanitized_path(path, config.skip_dir_names_for_date_extract.deep_view()),
                );
                if found.len() > 0 {
                    Some(
                        ResolvedDate { date: found.last(), time: None, source: DateSource::FromPath },
                    )
                } else {
                    None
                }
            } else {
                None
            }
        },
    }
}

/// Decides which date to trust for a file: the fallback chain
/// metadata -> forced year -> sanitized-path extraction -> unresolved.
pub fn resolve_date(exif: &ExifDateOutcome, config: &NoExifConfig, file_path: &str) -> (r: Option<
    ResolvedDate,
>)
    requires
        config.force_year ==> 0 <= config.year <= 9999,
        *exif matches ExifDateOutcome::Found(dt) ==> dt.valid(),
    ensures
        r == resolved_date_of(*exif, *config, file_path@),
        r matches Some(rd) ==> resolved_valid(rd),
{
    match exif {
        ExifDateOutcome::Found(dt) => Some(
            ResolvedDate { date: dt.date, time: Some(dt.time), source: DateSource::Metadata },
        ),
        _ => {
            if config.force_year {
                Some(
                    ResolvedDate {
                        date: Date { year: config.year, month: 1, day: 1 },
                        time: None,
                        source: DateSource::Forced,
                    },
                )
            } else if config.extract_dates_from_path {
                let sanitized: String = get_path_without_dir_names(
                    file_path,
                    &config.skip_dir_names_for_date_extract,
                );
                let found: Vec<Date> = get_dates_from_path(sanitized.as_str());
                if found.len() > 0 {
                    let last: Date = found[found.len() - 1];
                    Some(ResolvedDate { date: last, time: None, source: DateSource::FromPath })
                } else {
                    None
                }
            } else {
                None
            }
        },
    }
}

/// The stamp a resolved date is written as: a full timestamp when the time
/// of day is known, the date alone otherwise.
pub open spec fn resolved_stamp(rd: ResolvedDate) -> Seq<char> {
    match rd.time {
        Some(t) => datetime_stamp(DateTime { date: rd.date, time: t }),
        None => date_stamp(rd.date),
    }
}

/// Destination directory and file path for a resolved date.
pub fn plan_destination(
    root_dest_path: &str,
    original_file_name: &str,
    resolved: &ResolvedDate,
) -> (r: (String, String))
    requires
        resolved_valid(*resolved),
    ensures
        r.0@ == dest_dir_text(root_dest_path@, resolved.date),
        r.1@ == dest_file_text(
            dest_dir_text(root_dest_path@, resolved.date),
            resolved_stamp(*resolved),
            original_file_name@,
        ),
{
    match resolved.time {
        Some(t) => get_dest_path_and_filepath_with_datetime(
            root_dest_path,
            original_file_name,
            &DateTime { date: resolved.date, time: t },
        ),
        None => get_dest_path_and_filepath_with_date(
            root_dest_path,
            original_file_name,
            &resolved.date,
        ),
    }
}

/// Forced-year precedence: when the metadata gave no date and a year is
/// forced, the policy resolves to January 1st of that year, date-only and
/// tagged as forced, whatever dates the file's path may hold.
pub proof fn lemma_forced_year_precedence(
    exif: ExifDateOutcome,
    config: NoExifConfig,
    path: Seq<char>,
)
    requires
        !(exif is Found),
        config.force_year,
    ensures
        resolved_date_of(exif, config, path) == Some(
            ResolvedDate {
                date: Date { year: config.year, month: 1, day: 1 },
                time: None,
                source: DateSource::Forced,
            },
        ),
{
}

/// Skip, not error: with no metadata date, no forced year and path
/// extraction disabled, the policy resolves nothing at all — downstream such
/// a file is left untouched, never counted as a failure.
pub proof fn lemma_unresolved_is_skip(
    exif: ExifDateOutcome,
    config: NoExifConfig,
    path: Seq<char>,
)
    requires
        !(exif is Found),
        !config.force_year,
        !config.extract_dates_from_path,
    ensures
        resolved_date_of(exif, config, path) is None,
{
}

} // verus!
