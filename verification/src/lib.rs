//! Library for reclassifying image files into a `year/month-name/stamp__name`
//! hierarchy: mining calendar dates out of path strings, a fallback policy
//! that decides which date to trust for a file, and the construction of the
//! destination directory and file path.

pub mod commands;
pub mod dates;
pub mod diag;
pub mod domain;
pub mod numstr;
pub mod path_parser;
