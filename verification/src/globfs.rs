//! The file-system pattern expansion, through the `glob` crate.
//!
//! Expanding a pattern reads the file system, so nothing about the matched
//! paths can be promised; whether the pattern itself is accepted depends on
//! the pattern text alone.  Every function that consumes an expansion takes
//! the returned entries as an argument and is verified for each possible
//! value of them.

use vstd::prelude::*;

verus! {

/// One entry of a pattern expansion.
#[derive(Debug, PartialEq, Eq)]
pub enum PathEntry {
    /// A matched path, in UTF-8.
    Found(String),
    /// A path that matched but could not be read; the message says why.
    ReadFailure(String),
    /// A matched path whose name is not valid UTF-8, carried as its lossy
    /// display text.
    NotUtf8(String),
}

/// Whether the `glob` crate accepts a pattern.  Its answer is a function of
/// the pattern text alone.
pub uninterp spec fn glob_pattern_ok(pattern: Seq<char>) -> bool;

/// Relies on glob::glob: it returns `Err` exactly when the pattern is
/// invalid, which `Pattern::new` decides from the pattern text alone; on
/// success it yields the matched paths in alphabetical order, a path whose
/// directory could not be read coming through as an error entry, and a
/// matched name that is not UTF-8 as its lossy display text.
#[verifier::external_body]
pub(crate) fn glob_entries(pattern: &str) -> (r: Result<Vec<PathEntry>, String>)
    ensures
        r is Ok <==> glob_pattern_ok(pattern@),
{
    match glob::glob(pattern) {
        Err(e) => Err(e.to_string()),
        Ok(paths) => Ok(
            paths.map(
                |entry: Result<std::path::PathBuf, glob::GlobError>|
                    match entry {
                        Ok(p) => match p.into_os_string().into_string() {
                            Ok(s) => PathEntry::Found(s),
                            Err(os) => PathEntry::NotUtf8(os.to_string_lossy().into_owned()),
                        },
                        Err(g) => PathEntry::ReadFailure(g.to_string()),
                    },
            ).collect(),
        ),
    }
}

} // verus!
