//! Rebuild dependencies for a build script.
//!
//! A build script can register every file matching a pattern as a rebuild
//! trigger.  The library computes the directive lines; the caller prints
//! them on the build script's output.

use vstd::prelude::*;
use crate::globfs::{glob_entries, glob_pattern_ok, PathEntry};
use crate::render::push_str_chars;
use crate::strconv::chars_to_string;

verus! {

/// Error cases of the rebuild-dependency helper.  Only the first variant is
/// ever produced: a matched name that is not UTF-8 is carried lossily, and
/// no path is required to be a file; the other variants stand for the
/// helper's declared error surface.
#[derive(Clone, Debug, PartialEq, Eq)]
pub enum Error {
    /// Invalid pattern, or a match that could not be read; the message says
    /// why.
    InvalidGlobPattern(String),
    /// A matched path whose name is not valid UTF-8.
    InvalidOsString,
    /// Expanded pattern contains a path that is no file.
    ExpandedPathExpectedFile(String),
}

/// The rebuild directive for one path.
pub open spec fn spec_rerun_directive(path: Seq<char>) -> Seq<char> {
    "cargo:rerun-if-changed="@ + path
}

/// Form the rebuild directive for one path, as `spec_rerun_directive` says.
pub fn rerun_directive(path: &str) -> (r: String)
    ensures
        r@ == spec_rerun_directive(path@),
{
    let mut out: Vec<char> = Vec::new();
    push_str_chars(&mut out, "cargo:rerun-if-changed=");
    push_str_chars(&mut out, path);
    proof {
        assert(out@ =~= spec_rerun_directive(path@));
    }
    chars_to_string(&out)
}

/// The directives for an expansion's entries, or the error its first
/// unreadable entry turns into.  A matched name that is not UTF-8 still
/// gets its directive, from the lossy display text the entry carries.
pub open spec fn spec_rerun_directives(entries: Seq<PathEntry>) -> Result<Seq<Seq<char>>, Error>
    decreases entries.len(),
{
    if entries.len() == 0 {
        Ok(Seq::empty())
    } else {
        match spec_rerun_directives(entries.drop_last()) {
            Err(e) => Err(e),
            Ok(ds) => match entries.last() {
                PathEntry::Found(p) => Ok(ds.push(spec_rerun_directive(p@))),
                PathEntry::ReadFailure(m) => Err(Error::InvalidGlobPattern(m)),
                PathEntry::NotUtf8(d) => Ok(ds.push(spec_rerun_directive(d@))),
            },
        }
    }
}

/// An error among the first `i` entries decides the whole result.
proof fn lemma_rerun_err_prefix(entries: Seq<PathEntry>, i: int)
    requires
        0 <= i <= entries.len(),
        spec_rerun_directives(entries.take(i)) is Err,
    ensures
        spec_rerun_directives(entries) == spec_rerun_directives(entries.take(i)),
    decreases entries.len(),
{
    if i < entries.len() {
        assert(entries.drop_last().take(i) =~= entries.take(i));
        lemma_rerun_err_prefix(entries.drop_last(), i);
    } else {
        assert(entries.take(i) =~= entries);
    }
}

/// The only error an expansion's entries can turn into.
pub proof fn lemma_rerun_err_kind(entries: Seq<PathEntry>)
    ensures
        spec_rerun_directives(entries) matches Err(e) ==> e is InvalidGlobPattern,
    decreases entries.len(),
{
    if entries.len() > 0 {
        lemma_rerun_err_kind(entries.drop_last());
    }
}

/// Form the rebuild directives for an expansion's entries, as
/// `spec_rerun_directives` says.
pub fn rerun_directives_from(entries: &Vec<PathEntry>) -> (r: Result<Vec<String>, Error>)
    ensures
        r is Ok <==> spec_rerun_directives(entries@) is Ok,
        r matches Ok(ds) ==> spec_rerun_directives(entries@) matches Ok(sd) && ds.deep_view()
            == sd,
        r matches Err(e) ==> spec_rerun_directives(entries@) matches Err(e2) && e == e2,
{
    let mut ds: Vec<String> = Vec::new();
    let mut i: usize = 0;
    proof {
        assert(entries@.take(0) =~= Seq::<PathEntry>::empty());
        assert(ds.deep_view() =~~= Seq::<Seq<char>>::empty());
    }
    while i < entries.len()
        invariant
            i <= entries@.len(),
            spec_rerun_directives(entries@.take(i as int)) == Result::<Seq<Seq<char>>, Error>::Ok(
                ds.deep_view(),
            ),
        decreases entries@.len() - i,
    {
        proof {
            assert(entries@.take(i + 1).drop_last() =~= entries@.take(i as int));
            assert(entries@.take(i + 1).last() == entries@[i as int]);
        }
        match &entries[i] {
            PathEntry::Found(p) => {
                let ghost prev = ds.deep_view();
                let d = rerun_directive(p.as_str());
                ds.push(d);
                proof {
                    assert(ds.deep_view() =~~= prev.push(spec_rerun_directive(p@)));
                }
            },
            PathEntry::ReadFailure(m) => {
                let e = Error::InvalidGlobPattern(m.clone());
                proof {
                    lemma_rerun_err_prefix(entries@, i + 1);
                }
                return Err(e);
            },
            PathEntry::NotUtf8(d) => {
                let ghost prev = ds.deep_view();
                let dir = rerun_directive(d.as_str());
                ds.push(dir);
                proof {
                    assert(ds.deep_view() =~~= prev.push(spec_rerun_directive(d@)));
                }
            },
        }
        i = i + 1;
    }
    proof {
        assert(entries@.take(entries@.len() as int) =~= entries@);
    }
    Ok(ds)
}

/// Expand the pattern and form one rebuild directive per match.  The caller
/// prints each line on the build script's output; a pattern that matches
/// nothing yields no line at all, and a matched name that is not UTF-8
/// yields the directive of its lossy display text.
pub fn rerun_if_changed_paths(pattern: &str) -> (r: Result<Vec<String>, Error>)
    ensures
        !glob_pattern_ok(pattern@) ==> (r matches Err(e) && e is InvalidGlobPattern),
        glob_pattern_ok(pattern@) ==> (r matches Err(e) ==> e is InvalidGlobPattern),
{
    match glob_entries(pattern) {
        Err(m) => Err(Error::InvalidGlobPattern(m)),
        Ok(entries) => {
            let r = rerun_directives_from(&entries);
            proof {
                lemma_rerun_err_kind(entries@);
            }
            r
        },
    }
}

} // verus!
