//! Expansion of one macro invocation into generated source text.
//!
//! Each function here takes the values the macro grammar carries — a target
//! identifier, a function body, the entries a pattern expanded to, or the
//! elements of a literal list — and produces the full generated output, or
//! the error the invocation is rejected with.  Entries are processed in
//! order and the first bad one decides the error: an unreadable path, a
//! path that is not UTF-8, or a derived name that is no legal identifier.

use vstd::prelude::*;
use crate::canon::{glob_canonical, glob_canonicalize_chars};
use crate::clip::{check_clip_clean, clip_chars, clip_is_clean, clipped};
use crate::expr::{
    expr_stringified, exprs_view, lemma_exprs_view_index, lemma_exprs_view_len, spec_stringified,
    ListExpr, SpecExpr,
};
use crate::globfs::{glob_entries, glob_pattern_ok, PathEntry};
use crate::names::{
    joined_canonical, spec_generated_name, spec_valid_ident, valid_ident, CONTENT_MAX_LEN,
};
use crate::parse::{
    extract_fn_ident, parse_attr_input, parse_expand_list_input, parse_expand_paths_input,
    parse_glob_expand_input, spec_attr_input, spec_expand_list_input, spec_expand_paths_input,
    spec_fn_ident, spec_glob_expand_input, ParseError,
};
use crate::render::{
    bench_list_item, bench_paths_item, bench_resources_item, glob_expand_item, push_str_chars,
    spec_bench_list_item, spec_bench_paths_item, spec_bench_resources_item, spec_glob_expand_item,
    spec_test_list_item, spec_test_paths_item, spec_test_resources_item, test_list_item,
    test_paths_item, test_resources_item,
};
use crate::strconv::{chars_to_string, str_to_chars};

verus! {

/// Why an invocation is rejected.
#[derive(Debug, PartialEq, Eq)]
pub enum ExpandError {
    /// The macro input does not match its grammar.
    BadInput(ParseError),
    /// The annotated item declares no function.
    BadFunction,
    /// The pattern was rejected by the pattern expansion; the message says
    /// why.
    InvalidPattern(String),
    /// A matched path could not be read; the message says why.
    Unreadable(String),
    /// A matched path whose name is not valid UTF-8.
    NotUtf8,
    /// The pattern matched no file or directory.
    NoMatch,
    /// The byte bound on a name taken from list content falls inside one
    /// character.
    SplitsChar,
    /// A derived name is no legal identifier.
    InvalidIdent,
}

/// The name of the test the pattern-expansion macro generates for one
/// matched path.
pub open spec fn spec_glob_gen_name(path: Seq<char>) -> Seq<char> {
    "gen_"@ + glob_canonical(path)
}

/// Form the generated name for one matched path of the pattern-expansion
/// macro.
pub fn glob_gen_name(path: &Vec<char>) -> (r: Vec<char>)
    ensures
        r@ == spec_glob_gen_name(path@),
{
    let mut name: Vec<char> = Vec::new();
    push_str_chars(&mut name, "gen_");
    let canon = glob_canonicalize_chars(path);
    name.extend_from_slice(canon.as_slice());
    proof {
        assert(name@ =~= spec_glob_gen_name(path@));
    }
    name
}

/// The generated tests for a resource attribute, one per matched path in
/// order, or the error the first bad entry turns into.
pub open spec fn spec_test_resources_items(target: Seq<char>, entries: Seq<PathEntry>) -> Result<
    Seq<char>,
    ExpandError,
>
    decreases entries.len(),
{
    if entries.len() == 0 {
        Ok(Seq::empty())
    } else {
        match spec_test_resources_items(target, entries.drop_last()) {
            Err(e) => Err(e),
            Ok(prev) => match entries.last() {
                PathEntry::ReadFailure(m) => Err(ExpandError::Unreadable(m)),
                PathEntry::NotUtf8(_) => Err(ExpandError::NotUtf8),
                PathEntry::Found(p) => {
                    let name = spec_generated_name(target, p@);
                    if !spec_valid_ident(name) {
                        Err(ExpandError::InvalidIdent)
                    } else {
                        Ok(prev + spec_test_resources_item(name, target, p@))
                    }
                },
            },
        }
    }
}

/// The generated benchmarks for a resource attribute.
pub open spec fn spec_bench_resources_items(target: Seq<char>, entries: Seq<PathEntry>) -> Result<
    Seq<char>,
    ExpandError,
>
    decreases entries.len(),
{
    if entries.len() == 0 {
        Ok(Seq::empty())
    } else {
        match spec_bench_resources_items(target, entries.drop_last()) {
            Err(e) => Err(e),
            Ok(prev) => match entries.last() {
                PathEntry::ReadFailure(m) => Err(ExpandError::Unreadable(m)),
                PathEntry::NotUtf8(_) => Err(ExpandError::NotUtf8),
                PathEntry::Found(p) => {
                    let name = spec_generated_name(target, p@);
                    if !spec_valid_ident(name) {
                        Err(ExpandError::InvalidIdent)
                    } else {
                        Ok(prev + spec_bench_resources_item(name, target, p@))
                    }
                },
            },
        }
    }
}

/// The generated tests of the pattern-expansion macro, one per matched
/// path.
pub open spec fn spec_glob_expand_items(lambda: Seq<char>, entries: Seq<PathEntry>) -> Result<
    Seq<char>,
    ExpandError,
>
    decreases entries.len(),
{
    if entries.len() == 0 {
        Ok(Seq::empty())
    } else {
        match spec_glob_expand_items(lambda, entries.drop_last()) {
            Err(e) => Err(e),
            Ok(prev) => match entries.last() {
                PathEntry::ReadFailure(m) => Err(ExpandError::Unreadable(m)),
                PathEntry::NotUtf8(_) => Err(ExpandError::NotUtf8),
                PathEntry::Found(p) => {
                    let name = spec_glob_gen_name(p@);
                    if !spec_valid_ident(name) {
                        Err(ExpandError::InvalidIdent)
                    } else {
                        Ok(prev + spec_glob_expand_item(name, lambda, p@))
                    }
                },
            },
        }
    }
}

/// The generated tests of the path-expansion macro.
pub open spec fn spec_test_paths_items(target: Seq<char>, entries: Seq<PathEntry>) -> Result<
    Seq<char>,
    ExpandError,
>
    decreases entries.len(),
{
    if entries.len() == 0 {
        Ok(Seq::empty())
    } else {
        match spec_test_paths_items(target, entries.drop_last()) {
            Err(e) => Err(e),
            Ok(prev) => match entries.last() {
                PathEntry::ReadFailure(m) => Err(ExpandError::Unreadable(m)),
                PathEntry::NotUtf8(_) => Err(ExpandError::NotUtf8),
                PathEntry::Found(p) => {
                    let name = spec_generated_name(target, p@);
                    if !spec_valid_ident(name) {
                        Err(ExpandError::InvalidIdent)
                    } else {
                        Ok(prev + spec_test_paths_item(name, target, p@))
                    }
                },
            },
        }
    }
}

/// The generated benchmarks of the path-expansion macro.
pub open spec fn spec_bench_paths_items(target: Seq<char>, entries: Seq<PathEntry>) -> Result<
    Seq<char>,
    ExpandError,
>
    decreases entries.len(),
{
    if entries.len() == 0 {
        Ok(Seq::empty())
    } else {
        match spec_bench_paths_items(target, entries.drop_last()) {
            Err(e) => Err(e),
            Ok(prev) => match entries.last() {
                PathEntry::ReadFailure(m) => Err(ExpandError::Unreadable(m)),
                PathEntry::NotUtf8(_) => Err(ExpandError::NotUtf8),
                PathEntry::Found(p) => {
                    let name = spec_generated_name(target, p@);
                    if !spec_valid_ident(name) {
                        Err(ExpandError::InvalidIdent)
                    } else {
                        Ok(prev + spec_bench_paths_item(name, target, p@))
                    }
                },
            },
        }
    }
}

/// An error among the first `i` entries decides the whole result.
proof fn lemma_test_resources_err_prefix(target: Seq<char>, entries: Seq<PathEntry>, i: int)
    requires
        0 <= i <= entries.len(),
        spec_test_resources_items(target, entries.take(i)) is Err,
    ensures
        spec_test_resources_items(target, entries) == spec_test_resources_items(
            target,
            entries.take(i),
        ),
    decreases entries.len(),
{
    if i < entries.len() {
        assert(entries.drop_last().take(i) =~= entries.take(i));
        lemma_test_resources_err_prefix(target, entries.drop_last(), i);
    } else {
        assert(entries.take(i) =~= entries);
    }
}

/// An error among the first `i` entries decides the whole result.
proof fn lemma_bench_resources_err_prefix(target: Seq<char>, entries: Seq<PathEntry>, i: int)
    requires
        0 <= i <= entries.len(),
        spec_bench_resources_items(target, entries.take(i)) is Err,
    ensures
        spec_bench_resources_items(target, entries) == spec_bench_resources_items(
            target,
            entries.take(i),
        ),
    decreases entries.len(),
{
    if i < entries.len() {
        assert(entries.drop_last().take(i) =~= entries.take(i));
        lemma_bench_resources_err_prefix(target, entries.drop_last(), i);
    } else {
        assert(entries.take(i) =~= entries);
    }
}

/// An error among the first `i` entries decides the whole result.
proof fn lemma_glob_expand_err_prefix(lambda: Seq<char>, entries: Seq<PathEntry>, i: int)
    requires
        0 <= i <= entries.len(),
        spec_glob_expand_items(lambda, entries.take(i)) is Err,
    ensures
        spec_glob_expand_items(lambda, entries) == spec_glob_expand_items(
            lambda,
            entries.take(i),
        ),
    decreases entries.len(),
{
    if i < entries.len() {
        assert(entries.drop_last().take(i) =~= entries.take(i));
        lemma_glob_expand_err_prefix(lambda, entries.drop_last(), i);
    } else {
        assert(entries.take(i) =~= entries);
    }
}

/// An error among the first `i` entries decides the whole result.
proof fn lemma_test_paths_err_prefix(target: Seq<char>, entries: Seq<PathEntry>, i: int)
    requires
        0 <= i <= entries.len(),
        spec_test_paths_items(target, entries.take(i)) is Err,
    ensures
        spec_test_paths_items(target, entries) == spec_test_paths_items(target, entries.take(i)),
    decreases entries.len(),
{
    if i < entries.len() {
        assert(entries.drop_last().take(i) =~= entries.take(i));
        lemma_test_paths_err_prefix(target, entries.drop_last(), i);
    } else {
        assert(entries.take(i) =~= entries);
    }
}

/// An error among the first `i` entries decides the whole result.
proof fn lemma_bench_paths_err_prefix(target: Seq<char>, entries: Seq<PathEntry>, i: int)
    requires
        0 <= i <= entries.len(),
        spec_bench_paths_items(target, entries.take(i)) is Err,
    ensures
        spec_bench_paths_items(target, entries) == spec_bench_paths_items(
            target,
            entries.take(i),
        ),
    decreases entries.len(),
{
    if i < entries.len() {
        assert(entries.drop_last().take(i) =~= entries.take(i));
        lemma_bench_paths_err_prefix(target, entries.drop_last(), i);
    } else {
        assert(entries.take(i) =~= entries);
    }
}

/// The only errors a resource expansion's entries can turn into.
pub proof fn lemma_test_resources_err_kind(target: Seq<char>, entries: Seq<PathEntry>)
    ensures
        spec_test_resources_items(target, entries) matches Err(e) ==> e is Unreadable
            || e is NotUtf8 || e is InvalidIdent,
    decreases entries.len(),
{
    if entries.len() > 0 {
        lemma_test_resources_err_kind(target, entries.drop_last());
    }
}

/// The only errors a resource expansion's entries can turn into.
pub proof fn lemma_bench_resources_err_kind(target: Seq<char>, entries: Seq<PathEntry>)
    ensures
        spec_bench_resources_items(target, entries) matches Err(e) ==> e is Unreadable
            || e is NotUtf8 || e is InvalidIdent,
    decreases entries.len(),
{
    if entries.len() > 0 {
        lemma_bench_resources_err_kind(target, entries.drop_last());
    }
}

/// The only errors a pattern expansion's entries can turn into.
pub proof fn lemma_glob_expand_err_kind(lambda: Seq<char>, entries: Seq<PathEntry>)
    ensures
        spec_glob_expand_items(lambda, entries) matches Err(e) ==> e is Unreadable
            || e is NotUtf8 || e is InvalidIdent,
    decreases entries.len(),
{
    if entries.len() > 0 {
        lemma_glob_expand_err_kind(lambda, entries.drop_last());
    }
}

/// The only errors a path expansion's entries can turn into.
pub proof fn lemma_test_paths_err_kind(target: Seq<char>, entries: Seq<PathEntry>)
    ensures
        spec_test_paths_items(target, entries) matches Err(e) ==> e is Unreadable || e is NotUtf8
            || e is InvalidIdent,
    decreases entries.len(),
{
    if entries.len() > 0 {
        lemma_test_paths_err_kind(target, entries.drop_last());
    }
}

/// The only errors a path expansion's entries can turn into.
pub proof fn lemma_bench_paths_err_kind(target: Seq<char>, entries: Seq<PathEntry>)
    ensures
        spec_bench_paths_items(target, entries) matches Err(e) ==> e is Unreadable
            || e is NotUtf8 || e is InvalidIdent,
    decreases entries.len(),
{
    if entries.len() > 0 {
        lemma_bench_paths_err_kind(target, entries.drop_last());
    }
}

/// Render the generated tests for a resource attribute's entries, as
/// `spec_test_resources_items` says.
pub fn test_resources_items(target: &Vec<char>, entries: &Vec<PathEntry>) -> (r: Result<
    Vec<char>,
    ExpandError,
>)
    ensures
        r is Ok <==> spec_test_resources_items(target@, entries@) is Ok,
        r matches Ok(out) ==> spec_test_resources_items(target@, entries@) matches Ok(o) && out@
            == o,
        r matches Err(e) ==> spec_test_resources_items(target@, entries@) matches Err(e2) && e
            == e2,
{
    let mut out: Vec<char> = Vec::new();
    let mut i: usize = 0;
    proof {
        assert(entries@.take(0) =~= Seq::<PathEntry>::empty());
    }
    while i < entries.len()
        invariant
            i <= entries@.len(),
            spec_test_resources_items(target@, entries@.take(i as int)) == Result::<
                Seq<char>,
                ExpandError,
            >::Ok(out@),
        decreases entries@.len() - i,
    {
        proof {
            assert(entries@.take(i + 1).drop_last() =~= entries@.take(i as int));
            assert(entries@.take(i + 1).last() == entries@[i as int]);
        }
        match &entries[i] {
            PathEntry::ReadFailure(m) => {
                let e = ExpandError::Unreadable(m.clone());
                proof {
                    lemma_test_resources_err_prefix(target@, entries@, i + 1);
                }
                return Err(e);
            },
            PathEntry::NotUtf8(_) => {
                proof {
                    lemma_test_resources_err_prefix(target@, entries@, i + 1);
                }
                return Err(ExpandError::NotUtf8);
            },
            PathEntry::Found(p) => {
                let pc = str_to_chars(p.as_str());
                let name = joined_canonical(target, &pc);
                if !valid_ident(&name) {
                    proof {
                        lemma_test_resources_err_prefix(target@, entries@, i + 1);
                    }
                    return Err(ExpandError::InvalidIdent);
                }
                let item = test_resources_item(&name, target, &pc);
                out.extend_from_slice(item.as_slice());
            },
        }
        i = i + 1;
        proof {
            assert(spec_test_resources_items(target@, entries@.take(i as int)) matches Ok(o) && o
                =~= out@);
        }
    }
    proof {
        assert(entries@.take(entries@.len() as int) =~= entries@);
    }
    Ok(out)
}

/// Render the generated benchmarks for a resource attribute's entries, as
/// `spec_bench_resources_items` says.
pub fn bench_resources_items(target: &Vec<char>, entries: &Vec<PathEntry>) -> (r: Result<
    Vec<char>,
    ExpandError,
>)
    ensures
        r is Ok <==> spec_bench_resources_items(target@, entries@) is Ok,
        r matches Ok(out) ==> spec_bench_resources_items(target@, entries@) matches Ok(o) && out@
            == o,
        r matches Err(e) ==> spec_bench_resources_items(target@, entries@) matches Err(e2) && e
            == e2,
{
    let mut out: Vec<char> = Vec::new();
    let mut i: usize = 0;
    proof {
        assert(entries@.take(0) =~= Seq::<PathEntry>::empty());
    }
    while i < entries.len()
        invariant
            i <= entries@.len(),
            spec_bench_resources_items(target@, entries@.take(i as int)) == Result::<
                Seq<char>,
                ExpandError,
            >::Ok(out@),
        decreases entries@.len() - i,
    {
        proof {
            assert(entries@.take(i + 1).drop_last() =~= entries@.take(i as int));
            assert(entries@.take(i + 1).last() == entries@[i as int]);
        }
        match &entries[i] {
            PathEntry::ReadFailure(m) => {
                let e = ExpandError::Unreadable(m.clone());
                proof {
                    lemma_bench_resources_err_prefix(target@, entries@, i + 1);
                }
                return Err(e);
            },
            PathEntry::NotUtf8(_) => {
                proof {
                    lemma_bench_resources_err_prefix(target@, entries@, i + 1);
                }
                return Err(ExpandError::NotUtf8);
            },
            PathEntry::Found(p) => {
                let pc = str_to_chars(p.as_str());
                let name = joined_canonical(target, &pc);
                if !valid_ident(&name) {
                    proof {
                        lemma_bench_resources_err_prefix(target@, entries@, i + 1);
                    }
                    return Err(ExpandError::InvalidIdent);
                }
                let item = bench_resources_item(&name, target, &pc);
                out.extend_from_slice(item.as_slice());
            },
        }
        i = i + 1;
        proof {
            assert(spec_bench_resources_items(target@, entries@.take(i as int)) matches Ok(o) && o
                =~= out@);
        }
    }
    proof {
        assert(entries@.take(entries@.len() as int) =~= entries@);
    }
    Ok(out)
}

/// Render the generated tests of the pattern-expansion macro, as
/// `spec_glob_expand_items` says.
pub fn glob_expand_items(lambda: &Vec<char>, entries: &Vec<PathEntry>) -> (r: Result<
    Vec<char>,
    ExpandError,
>)
    ensures
        r is Ok <==> spec_glob_expand_items(lambda@, entries@) is Ok,
        r matches Ok(out) ==> spec_glob_expand_items(lambda@, entries@) matches Ok(o) && out@
            == o,
        r matches Err(e) ==> spec_glob_expand_items(lambda@, entries@) matches Err(e2) && e == e2,
{
    let mut out: Vec<char> = Vec::new();
    let mut i: usize = 0;
    proof {
        assert(entries@.take(0) =~= Seq::<PathEntry>::empty());
    }
    while i < entries.len()
        invariant
            i <= entries@.len(),
            spec_glob_expand_items(lambda@, entries@.take(i as int)) == Result::<
                Seq<char>,
                ExpandError,
            >::Ok(out@),
        decreases entries@.len() - i,
    {
        proof {
            assert(entries@.take(i + 1).drop_last() =~= entries@.take(i as int));
            assert(entries@.take(i + 1).last() == entries@[i as int]);
        }
        match &entries[i] {
            PathEntry::ReadFailure(m) => {
                let e = ExpandError::Unreadable(m.clone());
                proof {
                    lemma_glob_expand_err_prefix(lambda@, entries@, i + 1);
                }
                return Err(e);
            },
            PathEntry::NotUtf8(_) => {
                proof {
                    lemma_glob_expand_err_prefix(lambda@, entries@, i + 1);
                }
                return Err(ExpandError::NotUtf8);
            },
            PathEntry::Found(p) => {
                let pc = str_to_chars(p.as_str());
                let name = glob_gen_name(&pc);
                if !valid_ident(&name) {
                    proof {
                        lemma_glob_expand_err_prefix(lambda@, entries@, i + 1);
                    }
                    return Err(ExpandError::InvalidIdent);
                }
                let item = glob_expand_item(&name, lambda, &pc);
                out.extend_from_slice(item.as_slice());
            },
        }
        i = i + 1;
        proof {
            assert(spec_glob_expand_items(lambda@, entries@.take(i as int)) matches Ok(o) && o
                =~= out@);
        }
    }
    proof {
        assert(entries@.take(entries@.len() as int) =~= entries@);
    }
    Ok(out)
}

/// Render the generated tests of the path-expansion macro, as
/// `spec_test_paths_items` says.
pub fn test_paths_items(target: &Vec<char>, entries: &Vec<PathEntry>) -> (r: Result<
    Vec<char>,
    ExpandError,
>)
    ensures
        r is Ok <==> spec_test_paths_items(target@, entries@) is Ok,
        r matches Ok(out) ==> spec_test_paths_items(target@, entries@) matches Ok(o) && out@
            == o,
        r matches Err(e) ==> spec_test_paths_items(target@, entries@) matches Err(e2) && e == e2,
{
    let mut out: Vec<char> = Vec::new();
    let mut i: usize = 0;
    proof {
        assert(entries@.take(0) =~= Seq::<PathEntry>::empty());
    }
    while i < entries.len()
        invariant
            i <= entries@.len(),
            spec_test_paths_items(target@, entries@.take(i as int)) == Result::<
                Seq<char>,
                ExpandError,
            >::Ok(out@),
        decreases entries@.len() - i,
    {
        proof {
            assert(entries@.take(i + 1).drop_last() =~= entries@.take(i as int));
            assert(entries@.take(i + 1).last() == entries@[i as int]);
        }
        match &entries[i] {
            PathEntry::ReadFailure(m) => {
                let e = ExpandError::Unreadable(m.clone());
                proof {
                    lemma_test_paths_err_prefix(target@, entries@, i + 1);
                }
                return Err(e);
            },
            PathEntry::NotUtf8(_) => {
                proof {
                    lemma_test_paths_err_prefix(target@, entries@, i + 1);
                }
                return Err(ExpandError::NotUtf8);
            },
            PathEntry::Found(p) => {
                let pc = str_to_chars(p.as_str());
                let name = joined_canonical(target, &pc);
                if !valid_ident(&name) {
                    proof {
                        lemma_test_paths_err_prefix(target@, entries@, i + 1);
                    }
                    return Err(ExpandError::InvalidIdent);
                }
                let item = test_paths_item(&name, target, &pc);
                out.extend_from_slice(item.as_slice());
            },
        }
        i = i + 1;
        proof {
            assert(spec_test_paths_items(target@, entries@.take(i as int)) matches Ok(o) && o
                =~= out@);
        }
    }
    proof {
        assert(entries@.take(entries@.len() as int) =~= entries@);
    }
    Ok(out)
}

/// Render the generated benchmarks of the path-expansion macro, as
/// `spec_bench_paths_items` says.
pub fn bench_paths_items(target: &Vec<char>, entries: &Vec<PathEntry>) -> (r: Result<
    Vec<char>,
    ExpandError,
>)
    ensures
        r is Ok <==> spec_bench_paths_items(target@, entries@) is Ok,
        r matches Ok(out) ==> spec_bench_paths_items(target@, entries@) matches Ok(o) && out@
            == o,
        r matches Err(e) ==> spec_bench_paths_items(target@, entries@) matches Err(e2) && e
            == e2,
{
    let mut out: Vec<char> = Vec::new();
    let mut i: usize = 0;
    proof {
        assert(entries@.take(0) =~= Seq::<PathEntry>::empty());
    }
    while i < entries.len()
        invariant
            i <= entries@.len(),
            spec_bench_paths_items(target@, entries@.take(i as int)) == Result::<
                Seq<char>,
                ExpandError,
            >::Ok(out@),
        decreases entries@.len() - i,
    {
        proof {
            assert(entries@.take(i + 1).drop_last() =~= entries@.take(i as int));
            assert(entries@.take(i + 1).last() == entries@[i as int]);
        }
        match &entries[i] {
            PathEntry::ReadFailure(m) => {
                let e = ExpandError::Unreadable(m.clone());
                proof {
                    lemma_bench_paths_err_prefix(target@, entries@, i + 1);
                }
                return Err(e);
            },
            PathEntry::NotUtf8(_) => {
                proof {
                    lemma_bench_paths_err_prefix(target@, entries@, i + 1);
                }
                return Err(ExpandError::NotUtf8);
            },
            PathEntry::Found(p) => {
                let pc = str_to_chars(p.as_str());
                let name = joined_canonical(target, &pc);
                if !valid_ident(&name) {
                    proof {
                        lemma_bench_paths_err_prefix(target@, entries@, i + 1);
                    }
                    return Err(ExpandError::InvalidIdent);
                }
                let item = bench_paths_item(&name, target, &pc);
                out.extend_from_slice(item.as_slice());
            },
        }
        i = i + 1;
        proof {
            assert(spec_bench_paths_items(target@, entries@.take(i as int)) matches Ok(o) && o
                =~= out@);
        }
    }
    proof {
        assert(entries@.take(entries@.len() as int) =~= entries@);
    }
    Ok(out)
}

/// What a resource-attribute invocation expands to: the annotated function
/// kept as it is, then one generated test per matched path; an expansion
/// with no path at all is rejected.
pub open spec fn spec_expand_test_resources(
    target: Seq<char>,
    func: Seq<char>,
    entries: Seq<PathEntry>,
) -> Result<Seq<char>, ExpandError> {
    match spec_test_resources_items(target, entries) {
        Err(e) => Err(e),
        Ok(items) => if entries.len() == 0 {
            Err(ExpandError::NoMatch)
        } else {
            Ok(func + "\n"@ + items)
        },
    }
}

/// What a benchmark resource-attribute invocation expands to.
pub open spec fn spec_expand_bench_resources(
    target: Seq<char>,
    func: Seq<char>,
    entries: Seq<PathEntry>,
) -> Result<Seq<char>, ExpandError> {
    match spec_bench_resources_items(target, entries) {
        Err(e) => Err(e),
        Ok(items) => if entries.len() == 0 {
            Err(ExpandError::NoMatch)
        } else {
            Ok(func + "\n"@ + items)
        },
    }
}

/// Expand a resource-attribute invocation over the entries its pattern
/// matched, as `spec_expand_test_resources` says.
pub fn expand_test_resources(target: &str, func: &str, entries: &Vec<PathEntry>) -> (r: Result<
    String,
    ExpandError,
>)
    ensures
        r is Ok <==> spec_expand_test_resources(target@, func@, entries@) is Ok,
        r matches Ok(out) ==> spec_expand_test_resources(target@, func@, entries@) matches Ok(o)
            && out@ == o,
        r matches Err(e) ==> spec_expand_test_resources(target@, func@, entries@) matches Err(e2)
            && e == e2,
{
    let t = str_to_chars(target);
    let items = match test_resources_items(&t, entries) {
        Ok(v) => v,
        Err(e) => {
            return Err(e);
        },
    };
    if entries.len() == 0 {
        return Err(ExpandError::NoMatch);
    }
    let mut out: Vec<char> = Vec::new();
    push_str_chars(&mut out, func);
    push_str_chars(&mut out, "\n");
    out.extend_from_slice(items.as_slice());
    proof {
        assert(spec_expand_test_resources(target@, func@, entries@) matches Ok(o) && o =~= out@);
    }
    Ok(chars_to_string(&out))
}

/// Expand a benchmark resource-attribute invocation, as
/// `spec_expand_bench_resources` says.
pub fn expand_bench_resources(target: &str, func: &str, entries: &Vec<PathEntry>) -> (r: Result<
    String,
    ExpandError,
>)
    ensures
        r is Ok <==> spec_expand_bench_resources(target@, func@, entries@) is Ok,
        r matches Ok(out) ==> spec_expand_bench_resources(target@, func@, entries@) matches Ok(o)
            && out@ == o,
        r matches Err(e) ==> spec_expand_bench_resources(target@, func@, entries@) matches Err(e2)
            && e == e2,
{
    let t = str_to_chars(target);
    let items = match bench_resources_items(&t, entries) {
        Ok(v) => v,
        Err(e) => {
            return Err(e);
        },
    };
    if entries.len() == 0 {
        return Err(ExpandError::NoMatch);
    }
    let mut out: Vec<char> = Vec::new();
    push_str_chars(&mut out, func);
    push_str_chars(&mut out, "\n");
    out.extend_from_slice(items.as_slice());
    proof {
        assert(spec_expand_bench_resources(target@, func@, entries@) matches Ok(o) && o =~= out@);
    }
    Ok(chars_to_string(&out))
}

/// Expand a pattern-expansion invocation over the entries its pattern
/// matched, as `spec_glob_expand_items` says; a pattern that matched
/// nothing expands to nothing.
pub fn expand_glob(lambda: &str, entries: &Vec<PathEntry>) -> (r: Result<String, ExpandError>)
    ensures
        r is Ok <==> spec_glob_expand_items(lambda@, entries@) is Ok,
        r matches Ok(out) ==> spec_glob_expand_items(lambda@, entries@) matches Ok(o) && out@
            == o,
        r matches Err(e) ==> spec_glob_expand_items(lambda@, entries@) matches Err(e2) && e == e2,
{
    let l = str_to_chars(lambda);
    match glob_expand_items(&l, entries) {
        Err(e) => Err(e),
        Ok(items) => Ok(chars_to_string(&items)),
    }
}

/// Expand a path-expansion invocation, as `spec_test_paths_items` says.
pub fn expand_test_paths(target: &str, entries: &Vec<PathEntry>) -> (r: Result<
    String,
    ExpandError,
>)
    ensures
        r is Ok <==> spec_test_paths_items(target@, entries@) is Ok,
        r matches Ok(out) ==> spec_test_paths_items(target@, entries@) matches Ok(o) && out@
            == o,
        r matches Err(e) ==> spec_test_paths_items(target@, entries@) matches Err(e2) && e == e2,
{
    let t = str_to_chars(target);
    match test_paths_items(&t, entries) {
        Err(e) => Err(e),
        Ok(items) => Ok(chars_to_string(&items)),
    }
}

/// Expand a benchmark path-expansion invocation, as
/// `spec_bench_paths_items` says.
pub fn expand_bench_paths(target: &str, entries: &Vec<PathEntry>) -> (r: Result<
    String,
    ExpandError,
>)
    ensures
        r is Ok <==> spec_bench_paths_items(target@, entries@) is Ok,
        r matches Ok(out) ==> spec_bench_paths_items(target@, entries@) matches Ok(o) && out@
            == o,
        r matches Err(e) ==> spec_bench_paths_items(target@, entries@) matches Err(e2) && e
            == e2,
{
    let t = str_to_chars(target);
    match bench_paths_items(&t, entries) {
        Err(e) => Err(e),
        Ok(items) => Ok(chars_to_string(&items)),
    }
}

/// The name of the generated function for one list element: the target
/// identifier joined with the element's stringification, the latter kept to
/// `CONTENT_MAX_LEN` bytes.
pub open spec fn spec_list_name(target: Seq<char>, e: SpecExpr) -> Seq<char> {
    spec_generated_name(target, clipped(spec_stringified(e, false), CONTENT_MAX_LEN as nat))
}

/// Whether a list element's name can be clipped at all: the byte bound must
/// fall on a character boundary of its stringification.
pub open spec fn spec_list_elem_ok(e: SpecExpr) -> bool {
    clip_is_clean(spec_stringified(e, false), CONTENT_MAX_LEN as nat)
}

/// The generated tests for a list of expressions, or the error its first
/// bad element turns into: a clip inside one character, or a derived name
/// that is no legal identifier.
pub open spec fn spec_test_list_items(target: Seq<char>, elems: Seq<SpecExpr>) -> Result<
    Seq<char>,
    ExpandError,
>
    decreases elems.len(),
{
    if elems.len() == 0 {
        Ok(Seq::empty())
    } else {
        match spec_test_list_items(target, elems.drop_last()) {
            Err(e) => Err(e),
            Ok(prev) => if !spec_list_elem_ok(elems.last()) {
                Err(ExpandError::SplitsChar)
            } else if !spec_valid_ident(spec_list_name(target, elems.last())) {
                Err(ExpandError::InvalidIdent)
            } else {
                Ok(
                    prev + spec_test_list_item(
                        spec_list_name(target, elems.last()),
                        target,
                        elems.last(),
                    ),
                )
            },
        }
    }
}

/// The generated benchmarks for a list of expressions.
pub open spec fn spec_bench_list_items(target: Seq<char>, elems: Seq<SpecExpr>) -> Result<
    Seq<char>,
    ExpandError,
>
    decreases elems.len(),
{
    if elems.len() == 0 {
        Ok(Seq::empty())
    } else {
        match spec_bench_list_items(target, elems.drop_last()) {
            Err(e) => Err(e),
            Ok(prev) => if !spec_list_elem_ok(elems.last()) {
                Err(ExpandError::SplitsChar)
            } else if !spec_valid_ident(spec_list_name(target, elems.last())) {
                Err(ExpandError::InvalidIdent)
            } else {
                Ok(
                    prev + spec_bench_list_item(
                        spec_list_name(target, elems.last()),
                        target,
                        elems.last(),
                    ),
                )
            },
        }
    }
}

/// An error among the first `i` list elements decides the whole result.
proof fn lemma_test_list_err_prefix(target: Seq<char>, elems: Seq<SpecExpr>, i: int)
    requires
        0 <= i <= elems.len(),
        spec_test_list_items(target, elems.take(i)) is Err,
    ensures
        spec_test_list_items(target, elems) == spec_test_list_items(target, elems.take(i)),
    decreases elems.len(),
{
    if i < elems.len() {
        assert(elems.drop_last().take(i) =~= elems.take(i));
        lemma_test_list_err_prefix(target, elems.drop_last(), i);
    } else {
        assert(elems.take(i) =~= elems);
    }
}

/// An error among the first `i` list elements decides the whole result.
proof fn lemma_bench_list_err_prefix(target: Seq<char>, elems: Seq<SpecExpr>, i: int)
    requires
        0 <= i <= elems.len(),
        spec_bench_list_items(target, elems.take(i)) is Err,
    ensures
        spec_bench_list_items(target, elems) == spec_bench_list_items(target, elems.take(i)),
    decreases elems.len(),
{
    if i < elems.len() {
        assert(elems.drop_last().take(i) =~= elems.take(i));
        lemma_bench_list_err_prefix(target, elems.drop_last(), i);
    } else {
        assert(elems.take(i) =~= elems);
    }
}

/// Expand a list-expansion invocation into one generated test per element,
/// as `spec_test_list_items` says.
pub fn expand_test_list(target: &str, elems: &Vec<ListExpr>) -> (r: Result<String, ExpandError>)
    ensures
        r is Ok <==> spec_test_list_items(target@, exprs_view(elems@)) is Ok,
        r matches Ok(out) ==> spec_test_list_items(target@, exprs_view(elems@)) matches Ok(o)
            && out@ == o,
        r matches Err(e) ==> spec_test_list_items(target@, exprs_view(elems@)) matches Err(e2)
            && e == e2,
{
    let ghost selems = exprs_view(elems@);
    let t = str_to_chars(target);
    let mut out: Vec<char> = Vec::new();
    let mut i: usize = 0;
    proof {
        lemma_exprs_view_len(elems@);
        assert(selems.take(0) =~= Seq::<SpecExpr>::empty());
    }
    while i < elems.len()
        invariant
            i <= elems@.len(),
            t@ == target@,
            selems == exprs_view(elems@),
            selems.len() == elems@.len(),
            spec_test_list_items(target@, selems.take(i as int)) == Result::<
                Seq<char>,
                ExpandError,
            >::Ok(out@),
        decreases elems@.len() - i,
    {
        proof {
            lemma_exprs_view_index(elems@, i as int);
            assert(selems.take(i + 1).drop_last() =~= selems.take(i as int));
            assert(selems.take(i + 1).last() == selems[i as int]);
        }
        let content = expr_stringified(&elems[i], false);
        if !check_clip_clean(&content, CONTENT_MAX_LEN) {
            proof {
                lemma_test_list_err_prefix(target@, selems, i + 1);
            }
            return Err(ExpandError::SplitsChar);
        }
        let safe = clip_chars(&content, CONTENT_MAX_LEN);
        let name = joined_canonical(&t, &safe);
        if !valid_ident(&name) {
            proof {
                lemma_test_list_err_prefix(target@, selems, i + 1);
            }
            return Err(ExpandError::InvalidIdent);
        }
        let item = test_list_item(&name, &t, &elems[i]);
        out.extend_from_slice(item.as_slice());
        i = i + 1;
        proof {
            assert(spec_test_list_items(target@, selems.take(i as int)) matches Ok(o) && o
                =~= out@);
        }
    }
    proof {
        assert(selems.take(selems.len() as int) =~= selems);
    }
    Ok(chars_to_string(&out))
}

/// Expand a list-expansion invocation into one generated benchmark per
/// element, as `spec_bench_list_items` says.
pub fn expand_bench_list(target: &str, elems: &Vec<ListExpr>) -> (r: Result<String, ExpandError>)
    ensures
        r is Ok <==> spec_bench_list_items(target@, exprs_view(elems@)) is Ok,
        r matches Ok(out) ==> spec_bench_list_items(target@, exprs_view(elems@)) matches Ok(o)
            && out@ == o,
        r matches Err(e) ==> spec_bench_list_items(target@, exprs_view(elems@)) matches Err(e2)
            && e == e2,
{
    let ghost selems = exprs_view(elems@);
    let t = str_to_chars(target);
    let mut out: Vec<char> = Vec::new();
    let mut i: usize = 0;
    proof {
        lemma_exprs_view_len(elems@);
        assert(selems.take(0) =~= Seq::<SpecExpr>::empty());
    }
    while i < elems.len()
        invariant
            i <= elems@.len(),
            t@ == target@,
            selems == exprs_view(elems@),
            selems.len() == elems@.len(),
            spec_bench_list_items(target@, selems.take(i as int)) == Result::<
                Seq<char>,
                ExpandError,
            >::Ok(out@),
        decreases elems@.len() - i,
    {
        proof {
            lemma_exprs_view_index(elems@, i as int);
            assert(selems.take(i + 1).drop_last() =~= selems.take(i as int));
            assert(selems.take(i + 1).last() == selems[i as int]);
        }
        let content = expr_stringified(&elems[i], false);
        if !check_clip_clean(&content, CONTENT_MAX_LEN) {
            proof {
                lemma_bench_list_err_prefix(target@, selems, i + 1);
            }
            return Err(ExpandError::SplitsChar);
        }
        let safe = clip_chars(&content, CONTENT_MAX_LEN);
        let name = joined_canonical(&t, &safe);
        if !valid_ident(&name) {
            proof {
                lemma_bench_list_err_prefix(target@, selems, i + 1);
            }
            return Err(ExpandError::InvalidIdent);
        }
        let item = bench_list_item(&name, &t, &elems[i]);
        out.extend_from_slice(item.as_slice());
        i = i + 1;
        proof {
            assert(spec_bench_list_items(target@, selems.take(i as int)) matches Ok(o) && o
                =~= out@);
        }
    }
    proof {
        assert(selems.take(selems.len() as int) =~= selems);
    }
    Ok(chars_to_string(&out))
}

/// Expand a resource-attribute invocation from its raw input: the attribute
/// argument names the pattern, and the annotated item is kept and followed
/// by one generated test per matched path.  What the expansion of a valid
/// pattern yields is said exactly by `spec_expand_test_resources` over the
/// entries the file system gave.
pub fn test_resources(attrs: &str, func: &str) -> (r: Result<String, ExpandError>)
    ensures
        spec_attr_input(attrs@) matches Err(pe) ==> r == Err::<String, ExpandError>(
            ExpandError::BadInput(pe),
        ),
        spec_attr_input(attrs@) is Ok && spec_fn_ident(func@) is None ==> r == Err::<
            String,
            ExpandError,
        >(ExpandError::BadFunction),
        spec_attr_input(attrs@) matches Ok(pat) && spec_fn_ident(func@) is Some
            && !glob_pattern_ok(pat) ==> (r matches Err(e) && e is InvalidPattern),
        spec_attr_input(attrs@) matches Ok(pat) && spec_fn_ident(func@) is Some
            && glob_pattern_ok(pat) ==> (r matches Err(e) ==> e is Unreadable || e is NotUtf8
            || e is NoMatch || e is InvalidIdent),
{
    let pattern = match parse_attr_input(attrs) {
        Ok(p) => p,
        Err(e) => {
            return Err(ExpandError::BadInput(e));
        },
    };
    let target = match extract_fn_ident(func) {
        Some(t) => t,
        None => {
            return Err(ExpandError::BadFunction);
        },
    };
    let entries = match glob_entries(pattern.as_str()) {
        Ok(es) => es,
        Err(m) => {
            return Err(ExpandError::InvalidPattern(m));
        },
    };
    match expand_test_resources(target.as_str(), func, &entries) {
        Ok(out) => Ok(out),
        Err(e) => {
            proof {
                lemma_test_resources_err_kind(target@, entries@);
            }
            Err(e)
        },
    }
}

/// Expand a benchmark resource-attribute invocation from its raw input, as
/// `test_resources` does for tests.
pub fn bench_resources(attrs: &str, func: &str) -> (r: Result<String, ExpandError>)
    ensures
        spec_attr_input(attrs@) matches Err(pe) ==> r == Err::<String, ExpandError>(
            ExpandError::BadInput(pe),
        ),
        spec_attr_input(attrs@) is Ok && spec_fn_ident(func@) is None ==> r == Err::<
            String,
            ExpandError,
        >(ExpandError::BadFunction),
        spec_attr_input(attrs@) matches Ok(pat) && spec_fn_ident(func@) is Some
            && !glob_pattern_ok(pat) ==> (r matches Err(e) && e is InvalidPattern),
        spec_attr_input(attrs@) matches Ok(pat) && spec_fn_ident(func@) is Some
            && glob_pattern_ok(pat) ==> (r matches Err(e) ==> e is Unreadable || e is NotUtf8
            || e is NoMatch || e is InvalidIdent),
{
    let pattern = match parse_attr_input(attrs) {
        Ok(p) => p,
        Err(e) => {
            return Err(ExpandError::BadInput(e));
        },
    };
    let target = match extract_fn_ident(func) {
        Some(t) => t,
        None => {
            return Err(ExpandError::BadFunction);
        },
    };
    let entries = match glob_entries(pattern.as_str()) {
        Ok(es) => es,
        Err(m) => {
            return Err(ExpandError::InvalidPattern(m));
        },
    };
    match expand_bench_resources(target.as_str(), func, &entries) {
        Ok(out) => Ok(out),
        Err(e) => {
            proof {
                lemma_bench_resources_err_kind(target@, entries@);
            }
            Err(e)
        },
    }
}

/// Expand a pattern-expansion invocation from its raw input: the input
/// names a pattern and a function, and one generated test per matched path
/// applies the function to that path.
pub fn glob_expand(input: &str) -> (r: Result<String, ExpandError>)
    ensures
        spec_glob_expand_input(input@) matches Err(pe) ==> r == Err::<String, ExpandError>(
            ExpandError::BadInput(pe),
        ),
        spec_glob_expand_input(input@) matches Ok(pl) && !glob_pattern_ok(pl.0) ==> (r matches Err(
            e,
        ) && e is InvalidPattern),
        spec_glob_expand_input(input@) matches Ok(pl) && glob_pattern_ok(pl.0) ==> (r matches Err(
            e,
        ) ==> e is Unreadable || e is NotUtf8 || e is InvalidIdent),
{
    let (pattern, lambda) = match parse_glob_expand_input(input) {
        Ok(p) => p,
        Err(e) => {
            return Err(ExpandError::BadInput(e));
        },
    };
    let entries = match glob_entries(pattern.as_str()) {
        Ok(es) => es,
        Err(m) => {
            return Err(ExpandError::InvalidPattern(m));
        },
    };
    match expand_glob(lambda.as_str(), &entries) {
        Ok(out) => Ok(out),
        Err(e) => {
            proof {
                lemma_glob_expand_err_kind(lambda@, entries@);
            }
            Err(e)
        },
    }
}

/// Expand a path-expansion invocation from its raw input.
pub fn test_expand_paths(input: &str) -> (r: Result<String, ExpandError>)
    ensures
        spec_expand_paths_input(input@) matches Err(pe) ==> r == Err::<String, ExpandError>(
            ExpandError::BadInput(pe),
        ),
        spec_expand_paths_input(input@) matches Ok(np) && !glob_pattern_ok(np.1) ==> (r matches Err(
            e,
        ) && e is InvalidPattern),
        spec_expand_paths_input(input@) matches Ok(np) && glob_pattern_ok(np.1) ==> (r matches Err(
            e,
        ) ==> e is Unreadable || e is NotUtf8 || e is InvalidIdent),
{
    let (target, pattern) = match parse_expand_paths_input(input) {
        Ok(p) => p,
        Err(e) => {
            return Err(ExpandError::BadInput(e));
        },
    };
    let entries = match glob_entries(pattern.as_str()) {
        Ok(es) => es,
        Err(m) => {
            return Err(ExpandError::InvalidPattern(m));
        },
    };
    match expand_test_paths(target.as_str(), &entries) {
        Ok(out) => Ok(out),
        Err(e) => {
            proof {
                lemma_test_paths_err_kind(target@, entries@);
            }
            Err(e)
        },
    }
}

/// Expand a benchmark path-expansion invocation from its raw input.
pub fn bench_expand_paths(input: &str) -> (r: Result<String, ExpandError>)
    ensures
        spec_expand_paths_input(input@) matches Err(pe) ==> r == Err::<String, ExpandError>(
            ExpandError::BadInput(pe),
        ),
        spec_expand_paths_input(input@) matches Ok(np) && !glob_pattern_ok(np.1) ==> (r matches Err(
            e,
        ) && e is InvalidPattern),
        spec_expand_paths_input(input@) matches Ok(np) && glob_pattern_ok(np.1) ==> (r matches Err(
            e,
        ) ==> e is Unreadable || e is NotUtf8 || e is InvalidIdent),
{
    let (target, pattern) = match parse_expand_paths_input(input) {
        Ok(p) => p,
        Err(e) => {
            return Err(ExpandError::BadInput(e));
        },
    };
    let entries = match glob_entries(pattern.as_str()) {
        Ok(es) => es,
        Err(m) => {
            return Err(ExpandError::InvalidPattern(m));
        },
    };
    match expand_bench_paths(target.as_str(), &entries) {
        Ok(out) => Ok(out),
        Err(e) => {
            proof {
                lemma_bench_paths_err_kind(target@, entries@);
            }
            Err(e)
        },
    }
}

/// Expand a list-expansion invocation from its raw input: one generated
/// test per list element.
pub fn test_expand_list(input: &str) -> (r: Result<String, ExpandError>)
    ensures
        spec_expand_list_input(input@) matches Err(pe) ==> r == Err::<String, ExpandError>(
            ExpandError::BadInput(pe),
        ),
        spec_expand_list_input(input@) matches Ok(nl) ==> {
            &&& (r is Ok <==> spec_test_list_items(nl.0, nl.1) is Ok)
            &&& (r matches Ok(out) ==> spec_test_list_items(nl.0, nl.1) matches Ok(o) && out@
                == o)
            &&& (r matches Err(e) ==> spec_test_list_items(nl.0, nl.1) matches Err(e2) && e == e2)
        },
{
    let (target, elems) = match parse_expand_list_input(input) {
        Ok(p) => p,
        Err(e) => {
            return Err(ExpandError::BadInput(e));
        },
    };
    expand_test_list(target.as_str(), &elems)
}

/// Expand a benchmark list-expansion invocation from its raw input.
pub fn bench_expand_list(input: &str) -> (r: Result<String, ExpandError>)
    ensures
        spec_expand_list_input(input@) matches Err(pe) ==> r == Err::<String, ExpandError>(
            ExpandError::BadInput(pe),
        ),
        spec_expand_list_input(input@) matches Ok(nl) ==> {
            &&& (r is Ok <==> spec_bench_list_items(nl.0, nl.1) is Ok)
            &&& (r matches Ok(out) ==> spec_bench_list_items(nl.0, nl.1) matches Ok(o) && out@
                == o)
            &&& (r matches Err(e) ==> spec_bench_list_items(nl.0, nl.1) matches Err(e2) && e
                == e2)
        },
{
    let (target, elems) = match parse_expand_list_input(input) {
        Ok(p) => p,
        Err(e) => {
            return Err(ExpandError::BadInput(e));
        },
    };
    expand_bench_list(target.as_str(), &elems)
}

} // verus!
