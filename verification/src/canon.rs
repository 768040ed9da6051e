//! Canonical identifier names.
//!
//! A generated test function is named after the resource (a path or a
//! stringified expression) it is instantiated with.  Such text may hold
//! characters that are not legal in an identifier; each one is replaced by an
//! underscore.

use vstd::prelude::*;
use crate::strconv::{chars_to_string, str_to_chars};

verus! {

/// The delimiter and special characters that an identifier cannot hold.
pub open spec fn is_special_char(c: char) -> bool {
    c == '"' || c == ' ' || c == '.' || c == ':' || c == '-' || c == '*' || c == '/' || c == '\\'
        || c == '\n' || c == '\t' || c == '\r'
}

/// How one character of a name is canonicalized.
pub open spec fn canon_char(c: char) -> char {
    if is_special_char(c) {
        '_'
    } else {
        c
    }
}

/// The canonical form of a whole name: every special character becomes `_`.
pub open spec fn canonical(s: Seq<char>) -> Seq<char> {
    s.map_values(|c: char| canon_char(c))
}

/// Decide whether a character is special, as `is_special_char` says.
pub fn special_char(c: char) -> (r: bool)
    ensures
        r == is_special_char(c),
{
    c == '"' || c == ' ' || c == '.' || c == ':' || c == '-' || c == '*' || c == '/' || c == '\\'
        || c == '\n' || c == '\t' || c == '\r'
}

/// Canonicalize a name given as a character vector.
pub fn canonicalize_chars(s: &Vec<char>) -> (r: Vec<char>)
    ensures
        r@ == canonical(s@),
{
    let mut r: Vec<char> = Vec::new();
    let mut i: usize = 0;
    while i < s.len()
        invariant
            i <= s@.len(),
            r@ == canonical(s@.take(i as int)),
        decreases s@.len() - i,
    {
        let c: char = s[i];
        if special_char(c) {
            r.push('_');
        } else {
            r.push(c);
        }
        i = i + 1;
        proof {
            assert(s@.take(i as int) =~= s@.take(i - 1).push(s@[i - 1]));
            assert(canonical(s@.take(i as int)) =~= canonical(s@.take(i - 1)).push(
                canon_char(s@[i - 1]),
            ));
        }
    }
    proof {
        assert(s@.take(s@.len() as int) =~= s@);
    }
    r
}

/// Form a canonical function name: the input with every delimiter or special
/// character replaced by an underscore.
pub fn canonical_fn_name(s: &str) -> (r: String)
    ensures
        r@ == canonical(s@),
{
    let chars = str_to_chars(s);
    let canon = canonicalize_chars(&chars);
    chars_to_string(&canon)
}

/// The characters that the pattern-expansion macro replaces in a matched
/// path.  This older replacement set is smaller than `is_special_char`'s: it
/// leaves dots and colons alone.
pub open spec fn is_glob_special_char(c: char) -> bool {
    c == '"' || c == ' ' || c == '-' || c == '*' || c == '/'
}

/// How one character of a matched path is canonicalized.
pub open spec fn glob_canon_char(c: char) -> char {
    if is_glob_special_char(c) {
        '_'
    } else {
        c
    }
}

/// The canonical form of a matched path.
pub open spec fn glob_canonical(s: Seq<char>) -> Seq<char> {
    s.map_values(|c: char| glob_canon_char(c))
}

/// Canonicalize a matched path given as a character vector.
pub fn glob_canonicalize_chars(s: &Vec<char>) -> (r: Vec<char>)
    ensures
        r@ == glob_canonical(s@),
{
    let mut r: Vec<char> = Vec::new();
    let mut i: usize = 0;
    while i < s.len()
        invariant
            i <= s@.len(),
            r@ == glob_canonical(s@.take(i as int)),
        decreases s@.len() - i,
    {
        let c: char = s[i];
        if c == '"' || c == ' ' || c == '-' || c == '*' || c == '/' {
            r.push('_');
        } else {
            r.push(c);
        }
        i = i + 1;
        proof {
            assert(s@.take(i as int) =~= s@.take(i - 1).push(s@[i - 1]));
            assert(glob_canonical(s@.take(i as int)) =~= glob_canonical(s@.take(i - 1)).push(
                glob_canon_char(s@[i - 1]),
            ));
        }
    }
    proof {
        assert(s@.take(s@.len() as int) =~= s@);
    }
    r
}

} // verus!
